use quicklendx_contracts::bid::BidStatus;
use quicklendx_contracts::contract::QuickLendXContract;
use quicklendx_contracts::errors::QuickLendXError;
use quicklendx_contracts::investment::InvestmentStatus;
use quicklendx_contracts::invoice::InvoiceStatus;
use quicklendx_contracts::payments::EscrowStatus;
use quicklendx_contracts::types::{Address, FundsMovement, Id, LedgerInfo};

fn address(n: u8) -> Address {
    Address::account([n; 32])
}

fn verified_invoice(client: &mut QuickLendXContract, business: Address, currency: Address, amount: i128) -> Id {
    let due_date = client.ledger.timestamp + 86400;
    let invoice_id = client
        .store_invoice(business, amount, currency, due_date, "Test invoice".to_string())
        .unwrap();
    client
        .update_invoice_status(invoice_id, InvoiceStatus::Verified, address(9))
        .unwrap();
    invoice_id
}

#[test]
fn test_simple_bid_storage() {
    let mut client = QuickLendXContract::new();

    let business = address(1);
    let investor = address(2);
    let currency = address(3);

    // Create and verify invoice
    let invoice_id = verified_invoice(&mut client, business, currency, 1000);

    // Place a single bid to test basic functionality
    let bid_id = client.place_bid(investor, invoice_id, 1001, 1100).unwrap();

    // Verify that the bid can be retrieved
    let bid = client.get_bid(bid_id);
    assert!(bid.is_some(), "Bid should be retrievable");
    let bid = bid.unwrap();
    assert_eq!(bid.bid_amount, 1001);
    assert_eq!(bid.expected_return, 1100);
}

#[test]
fn test_unique_bid_id_generation() {
    let mut client = QuickLendXContract::new();

    let mut ids: Vec<Id> = Vec::new();

    // Generate 100 unique bid IDs
    for _ in 0..100 {
        let id = client.bids.generate_unique_bid_id();

        // Check if this ID already exists in our vector
        for i in 0..ids.len() {
            let existing_id = ids[i];
            assert_ne!(id, existing_id, "Duplicate bid ID generated");
        }

        ids.push(id);
    }

    let business = address(1);
    let investor = address(2);
    let currency = address(3);

    // Create and verify invoice
    let invoice_id = verified_invoice(&mut client, business, currency, 1000);

    // Place first bid
    let bid_id_1 = client.place_bid(investor, invoice_id, 1001, 1100).unwrap();

    // Verify first bid was stored correctly
    let bid_1 = client.get_bid(bid_id_1);
    assert!(bid_1.is_some(), "First bid should be retrievable");

    // Place second bid
    let bid_id_2 = client.place_bid(investor, invoice_id, 1002, 1200).unwrap();

    // Verify that the bid IDs are different
    assert_ne!(bid_id_1, bid_id_2);
}

#[test]
fn test_escrow_creation_on_bid_acceptance() {
    let mut client = QuickLendXContract::new();

    let business = address(1);
    let investor = address(2);
    let currency = address(3);
    let bid_amount = 1000i128;

    // Create and verify invoice
    let invoice_id = verified_invoice(&mut client, business, currency, bid_amount);

    // Place bid
    let bid_id = client.place_bid(investor, invoice_id, bid_amount, 1100).unwrap();

    // Accept bid (should create escrow)
    client.accept_bid(invoice_id, bid_id).unwrap();

    // Verify escrow was created
    let escrow_details = client.get_escrow_details(invoice_id).unwrap();
    assert_eq!(escrow_details.invoice_id, invoice_id);
    assert_eq!(escrow_details.investor, investor);
    assert_eq!(escrow_details.business, business);
    assert_eq!(escrow_details.amount, bid_amount);
    assert_eq!(escrow_details.currency, currency);
    assert_eq!(escrow_details.status, EscrowStatus::Held);

    // Verify escrow status
    let escrow_status = client.get_escrow_status(invoice_id).unwrap();
    assert_eq!(escrow_status, EscrowStatus::Held);
}

#[test]
fn test_escrow_release_on_verification() {
    let mut client = QuickLendXContract::new();

    let business = address(1);
    let investor = address(2);
    let currency = address(3);
    let bid_amount = 1000i128;

    // Create invoice
    let invoice_id = verified_invoice(&mut client, business, currency, bid_amount);

    // Place and accept bid (creates escrow)
    let bid_id = client.place_bid(investor, invoice_id, bid_amount, 1100).unwrap();
    client.accept_bid(invoice_id, bid_id).unwrap();

    // Verify escrow is held
    let escrow_status = client.get_escrow_status(invoice_id).unwrap();
    assert_eq!(escrow_status, EscrowStatus::Held);

    // Release escrow funds
    client.release_escrow_funds(invoice_id, true).unwrap();

    // Verify escrow is released
    let escrow_status = client.get_escrow_status(invoice_id).unwrap();
    assert_eq!(escrow_status, EscrowStatus::Released);
}

#[test]
fn test_escrow_refund() {
    let mut client = QuickLendXContract::new();

    let business = address(1);
    let investor = address(2);
    let currency = address(3);
    let bid_amount = 1000i128;

    // Create invoice
    let invoice_id = verified_invoice(&mut client, business, currency, bid_amount);

    // Place and accept bid (creates escrow)
    let bid_id = client.place_bid(investor, invoice_id, bid_amount, 1100).unwrap();
    client.accept_bid(invoice_id, bid_id).unwrap();

    // Verify escrow is held
    let escrow_status = client.get_escrow_status(invoice_id).unwrap();
    assert_eq!(escrow_status, EscrowStatus::Held);

    // Refund escrow funds
    client.refund_escrow_funds(invoice_id, true).unwrap();

    // Verify escrow is refunded
    let escrow_status = client.get_escrow_status(invoice_id).unwrap();
    assert_eq!(escrow_status, EscrowStatus::Refunded);
}

#[test]
fn test_escrow_status_tracking() {
    let mut client = QuickLendXContract::new();

    let business = address(1);
    let investor = address(2);
    let currency = address(3);
    let bid_amount = 1000i128;

    // Create and verify invoice
    let invoice_id = verified_invoice(&mut client, business, currency, bid_amount);

    // Place and accept bid
    let bid_id = client.place_bid(investor, invoice_id, bid_amount, 1100).unwrap();
    client.accept_bid(invoice_id, bid_id).unwrap();

    // Test escrow details
    let escrow_details = client.get_escrow_details(invoice_id).unwrap();
    assert_eq!(escrow_details.status, EscrowStatus::Held);
    assert_eq!(escrow_details.amount, bid_amount);

    // Test status progression: Held -> Released
    client.release_escrow_funds(invoice_id, true).unwrap();
    let escrow_details = client.get_escrow_details(invoice_id).unwrap();
    assert_eq!(escrow_details.status, EscrowStatus::Released);
}

#[test]
fn test_escrow_error_cases() {
    let mut client = QuickLendXContract::new();

    let fake_invoice_id = [1u8; 32];

    // Test getting escrow for non-existent invoice
    let result = client.get_escrow_status(fake_invoice_id);
    assert!(result.is_err());

    let result = client.get_escrow_details(fake_invoice_id);
    assert!(result.is_err());

    // Test releasing escrow for non-existent invoice
    let result = client.release_escrow_funds(fake_invoice_id, true);
    assert!(result.is_err());

    // Test refunding escrow for non-existent invoice
    let result = client.refund_escrow_funds(fake_invoice_id, true);
    assert!(result.is_err());
}

#[test]
fn test_escrow_double_operation_prevention() {
    let mut client = QuickLendXContract::new();

    let business = address(1);
    let investor = address(2);
    let currency = address(3);
    let bid_amount = 1000i128;

    // Create and verify invoice
    let invoice_id = verified_invoice(&mut client, business, currency, bid_amount);

    // Place and accept bid
    let bid_id = client.place_bid(investor, invoice_id, bid_amount, 1100).unwrap();
    client.accept_bid(invoice_id, bid_id).unwrap();

    // Release escrow funds
    client.release_escrow_funds(invoice_id, true).unwrap();

    // Try to release again (should fail)
    let result = client.release_escrow_funds(invoice_id, true);
    assert!(result.is_err());

    // Try to refund after release (should fail)
    let result = client.refund_escrow_funds(invoice_id, true);
    assert!(result.is_err());
}

#[test]
fn test_unique_investment_id_generation() {
    let mut client = QuickLendXContract::new();

    let mut ids: Vec<Id> = Vec::new();

    // Generate 100 unique investment IDs
    for _ in 0..100 {
        let id = client.investments.generate_unique_investment_id(client.ledger);

        // Check if this ID already exists in our vector
        for i in 0..ids.len() {
            let existing_id = ids[i];
            assert_ne!(id, existing_id, "Duplicate investment ID generated");
        }

        ids.push(id);
    }
}

#[test]
fn bid_identifiers_hold_the_counter_in_their_last_bytes() {
    let mut client = QuickLendXContract::new();
    let first = client.bids.generate_unique_bid_id();
    let mut expected = [0u8; 32];
    expected[31] = 1;
    assert_eq!(first, expected);
    for _ in 0..255 {
        client.bids.generate_unique_bid_id();
    }
    let later = client.bids.generate_unique_bid_id();
    expected[30] = 1;
    expected[31] = 1;
    assert_eq!(later, expected);
}

#[test]
fn escrow_and_investment_identifiers_follow_the_tagged_layout() {
    let mut client = QuickLendXContract::new();
    let ledger = LedgerInfo { timestamp: 0x10, sequence: 0 };
    let escrow = client.escrows.generate_unique_escrow_id(ledger);
    assert_eq!(&escrow[0..2], &[0xE5, 0xC0]);
    assert_eq!(escrow[9], 0x10);
    assert_eq!(escrow[17], 0);
    // (0x10 + 0 + 0xE5C0) mod 256
    assert_eq!(escrow[18], 0xD0);
    assert_eq!(escrow[31], 0xD0);
    let investment = client.investments.generate_unique_investment_id(ledger);
    assert_eq!(&investment[0..2], &[0x1A, 0x4E]);
    assert_eq!(investment[25], 0x5E);
    let mut escrows = Vec::new();
    for _ in 0..100 {
        let id = client.escrows.generate_unique_escrow_id(ledger);
        assert!(!escrows.contains(&id));
        escrows.push(id);
    }
}

#[test]
fn place_bid_refusals() {
    let mut client = QuickLendXContract::new();
    let business = address(1);
    let investor = address(2);
    let currency = address(3);

    assert_eq!(
        client.place_bid(investor, [5u8; 32], 10, 11),
        Err(QuickLendXError::InvoiceNotFound)
    );
    let pending = client
        .store_invoice(business, 1000, currency, 86400, "Pending".to_string())
        .unwrap();
    assert_eq!(
        client.place_bid(investor, pending, 10, 11),
        Err(QuickLendXError::InvalidStatus)
    );
    let invoice_id = verified_invoice(&mut client, business, currency, 1000);
    assert_eq!(
        client.place_bid(investor, invoice_id, 0, 11),
        Err(QuickLendXError::InvalidAmount)
    );
    assert_eq!(
        client.place_bid(investor, invoice_id, -1, 11),
        Err(QuickLendXError::InvalidAmount)
    );
    assert!(client.get_bids_for_invoice(invoice_id).is_empty());

    client.set_ledger(LedgerInfo { timestamp: 77, sequence: 3 });
    let bid_id = client.place_bid(investor, invoice_id, 1, 11).unwrap();
    let bid = client.get_bid(bid_id).unwrap();
    assert_eq!(bid.status, BidStatus::Placed);
    assert_eq!(bid.invoice_id, invoice_id);
    assert_eq!(bid.investor, investor);
    assert_eq!(bid.timestamp, 77);
    assert_eq!(client.get_bids_for_invoice(invoice_id), vec![bid_id]);
}

#[test]
fn accept_bid_does_everything_or_nothing() {
    let mut client = QuickLendXContract::new();
    let business = address(1);
    let investor = address(2);
    let other = address(4);
    let currency = address(3);
    let invoice_id = verified_invoice(&mut client, business, currency, 1000);
    let bid_id = client.place_bid(investor, invoice_id, 900, 1000).unwrap();
    let second_bid = client.place_bid(other, invoice_id, 950, 1000).unwrap();
    let withdrawn = client.place_bid(other, invoice_id, 800, 1000).unwrap();
    client.withdraw_bid(withdrawn).unwrap();

    assert_eq!(
        client.accept_bid([8u8; 32], bid_id),
        Err(QuickLendXError::InvoiceNotFound)
    );
    assert_eq!(
        client.accept_bid(invoice_id, [8u8; 32]),
        Err(QuickLendXError::StorageKeyNotFound)
    );
    assert_eq!(
        client.accept_bid(invoice_id, withdrawn),
        Err(QuickLendXError::InvalidStatus)
    );
    assert!(client.get_escrow_details(invoice_id).is_err());

    client.set_ledger(LedgerInfo { timestamp: 40, sequence: 2 });
    client.accept_bid(invoice_id, bid_id).unwrap();

    let invoice = client.get_invoice(invoice_id).unwrap();
    assert_eq!(invoice.status, InvoiceStatus::Funded);
    assert_eq!(invoice.funded_amount, 900);
    assert_eq!(invoice.funded_at, Some(40));
    assert_eq!(invoice.investor, Some(investor));
    assert_eq!(client.get_bid(bid_id).unwrap().status, BidStatus::Accepted);
    let investment = client.investments.get_investment_by_invoice(&invoice_id).unwrap();
    assert_eq!(investment.amount, 900);
    assert_eq!(investment.investor, investor);
    assert_eq!(investment.funded_at, 40);
    assert_eq!(investment.status, InvestmentStatus::Active);
    assert_eq!(
        client.investments.get_investment(&investment.investment_id),
        Some(investment)
    );
    let escrow = client.get_escrow_details(invoice_id).unwrap();
    assert_eq!(escrow.created_at, 40);
    assert_eq!(client.escrows.get_escrow(&escrow.escrow_id), Some(escrow));
    assert_eq!(client.get_invoices_by_status(InvoiceStatus::Funded), vec![invoice_id]);
    assert!(client.get_invoices_by_status(InvoiceStatus::Verified).is_empty());

    // No second funding of the same invoice, and no second acceptance.
    assert_eq!(
        client.accept_bid(invoice_id, second_bid),
        Err(QuickLendXError::InvalidStatus)
    );
    assert_eq!(
        client.accept_bid(invoice_id, bid_id),
        Err(QuickLendXError::InvalidStatus)
    );
    assert_eq!(client.get_bid(second_bid).unwrap().status, BidStatus::Placed);
}

#[test]
fn withdraw_bid_only_while_placed() {
    let mut client = QuickLendXContract::new();
    let invoice_id = verified_invoice(&mut client, address(1), address(3), 1000);
    let bid_id = client.place_bid(address(2), invoice_id, 900, 1000).unwrap();

    assert_eq!(
        client.withdraw_bid([3u8; 32]),
        Err(QuickLendXError::StorageKeyNotFound)
    );
    client.withdraw_bid(bid_id).unwrap();
    assert_eq!(client.get_bid(bid_id).unwrap().status, BidStatus::Withdrawn);
    assert_eq!(
        client.withdraw_bid(bid_id),
        Err(QuickLendXError::OperationNotAllowed)
    );
    // The invoice is as it was.
    assert_eq!(
        client.get_invoice(invoice_id).unwrap().status,
        InvoiceStatus::Verified
    );

    let accepted = client.place_bid(address(2), invoice_id, 900, 1000).unwrap();
    client.accept_bid(invoice_id, accepted).unwrap();
    assert_eq!(
        client.withdraw_bid(accepted),
        Err(QuickLendXError::OperationNotAllowed)
    );
}

#[test]
fn escrow_movements_and_failed_transfers() {
    let mut client = QuickLendXContract::new();
    let business = address(1);
    let investor = address(2);
    let invoice_id = verified_invoice(&mut client, business, address(3), 1000);
    assert_eq!(
        client.escrow_release_movement(invoice_id),
        Err(QuickLendXError::StorageKeyNotFound)
    );
    let bid_id = client.place_bid(investor, invoice_id, 900, 1000).unwrap();
    client.accept_bid(invoice_id, bid_id).unwrap();

    assert_eq!(
        client.escrow_release_movement(invoice_id),
        Ok(FundsMovement { from: investor, to: business, amount: 900 })
    );
    assert_eq!(
        client.escrow_refund_movement(invoice_id),
        Ok(FundsMovement { from: business, to: investor, amount: 900 })
    );

    // Funds that did not move leave the escrow held.
    assert_eq!(
        client.release_escrow_funds(invoice_id, false),
        Err(QuickLendXError::InsufficientFunds)
    );
    assert_eq!(
        client.refund_escrow_funds(invoice_id, false),
        Err(QuickLendXError::InsufficientFunds)
    );
    assert_eq!(client.get_escrow_status(invoice_id), Ok(EscrowStatus::Held));

    client.refund_escrow_funds(invoice_id, true).unwrap();
    assert_eq!(
        client.release_escrow_funds(invoice_id, true),
        Err(QuickLendXError::InvalidStatus)
    );
    assert_eq!(
        client.refund_escrow_funds(invoice_id, true),
        Err(QuickLendXError::InvalidStatus)
    );
    // A closed escrow is refused for its status even where the funds did not move.
    assert_eq!(
        client.refund_escrow_funds(invoice_id, false),
        Err(QuickLendXError::InvalidStatus)
    );
    assert_eq!(
        client.escrow_refund_movement(invoice_id),
        Err(QuickLendXError::InvalidStatus)
    );
    assert_eq!(client.get_escrow_status(invoice_id), Ok(EscrowStatus::Refunded));
}

#[test]
fn an_escrow_cannot_move_to_another_invoice() {
    let mut client = QuickLendXContract::new();
    let first = verified_invoice(&mut client, address(1), address(3), 1000);
    let second = verified_invoice(&mut client, address(1), address(3), 2000);
    let bid_1 = client.place_bid(address(2), first, 900, 1000).unwrap();
    let bid_2 = client.place_bid(address(2), second, 1900, 2000).unwrap();
    client.accept_bid(first, bid_1).unwrap();
    client.accept_bid(second, bid_2).unwrap();

    let mut escrow = client.get_escrow_details(first).unwrap();
    escrow.invoice_id = second;
    client.escrows.update_escrow(&escrow);
    assert_eq!(client.get_escrow_details(first).unwrap().amount, 900);
    assert_eq!(client.get_escrow_details(second).unwrap().amount, 1900);

    let mut escrow = client.get_escrow_details(first).unwrap();
    escrow.amount = 901;
    client.escrows.update_escrow(&escrow);
    assert_eq!(client.get_escrow_details(first).unwrap().amount, 901);
}

#[test]
fn a_bid_stays_on_its_invoice() {
    let mut client = QuickLendXContract::new();
    let first = verified_invoice(&mut client, address(1), address(3), 1000);
    let second = verified_invoice(&mut client, address(1), address(3), 2000);
    let a = client.place_bid(address(2), first, 10, 11).unwrap();
    let b = client.place_bid(address(4), second, 20, 21).unwrap();
    let c = client.place_bid(address(5), first, 30, 31).unwrap();
    assert_eq!(client.get_bids_for_invoice(first), vec![a, c]);
    assert_eq!(client.get_bids_for_invoice(second), vec![b]);
    assert!(client.get_bids_for_invoice([0u8; 32]).is_empty());

    let mut bid = client.get_bid(a).unwrap();
    bid.invoice_id = second;
    bid.bid_amount = 99;
    client.bids.update_bid(&bid);
    assert_eq!(client.get_bid(a).unwrap().bid_amount, 10);
    bid.invoice_id = first;
    client.bids.update_bid(&bid);
    assert_eq!(client.get_bid(a).unwrap().bid_amount, 99);
    assert_eq!(client.get_bids_for_invoice(first), vec![a, c]);
}
