use quicklendx_contracts::contract::QuickLendXContract;
use quicklendx_contracts::errors::QuickLendXError;
use quicklendx_contracts::invoice::InvoiceStatus;
use quicklendx_contracts::types::{Address, LedgerInfo};

fn address(n: u8) -> Address {
    Address::account([n; 32])
}

#[test]
fn test_store_invoice() {
    let mut client = QuickLendXContract::new();

    let business = address(1);
    let currency = address(2);
    let amount = 1000;
    let due_date = client.ledger.timestamp + 86400; // 1 day from now
    let description = "Test invoice for services".to_string();

    let invoice_id = client
        .store_invoice(business, amount, currency, due_date, description.clone())
        .unwrap();

    // Verify invoice was stored
    let invoice = client.get_invoice(invoice_id).unwrap();
    assert_eq!(invoice.business, business);
    assert_eq!(invoice.amount, amount);
    assert_eq!(invoice.currency, currency);
    assert_eq!(invoice.due_date, due_date);
    assert_eq!(invoice.description, description);
    assert_eq!(invoice.status, InvoiceStatus::Pending);
    assert_eq!(invoice.funded_amount, 0);
    assert!(invoice.investor.is_none());
}

#[test]
fn test_store_invoice_validation() {
    let mut client = QuickLendXContract::new();

    let business = address(1);
    let currency = address(2);
    let due_date = client.ledger.timestamp + 86400;

    // Test valid invoice creation
    let invoice_id = client
        .store_invoice(business, 1000, currency, due_date, "Valid invoice".to_string())
        .unwrap();

    // Verify invoice was created
    let invoice = client.get_invoice(invoice_id).unwrap();
    assert_eq!(invoice.amount, 1000);
    assert_eq!(invoice.business, business);
}

#[test]
fn test_get_business_invoices() {
    let mut client = QuickLendXContract::new();

    let business1 = address(1);
    let business2 = address(2);
    let currency = address(3);
    let due_date = client.ledger.timestamp + 86400;

    // Create invoices for business1
    let invoice1_id = client
        .store_invoice(business1, 1000, currency, due_date, "Invoice 1".to_string())
        .unwrap();
    let invoice2_id = client
        .store_invoice(business1, 2000, currency, due_date, "Invoice 2".to_string())
        .unwrap();

    // Create invoice for business2
    let invoice3_id = client
        .store_invoice(business2, 3000, currency, due_date, "Invoice 3".to_string())
        .unwrap();

    // Get invoices for business1
    let business1_invoices = client.get_business_invoices(business1);
    assert_eq!(business1_invoices.len(), 2);
    assert!(business1_invoices.contains(&invoice1_id));
    assert!(business1_invoices.contains(&invoice2_id));

    // Get invoices for business2
    let business2_invoices = client.get_business_invoices(business2);
    assert_eq!(business2_invoices.len(), 1);
    assert!(business2_invoices.contains(&invoice3_id));
}

#[test]
fn test_get_invoices_by_status() {
    let mut client = QuickLendXContract::new();

    let business = address(1);
    let currency = address(2);
    let due_date = client.ledger.timestamp + 86400;

    // Create invoices
    let invoice1_id = client
        .store_invoice(business, 1000, currency, due_date, "Invoice 1".to_string())
        .unwrap();
    let invoice2_id = client
        .store_invoice(business, 2000, currency, due_date, "Invoice 2".to_string())
        .unwrap();

    // Get pending invoices
    let pending_invoices = client.get_invoices_by_status(InvoiceStatus::Pending);
    assert_eq!(pending_invoices.len(), 2);
    assert!(pending_invoices.contains(&invoice1_id));
    assert!(pending_invoices.contains(&invoice2_id));

    // Get verified invoices (should be empty initially)
    let verified_invoices = client.get_invoices_by_status(InvoiceStatus::Verified);
    assert_eq!(verified_invoices.len(), 0);
}

#[test]
fn test_update_invoice_status() {
    let mut client = QuickLendXContract::new();

    let business = address(1);
    let currency = address(2);
    let admin = address(9);
    let due_date = client.ledger.timestamp + 86400;

    let invoice_id = client
        .store_invoice(business, 1000, currency, due_date, "Test invoice".to_string())
        .unwrap();

    // Verify invoice starts as pending
    let invoice = client.get_invoice(invoice_id).unwrap();
    assert_eq!(invoice.status, InvoiceStatus::Pending);

    // Update to verified
    client
        .update_invoice_status(invoice_id, InvoiceStatus::Verified, admin)
        .unwrap();

    let invoice = client.get_invoice(invoice_id).unwrap();
    assert_eq!(invoice.status, InvoiceStatus::Verified);

    // Check status lists
    let pending_invoices = client.get_invoices_by_status(InvoiceStatus::Pending);
    assert_eq!(pending_invoices.len(), 0);

    let verified_invoices = client.get_invoices_by_status(InvoiceStatus::Verified);
    assert_eq!(verified_invoices.len(), 1);
    assert!(verified_invoices.contains(&invoice_id));
}

#[test]
fn test_get_available_invoices() {
    let mut client = QuickLendXContract::new();

    let business = address(1);
    let currency = address(2);
    let admin = address(9);
    let due_date = client.ledger.timestamp + 86400;

    // Create invoices
    let invoice1_id = client
        .store_invoice(business, 1000, currency, due_date, "Invoice 1".to_string())
        .unwrap();
    let _invoice2_id = client
        .store_invoice(business, 2000, currency, due_date, "Invoice 2".to_string())
        .unwrap();

    // Initially no available invoices (all pending)
    let available_invoices = client.get_available_invoices();
    assert_eq!(available_invoices.len(), 0);

    // Verify one invoice
    client
        .update_invoice_status(invoice1_id, InvoiceStatus::Verified, admin)
        .unwrap();

    // Now one available invoice
    let available_invoices = client.get_available_invoices();
    assert_eq!(available_invoices.len(), 1);
    assert!(available_invoices.contains(&invoice1_id));
}

#[test]
fn test_invoice_count_functions() {
    let mut client = QuickLendXContract::new();

    let business = address(1);
    let currency = address(2);
    let due_date = client.ledger.timestamp + 86400;

    // Create invoices
    client
        .store_invoice(business, 1000, currency, due_date, "Invoice 1".to_string())
        .unwrap();
    client
        .store_invoice(business, 2000, currency, due_date, "Invoice 2".to_string())
        .unwrap();

    // Test count by status
    let pending_count = client.get_invoice_count_by_status(InvoiceStatus::Pending);
    assert_eq!(pending_count, 2);

    let verified_count = client.get_invoice_count_by_status(InvoiceStatus::Verified);
    assert_eq!(verified_count, 0);

    // Test total count
    let total_count = client.get_total_invoice_count();
    assert_eq!(total_count, 2);
}

#[test]
fn test_invoice_not_found() {
    let client = QuickLendXContract::new();

    let fake_id = [0u8; 32];

    let result = client.get_invoice(fake_id);
    assert!(result.is_err());
}

#[test]
fn test_invoice_lifecycle() {
    let mut client = QuickLendXContract::new();

    let business = address(1);
    let currency = address(2);
    let investor = address(3);
    let admin = address(9);
    let due_date = client.ledger.timestamp + 86400;

    let invoice_id = client
        .store_invoice(business, 1000, currency, due_date, "Test invoice".to_string())
        .unwrap();

    let mut invoice = client.get_invoice(invoice_id).unwrap();
    assert_eq!(invoice.status, InvoiceStatus::Pending);

    client
        .update_invoice_status(invoice_id, InvoiceStatus::Verified, admin)
        .unwrap();
    invoice = client.get_invoice(invoice_id).unwrap();
    assert_eq!(invoice.status, InvoiceStatus::Verified);

    // A verified invoice cannot be paid before it is funded.
    let refused = client.update_invoice_status(invoice_id, InvoiceStatus::Paid, admin);
    assert_eq!(refused, Err(QuickLendXError::InvalidStatus));
    invoice = client.get_invoice(invoice_id).unwrap();
    assert_eq!(invoice.status, InvoiceStatus::Verified);
    assert!(invoice.settled_at.is_none());

    // Funded, it can.
    let bid_id = client.place_bid(investor, invoice_id, 1000, 1100).unwrap();
    client.accept_bid(invoice_id, bid_id).unwrap();
    client
        .update_invoice_status(invoice_id, InvoiceStatus::Paid, admin)
        .unwrap();
    invoice = client.get_invoice(invoice_id).unwrap();
    assert_eq!(invoice.status, InvoiceStatus::Paid);
    assert!(invoice.settled_at.is_some());
}

#[test]
fn store_invoice_refuses_bad_data() {
    let mut client = QuickLendXContract::new();
    client.set_ledger(LedgerInfo { timestamp: 500, sequence: 7 });
    let business = address(1);
    let currency = address(2);

    assert_eq!(
        client.store_invoice(business, 0, currency, 1000, "x".to_string()),
        Err(QuickLendXError::InvalidAmount)
    );
    assert_eq!(
        client.store_invoice(business, -5, currency, 1000, "x".to_string()),
        Err(QuickLendXError::InvalidAmount)
    );
    // A due date that is now is not after now.
    assert_eq!(
        client.store_invoice(business, 10, currency, 500, "x".to_string()),
        Err(QuickLendXError::InvoiceDueDateInvalid)
    );
    assert_eq!(
        client.store_invoice(business, 10, currency, 501, String::new()),
        Err(QuickLendXError::InvalidDescription)
    );
    // The amount is looked at before the due date.
    assert_eq!(
        client.store_invoice(business, 0, currency, 0, String::new()),
        Err(QuickLendXError::InvalidAmount)
    );
    assert_eq!(client.get_total_invoice_count(), 0);
    assert_eq!(client.get_audit_stats().total_entries, 0);

    let id = client
        .store_invoice(business, 10, currency, 501, "x".to_string())
        .unwrap();
    let invoice = client.get_invoice(id).unwrap();
    assert_eq!(invoice.created_at, 500);
    assert_eq!(invoice.total_ratings, 0);
    assert!(invoice.ratings.is_empty());
}

#[test]
fn illegal_status_steps_are_refused_and_change_nothing() {
    let mut client = QuickLendXContract::new();
    let business = address(1);
    let currency = address(2);
    let admin = address(9);
    let id = client
        .store_invoice(business, 1000, currency, 86400, "Invoice".to_string())
        .unwrap();
    let entries = client.get_audit_stats().total_entries;

    for status in [
        InvoiceStatus::Pending,
        InvoiceStatus::Funded,
        InvoiceStatus::Paid,
        InvoiceStatus::Defaulted,
    ] {
        assert_eq!(
            client.update_invoice_status(id, status, admin),
            Err(QuickLendXError::InvalidStatus)
        );
        assert_eq!(client.get_invoice(id).unwrap().status, InvoiceStatus::Pending);
    }
    assert_eq!(client.get_audit_stats().total_entries, entries);
    assert_eq!(client.get_invoices_by_status(InvoiceStatus::Pending), vec![id]);

    client.verify_invoice(id, admin).unwrap();
    // Verified twice is an illegal step too.
    assert_eq!(client.verify_invoice(id, admin), Err(QuickLendXError::InvalidStatus));
    assert_eq!(
        client.update_invoice_status([7u8; 32], InvoiceStatus::Verified, admin),
        Err(QuickLendXError::InvoiceNotFound)
    );
}

#[test]
fn invoice_identifiers_follow_the_tagged_layout() {
    let mut client = QuickLendXContract::new();
    client.set_ledger(LedgerInfo { timestamp: 0x0102030405060708, sequence: 1 });
    let first = client
        .store_invoice(address(1), 1, address(2), u64::MAX, "a".to_string())
        .unwrap();
    let second = client
        .store_invoice(address(1), 1, address(2), u64::MAX, "a".to_string())
        .unwrap();
    assert_eq!(&first[0..2], &[0x1C, 0xE0]);
    assert_eq!(&first[2..10], &[1, 2, 3, 4, 5, 6, 7, 8]);
    assert_eq!(&first[10..18], &[0, 0, 0, 0, 0, 0, 0, 0]);
    assert_eq!(&second[10..18], &[0, 0, 0, 0, 0, 0, 0, 1]);
    // (timestamp + counter + 0x1CE0) mod 256
    assert_eq!(first[18], 0x08u8.wrapping_add(0xE0));
    assert_eq!(second[31], 0x09u8.wrapping_add(0xE0));
    assert_ne!(first, second);
}

#[test]
fn many_invoice_identifiers_are_distinct() {
    let mut client = QuickLendXContract::new();
    let mut ids = Vec::new();
    for i in 0..120u64 {
        client.set_ledger(LedgerInfo { timestamp: i / 7, sequence: 0 });
        let id = client.invoices.generate_unique_invoice_id(client.ledger);
        assert!(!ids.contains(&id));
        ids.push(id);
    }
    assert_eq!(ids.len(), 120);
}

#[test]
fn an_updated_invoice_is_listed_under_its_business_and_status() {
    let mut client = QuickLendXContract::new();
    let first = address(1);
    let second = address(2);
    let currency = address(3);
    let mut ids = Vec::new();
    for (i, owner) in [first, second, first, second].iter().enumerate() {
        ids.push(
            client
                .store_invoice(*owner, 100 + i as i128, currency, 86400, "Invoice".to_string())
                .unwrap(),
        );
    }
    assert_eq!(client.get_business_invoices(first), vec![ids[0], ids[2]]);
    assert_eq!(client.get_invoice_by_business(second), vec![ids[1], ids[3]]);

    // The third invoice changes hands and status: it is then listed with
    // the invoices of its new business where it stands in the table, and at
    // the end of the bucket of its new status.
    let mut invoice = client.invoices.get_invoice(&ids[2]).unwrap();
    invoice.business = second;
    invoice.status = InvoiceStatus::Verified;
    client.invoices.update_invoice(&invoice);
    assert_eq!(client.get_business_invoices(first), vec![ids[0]]);
    assert_eq!(client.get_business_invoices(second), vec![ids[1], ids[2], ids[3]]);
    assert_eq!(
        client.get_invoices_by_status(InvoiceStatus::Pending),
        vec![ids[0], ids[1], ids[3]]
    );
    assert_eq!(client.get_invoices_by_status(InvoiceStatus::Verified), vec![ids[2]]);

    // An invoice that the table does not hold changes nothing.
    invoice.id = [9u8; 32];
    client.invoices.update_invoice(&invoice);
    assert_eq!(client.get_total_invoice_count(), 4);
    assert!(client.get_business_invoices(address(7)).is_empty());
}
