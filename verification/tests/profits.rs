use quicklendx_contracts::contract::QuickLendXContract;
use quicklendx_contracts::errors::QuickLendXError;
use quicklendx_contracts::investment::InvestmentStatus;
use quicklendx_contracts::invoice::InvoiceStatus;
use quicklendx_contracts::profits::{calculate_profit, checked_profit};
use quicklendx_contracts::types::{Address, FundsMovement, Id, LedgerInfo};

fn address(n: u8) -> Address {
    Address::account([n; 32])
}

fn funded_invoice(client: &mut QuickLendXContract, business: Address, investor: Address, amount: i128) -> Id {
    let id = client
        .store_invoice(business, amount, address(50), u64::MAX, "Goods".to_string())
        .unwrap();
    client.verify_invoice(id, address(9)).unwrap();
    let bid = client.place_bid(investor, id, amount, amount + 100).unwrap();
    client.accept_bid(id, bid).unwrap();
    id
}

#[test]
fn test_calculate_profit_exact_values() {
    // investment 1000, payment 1200, fee 10%: profit 200, fee 20, return 1180
    let (investor_return, platform_fee) = calculate_profit(1000, 1200, 1000);
    assert_eq!(platform_fee, 20);
    assert_eq!(investor_return, 1180);
    assert_eq!(QuickLendXContract::calculate_profit(1000, 1200, 1000), (1180, 20));
}

#[test]
fn the_fee_is_rounded_towards_zero() {
    // 199 * 1000 / 10000 = 19.9
    assert_eq!(calculate_profit(1000, 1199, 1000), (1180, 19));
    // 1 * 9999 / 10000 = 0.9999
    assert_eq!(calculate_profit(0, 1, 9999), (1, 0));
    assert_eq!(calculate_profit(1000, 1000, 1000), (1000, 0));
    assert_eq!(calculate_profit(1000, 1200, 0), (1200, 0));
    assert_eq!(calculate_profit(1000, 1200, 10_000), (1000, 200));
}

#[test]
fn a_loss_gives_a_negative_fee() {
    // profit -200, fee -20: the investor gets more than was paid
    assert_eq!(calculate_profit(1200, 1000, 1000), (1020, -20));
    // -199 * 1000 / 10000 = -19.9, rounded towards zero
    assert_eq!(calculate_profit(1199, 1000, 1000), (1019, -19));
    assert_eq!(calculate_profit(1, 0, 9999), (0, 0));
    // A negative rate turns the sign too.
    assert_eq!(calculate_profit(1000, 1200, -1000), (1220, -20));
}

#[test]
fn checked_profit_is_there_where_the_split_fits() {
    assert_eq!(checked_profit(1000, 1200, 1000), Some((1180, 20)));
    assert_eq!(checked_profit(1200, 1000, 1000), Some((1020, -20)));
    // The profit does not fit.
    assert_eq!(checked_profit(i128::MIN, 1, 1), None);
    assert_eq!(checked_profit(1, i128::MIN, 1), None);
    // The profit times the rate does not fit.
    assert_eq!(checked_profit(0, i128::MAX, 2), None);
    assert_eq!(checked_profit(0, i128::MAX, 1), Some((i128::MAX - i128::MAX / 10_000, i128::MAX / 10_000)));
    // The return does not fit: the payment less a negative fee.
    assert_eq!(checked_profit(0, i128::MAX, -1), None);
    assert_eq!(checked_profit(i128::MAX, i128::MAX, i128::MAX), Some((i128::MAX, 0)));
}

#[test]
fn settlement_pays_the_invoice_and_completes_the_investment() {
    let mut client = QuickLendXContract::new();
    let business = address(1);
    let investor = address(2);
    let platform = address(8);
    let id = funded_invoice(&mut client, business, investor, 1000);

    assert_eq!(
        client.settlement_movements(id, 1200, platform, 1000),
        Ok((
            FundsMovement { from: business, to: investor, amount: 1180 },
            FundsMovement { from: business, to: platform, amount: 20 },
        ))
    );
    client.set_ledger(LedgerInfo { timestamp: 999, sequence: 1 });
    client.settle_invoice(id, 1200, platform, 1000, true, true).unwrap();

    let invoice = client.get_invoice(id).unwrap();
    assert_eq!(invoice.status, InvoiceStatus::Paid);
    assert_eq!(invoice.settled_at, Some(999));
    assert_eq!(
        client.investments.get_investment_by_invoice(&id).unwrap().status,
        InvestmentStatus::Completed
    );
    assert_eq!(client.get_invoices_by_status(InvoiceStatus::Paid), vec![id]);
    assert!(client.get_invoices_by_status(InvoiceStatus::Funded).is_empty());

    // Paid is final.
    assert_eq!(
        client.settle_invoice(id, 1200, platform, 1000, true, true),
        Err(QuickLendXError::InvalidStatus)
    );
    assert_eq!(client.handle_default(id), Err(QuickLendXError::InvalidStatus));
}

#[test]
fn settlement_refusals() {
    let mut client = QuickLendXContract::new();
    let business = address(1);
    let investor = address(2);
    let platform = address(8);

    assert_eq!(
        client.settle_invoice([0u8; 32], 1200, platform, 1000, true, true),
        Err(QuickLendXError::InvoiceNotFound)
    );
    let pending = client
        .store_invoice(business, 1000, address(50), u64::MAX, "Goods".to_string())
        .unwrap();
    assert_eq!(
        client.settle_invoice(pending, 1200, platform, 1000, true, true),
        Err(QuickLendXError::InvalidStatus)
    );

    // Funded by hand, without an investment on record.
    let mut invoice = client.get_invoice(pending).unwrap();
    let ledger = client.ledger;
    invoice.mark_as_funded(&mut client.audit, ledger, investor, 1000, 0);
    client.invoices.update_invoice(&invoice);
    assert_eq!(
        client.settle_invoice(pending, 1200, platform, 1000, true, true),
        Err(QuickLendXError::StorageKeyNotFound)
    );
    invoice.investor = None;
    client.invoices.update_invoice(&invoice);
    assert_eq!(
        client.settle_invoice(pending, 1200, platform, 1000, true, true),
        Err(QuickLendXError::NotInvestor)
    );

    let id = funded_invoice(&mut client, business, investor, 1000);
    assert_eq!(
        client.settle_invoice(id, i128::MAX, platform, 1000, true, true),
        Err(QuickLendXError::InvalidAmount)
    );
    assert_eq!(
        client.settlement_movements(id, i128::MAX, platform, 1000),
        Err(QuickLendXError::InvalidAmount)
    );
    assert_eq!(
        client.settle_invoice(id, 1200, platform, 1000, false, true),
        Err(QuickLendXError::InsufficientFunds)
    );
    assert_eq!(
        client.settle_invoice(id, 1200, platform, 1000, true, false),
        Err(QuickLendXError::InsufficientFunds)
    );
    // Nothing was written.
    assert_eq!(client.get_invoice(id).unwrap().status, InvoiceStatus::Funded);
    assert_eq!(client.get_invoice(id).unwrap().settled_at, None);
    assert_eq!(
        client.investments.get_investment_by_invoice(&id).unwrap().status,
        InvestmentStatus::Active
    );
}

#[test]
fn default_withdraws_the_investment() {
    let mut client = QuickLendXContract::new();
    let business = address(1);
    let investor = address(2);

    assert_eq!(
        client.handle_default([0u8; 32]),
        Err(QuickLendXError::InvoiceNotFound)
    );
    let pending = client
        .store_invoice(business, 1000, address(50), u64::MAX, "Goods".to_string())
        .unwrap();
    assert_eq!(client.handle_default(pending), Err(QuickLendXError::InvalidStatus));
    client.verify_invoice(pending, address(9)).unwrap();
    assert_eq!(client.handle_default(pending), Err(QuickLendXError::InvalidStatus));

    let id = funded_invoice(&mut client, business, investor, 1000);
    client.handle_default(id).unwrap();
    assert_eq!(client.get_invoice(id).unwrap().status, InvoiceStatus::Defaulted);
    assert_eq!(
        client.investments.get_investment_by_invoice(&id).unwrap().status,
        InvestmentStatus::Withdrawn
    );
    assert_eq!(client.get_invoices_by_status(InvoiceStatus::Defaulted), vec![id]);
    // No funds moved: the escrow is as it was.
    assert!(client.get_escrow_status(id).is_ok());
    // Defaulted is final.
    assert_eq!(client.handle_default(id), Err(QuickLendXError::InvalidStatus));
    assert_eq!(
        client.settle_invoice(id, 1200, address(8), 1000, true, true),
        Err(QuickLendXError::InvalidStatus)
    );

    // A funded invoice without an investment on record is left alone.
    let mut invoice = client.get_invoice(pending).unwrap();
    let ledger = client.ledger;
    invoice.mark_as_funded(&mut client.audit, ledger, investor, 1000, 0);
    client.invoices.update_invoice(&invoice);
    assert_eq!(
        client.handle_default(pending),
        Err(QuickLendXError::StorageKeyNotFound)
    );
    assert_eq!(client.get_invoice(pending).unwrap().status, InvoiceStatus::Funded);
}
