use quicklendx_contracts::contract::QuickLendXContract;
use quicklendx_contracts::errors::QuickLendXError;
use quicklendx_contracts::invoice::InvoiceStatus;
use quicklendx_contracts::types::{Address, Id};

fn address(n: u8) -> Address {
    Address::account([n; 32])
}

fn stored_invoice(client: &mut QuickLendXContract, business: Address, amount: i128, description: &str) -> Id {
    let currency = address(200);
    let due_date = client.ledger.timestamp + 86400;
    client
        .store_invoice(business, amount, currency, due_date, description.to_string())
        .unwrap()
}

fn fund(client: &mut QuickLendXContract, invoice_id: Id, investor: Address, amount: i128) {
    let mut invoice = client.invoices.get_invoice(&invoice_id).unwrap();
    let ledger = client.ledger;
    invoice.mark_as_funded(&mut client.audit, ledger, investor, amount, ledger.timestamp);
    client.invoices.update_invoice(&invoice);
}

#[test]
fn test_add_invoice_rating() {
    let mut client = QuickLendXContract::new();

    let business = address(1);
    let investor = address(2);

    // Create and fund an invoice
    let invoice_id = stored_invoice(&mut client, business, 1000, "Test invoice");

    // Verify the invoice
    client
        .update_invoice_status(invoice_id, InvoiceStatus::Verified, address(9))
        .unwrap();

    // Fund the invoice properly
    fund(&mut client, invoice_id, investor, 1000);

    // Add rating
    {
        let mut invoice = client.invoices.get_invoice(&invoice_id).unwrap();
        invoice
            .add_rating(5, "Great service!".to_string(), investor, client.ledger.timestamp)
            .unwrap();
        client.invoices.update_invoice(&invoice);
    }

    // Verify rating was added
    let invoice = client.get_invoice(invoice_id).unwrap();
    assert_eq!(invoice.average_rating, Some(5));
    assert_eq!(invoice.total_ratings, 1);
    assert!(invoice.has_ratings());
    assert_eq!(invoice.get_highest_rating(), Some(5));
    assert_eq!(invoice.get_lowest_rating(), Some(5));
}

#[test]
fn test_add_invoice_rating_validation() {
    let mut client = QuickLendXContract::new();

    let business = address(1);
    let investor = address(2);

    // Create invoice
    let invoice_id = stored_invoice(&mut client, business, 1000, "Test invoice");

    // Fund the invoice
    fund(&mut client, invoice_id, investor, 1000);

    let investor = address(3);

    // Test invalid rating (0)
    let result = client.add_invoice_rating(invoice_id, 0, "Invalid".to_string(), investor);
    assert!(result.is_err());

    // Test invalid rating (6)
    let result = client.add_invoice_rating(invoice_id, 6, "Invalid".to_string(), investor);
    assert!(result.is_err());

    // Test rating on pending invoice (should fail)
    let pending_invoice_id = stored_invoice(&mut client, business, 2000, "Pending invoice");
    let result = client.add_invoice_rating(pending_invoice_id, 5, "Should fail".to_string(), investor);
    assert!(result.is_err());
}

#[test]
fn test_multiple_ratings() {
    let mut client = QuickLendXContract::new();

    let business = address(1);
    let investor = address(2);

    // Create and fund invoice
    let invoice_id = stored_invoice(&mut client, business, 1000, "Test invoice");
    fund(&mut client, invoice_id, investor, 1000);

    // Add a single rating (since only one investor can rate per invoice)
    {
        let mut invoice = client.invoices.get_invoice(&invoice_id).unwrap();
        invoice
            .add_rating(5, "Excellent!".to_string(), investor, client.ledger.timestamp)
            .unwrap();
        client.invoices.update_invoice(&invoice);
    }

    // Verify rating was added correctly
    let invoice = client.get_invoice(invoice_id).unwrap();
    assert_eq!(invoice.average_rating, Some(5));
    assert_eq!(invoice.total_ratings, 1);
    assert_eq!(invoice.get_highest_rating(), Some(5));
    assert_eq!(invoice.get_lowest_rating(), Some(5));
}

#[test]
fn test_duplicate_rating_prevention() {
    let mut client = QuickLendXContract::new();

    let business = address(1);
    let investor = address(2);

    // Create and fund invoice
    let invoice_id = stored_invoice(&mut client, business, 1000, "Test invoice");
    fund(&mut client, invoice_id, investor, 1000);

    // Add first rating
    {
        let mut invoice = client.invoices.get_invoice(&invoice_id).unwrap();
        invoice
            .add_rating(5, "First rating".to_string(), investor, client.ledger.timestamp)
            .unwrap();
        client.invoices.update_invoice(&invoice);
    }

    // Try to add duplicate rating (should fail)
    {
        let mut invoice = client.invoices.get_invoice(&invoice_id).unwrap();
        let result = invoice.add_rating(4, "Duplicate".to_string(), investor, client.ledger.timestamp);
        assert!(result.is_err());
    }

    // Verify only one rating exists
    let invoice = client.get_invoice(invoice_id).unwrap();
    assert_eq!(invoice.total_ratings, 1);
    assert_eq!(invoice.average_rating, Some(5));
}

#[test]
fn test_rating_queries() {
    let mut client = QuickLendXContract::new();

    let business1 = address(1);

    // Create and fund a single invoice first
    let invoice1_id = stored_invoice(&mut client, business1, 1000, "Invoice 1");

    // Add rating
    {
        let investor1 = address(2);

        // Update invoice to have investor; storing it moves it to the funded status list
        let mut invoice1 = client.invoices.get_invoice(&invoice1_id).unwrap();
        let ledger = client.ledger;
        invoice1.mark_as_funded(&mut client.audit, ledger, investor1, 1000, ledger.timestamp);
        invoice1
            .add_rating(5, "Excellent".to_string(), investor1, ledger.timestamp)
            .unwrap();
        client.invoices.update_invoice(&invoice1);
    }

    // Verify that invoice is properly moved to Funded status
    {
        let pending_invoices = client.invoices.get_invoices_by_status(&InvoiceStatus::Pending);
        assert_eq!(pending_invoices.len(), 0, "No invoices should be in Pending status");

        let funded_invoices = client.invoices.get_invoices_by_status(&InvoiceStatus::Funded);
        assert_eq!(funded_invoices.len(), 1, "Invoice should be in Funded status");
    }

    // Test rating query
    let high_rated_invoices = client.get_invoices_with_rating_above(4);
    assert_eq!(high_rated_invoices.len(), 1); // invoice1 (5)
    assert!(high_rated_invoices.contains(&invoice1_id));

    let rated_count = client.get_invoices_with_ratings_count();
    assert_eq!(rated_count, 1);
}

#[test]
fn test_rating_statistics() {
    let mut client = QuickLendXContract::new();

    let business = address(1);
    let investor = address(2);

    // Create and fund invoice
    let invoice_id = stored_invoice(&mut client, business, 1000, "Test invoice");
    fund(&mut client, invoice_id, investor, 1000);

    // Add a single rating (since only one investor can rate per invoice)
    {
        let mut invoice = client.invoices.get_invoice(&invoice_id).unwrap();
        invoice
            .add_rating(3, "Average".to_string(), investor, client.ledger.timestamp)
            .unwrap();
        client.invoices.update_invoice(&invoice);
    }

    // Get rating statistics
    let (avg_rating, total_ratings, highest, lowest) = client.get_invoice_rating_stats(invoice_id).unwrap();

    assert_eq!(avg_rating, Some(3)); // Single rating of 3
    assert_eq!(total_ratings, 1);
    assert_eq!(highest, Some(3));
    assert_eq!(lowest, Some(3));
}

#[test]
fn test_rating_on_unfunded_invoice() {
    let mut client = QuickLendXContract::new();

    let business = address(1);

    // Create invoice but don't fund it
    let invoice_id = stored_invoice(&mut client, business, 1000, "Unfunded invoice");

    // Try to rate unfunded invoice (should fail)
    assert_eq!(
        client.add_invoice_rating(invoice_id, 5, "No".to_string(), address(2)),
        Err(QuickLendXError::NotFunded)
    );

    // Verify no rating was added
    let invoice = client.get_invoice(invoice_id).unwrap();
    assert_eq!(invoice.total_ratings, 0);
    assert!(!invoice.has_ratings());
    assert!(invoice.average_rating.is_none());
}

#[test]
fn rating_refusals_come_in_order() {
    let mut client = QuickLendXContract::new();
    let investor = address(2);
    let stranger = address(3);
    let invoice_id = stored_invoice(&mut client, address(1), 1000, "Invoice");

    assert_eq!(
        client.add_invoice_rating([9u8; 32], 5, String::new(), investor),
        Err(QuickLendXError::InvoiceNotFound)
    );
    // Not funded comes before everything else.
    assert_eq!(
        client.add_invoice_rating(invoice_id, 0, String::new(), stranger),
        Err(QuickLendXError::NotFunded)
    );
    fund(&mut client, invoice_id, investor, 1000);
    // The rater is looked at before the value.
    assert_eq!(
        client.add_invoice_rating(invoice_id, 0, String::new(), stranger),
        Err(QuickLendXError::NotRater)
    );
    assert_eq!(
        client.add_invoice_rating(invoice_id, 0, String::new(), investor),
        Err(QuickLendXError::InvalidRating)
    );
    assert_eq!(
        client.add_invoice_rating(invoice_id, 6, String::new(), investor),
        Err(QuickLendXError::InvalidRating)
    );
    client
        .add_invoice_rating(invoice_id, 1, "poor".to_string(), investor)
        .unwrap();
    assert_eq!(
        client.add_invoice_rating(invoice_id, 5, String::new(), investor),
        Err(QuickLendXError::AlreadyRated)
    );
    let invoice = client.get_invoice(invoice_id).unwrap();
    assert_eq!(invoice.ratings.len(), 1);
    assert_eq!(invoice.ratings[0].rating, 1);
    assert_eq!(invoice.ratings[0].feedback, "poor");
    assert_eq!(invoice.ratings[0].rated_by, investor);
    assert_eq!(invoice.average_rating, Some(1));
}

#[test]
fn the_average_is_the_floor_of_the_mean() {
    let mut client = QuickLendXContract::new();
    let first = address(2);
    let second = address(3);
    let invoice_id = stored_invoice(&mut client, address(1), 1000, "Invoice");
    fund(&mut client, invoice_id, first, 1000);

    let mut invoice = client.invoices.get_invoice(&invoice_id).unwrap();
    invoice.add_rating(4, "a".to_string(), first, 1).unwrap();
    // Funded anew by another investor, the invoice takes that investor's rating.
    let ledger = client.ledger;
    invoice.mark_as_funded(&mut client.audit, ledger, second, 1000, 2);
    invoice.add_rating(5, "b".to_string(), second, 2).unwrap();
    // 4 and 5 average to 4, not to 4.5 nor to 5.
    assert_eq!(invoice.average_rating, Some(4));
    assert_eq!(invoice.total_ratings, 2);
    assert_eq!(invoice.get_highest_rating(), Some(5));
    assert_eq!(invoice.get_lowest_rating(), Some(4));
    // The first rater is no longer the investor.
    assert_eq!(
        invoice.add_rating(5, "c".to_string(), first, 3),
        Err(QuickLendXError::NotRater)
    );
    assert_eq!(
        invoice.add_rating(5, "c".to_string(), second, 3),
        Err(QuickLendXError::AlreadyRated)
    );
}

#[test]
fn rating_queries_look_at_funded_and_paid_invoices() {
    let mut client = QuickLendXContract::new();
    let business = address(1);
    let other_business = address(4);
    let investor = address(2);
    let admin = address(9);
    let mut ids = Vec::new();
    for (i, stars) in [5u32, 2, 4].iter().enumerate() {
        let owner = if i == 1 { other_business } else { business };
        let id = stored_invoice(&mut client, owner, 1000, "Invoice");
        client.verify_invoice(id, admin).unwrap();
        let bid = client.place_bid(investor, id, 1000, 1100).unwrap();
        client.accept_bid(id, bid).unwrap();
        client
            .add_invoice_rating(id, *stars, "f".to_string(), investor)
            .unwrap();
        ids.push(id);
    }
    let unrated = stored_invoice(&mut client, business, 1000, "Invoice");
    // The first becomes paid: it is then listed after the funded ones.
    client
        .update_invoice_status(ids[0], InvoiceStatus::Paid, admin)
        .unwrap();

    assert_eq!(client.get_invoices_with_rating_above(4), vec![ids[2], ids[0]]);
    assert_eq!(client.get_invoices_with_rating_above(5), vec![ids[0]]);
    assert_eq!(client.get_invoices_with_rating_above(0), vec![ids[1], ids[2], ids[0]]);
    assert!(client.get_invoices_with_rating_above(6).is_empty());
    assert_eq!(client.get_business_rated_invoices(business, 4), vec![ids[0], ids[2]]);
    assert_eq!(client.get_business_rated_invoices(other_business, 2), vec![ids[1]]);
    assert!(client.get_business_rated_invoices(other_business, 3).is_empty());
    assert_eq!(client.get_invoices_with_ratings_count(), 3);
    assert_eq!(
        client.get_invoice_rating_stats(unrated),
        Ok((None, 0, None, None))
    );
    assert_eq!(
        client.get_invoice_rating_stats([0u8; 32]),
        Err(QuickLendXError::InvoiceNotFound)
    );
}

#[test]
fn record_level_helpers() {
    let mut client = QuickLendXContract::new();
    let id = stored_invoice(&mut client, address(1), 1000, "Invoice");
    let invoice = client.get_invoice(id).unwrap();
    assert!(!invoice.is_available_for_funding());
    assert!(!invoice.is_overdue(86400));
    assert!(invoice.is_overdue(86401));
    client.verify_invoice(id, address(9)).unwrap();
    assert!(client.get_invoice(id).unwrap().is_available_for_funding());
    assert_eq!(InvoiceStatus::Defaulted.name(), "Defaulted");
    assert_eq!(InvoiceStatus::Pending.name(), "Pending");
}
