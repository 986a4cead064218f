use quicklendx_contracts::audit::{
    log_invoice_operation, log_payment_processed, AuditLogEntry, AuditOperation, AuditQueryFilter,
    AuditStorage,
};
use quicklendx_contracts::contract::QuickLendXContract;
use quicklendx_contracts::invoice::InvoiceStatus;
use quicklendx_contracts::types::{Address, Id, LedgerInfo};

fn address(n: u8) -> Address {
    Address::account([n; 32])
}

fn no_filter() -> AuditQueryFilter {
    AuditQueryFilter {
        invoice_id: None,
        operation: None,
        actor: None,
        start_timestamp: None,
        end_timestamp: None,
    }
}

fn funded_invoice(client: &mut QuickLendXContract, business: Address, investor: Address, admin: Address) -> Id {
    let id = client
        .store_invoice(business, 1000, address(50), u64::MAX, "Goods".to_string())
        .unwrap();
    client.verify_invoice(id, admin).unwrap();
    let bid = client.place_bid(investor, id, 900, 1000).unwrap();
    client.accept_bid(id, bid).unwrap();
    id
}

#[test]
fn every_operation_on_an_invoice_is_recorded() {
    let mut client = QuickLendXContract::new();
    let business = address(1);
    let investor = address(2);
    let admin = address(9);
    client.set_ledger(LedgerInfo { timestamp: 100, sequence: 5 });

    let id = client
        .store_invoice(business, 1000, address(50), 200, "Goods".to_string())
        .unwrap();
    assert_eq!(client.get_invoice_audit_trail(id).len(), 1);
    client.verify_invoice(id, admin).unwrap();
    assert_eq!(client.get_invoice_audit_trail(id).len(), 2);
    let bid = client.place_bid(investor, id, 900, 1000).unwrap();
    assert_eq!(client.get_invoice_audit_trail(id).len(), 3);
    // Funding is recorded twice: the change of status, and the funding.
    client.accept_bid(id, bid).unwrap();
    assert_eq!(client.get_invoice_audit_trail(id).len(), 5);
    client.release_escrow_funds(id, true).unwrap();
    assert_eq!(client.get_invoice_audit_trail(id).len(), 6);
    client.add_invoice_rating(id, 5, "Fine".to_string(), investor).unwrap();
    assert_eq!(client.get_invoice_audit_trail(id).len(), 7);
    client.settle_invoice(id, 1100, address(8), 500, true, true).unwrap();
    let trail = client.get_invoice_audit_trail(id);
    assert_eq!(trail.len(), 8);

    // Every identifier of the trail resolves, and the entries are in order.
    let entries: Vec<AuditLogEntry> = trail.iter().map(|id| client.get_audit_entry(*id).unwrap()).collect();
    let operations: Vec<AuditOperation> = entries.iter().map(|entry| entry.operation).collect();
    assert_eq!(
        operations,
        vec![
            AuditOperation::InvoiceCreated,
            AuditOperation::InvoiceStatusChanged,
            AuditOperation::BidPlaced,
            AuditOperation::InvoiceStatusChanged,
            AuditOperation::InvoiceFunded,
            AuditOperation::EscrowReleased,
            AuditOperation::InvoiceRated,
            AuditOperation::InvoiceStatusChanged,
        ]
    );
    for (entry, audit_id) in entries.iter().zip(trail.iter()) {
        assert_eq!(entry.audit_id, *audit_id);
        assert_eq!(entry.invoice_id, id);
        assert_eq!(entry.timestamp, 100);
        assert_eq!(entry.block_height, 5);
        assert_eq!(entry.transaction_hash, None);
    }

    let created = &entries[0];
    assert_eq!(created.actor, business);
    assert_eq!(created.old_value, None);
    assert_eq!(created.new_value.as_deref(), Some("Amount: 1000, Due: 200"));
    assert_eq!(created.amount, Some(1000));
    assert_eq!(created.additional_data.as_deref(), Some("Goods"));

    let verified = &entries[1];
    assert_eq!(verified.actor, admin);
    assert_eq!(verified.old_value.as_deref(), Some("Pending"));
    assert_eq!(verified.new_value.as_deref(), Some("Verified"));
    assert_eq!(verified.amount, None);

    assert_eq!(entries[2].actor, investor);
    assert_eq!(entries[2].amount, Some(900));

    assert_eq!(entries[3].old_value.as_deref(), Some("Verified"));
    assert_eq!(entries[3].new_value.as_deref(), Some("Funded"));
    assert_eq!(entries[3].actor, investor);
    assert_eq!(entries[4].new_value.as_deref(), Some("Funded with amount: 900"));
    assert_eq!(entries[4].amount, Some(900));

    assert_eq!(entries[5].actor, business);
    assert_eq!(entries[5].amount, Some(900));
    assert_eq!(entries[6].actor, investor);
    assert_eq!(entries[6].new_value.as_deref(), Some("5"));
    assert_eq!(entries[6].additional_data.as_deref(), Some("Fine"));
    assert_eq!(entries[7].old_value.as_deref(), Some("Funded"));
    assert_eq!(entries[7].new_value.as_deref(), Some("Paid"));
    assert_eq!(entries[7].actor, business);

    assert_eq!(client.validate_invoice_audit_integrity(id), Ok(true));
    assert!(client.get_audit_entry([0u8; 32]).is_err());
}

#[test]
fn refused_operations_record_nothing() {
    let mut client = QuickLendXContract::new();
    let id = funded_invoice(&mut client, address(1), address(2), address(9));
    let entries = client.get_audit_stats().total_entries;
    assert_eq!(entries, 5);

    assert!(client.verify_invoice(id, address(9)).is_err());
    assert!(client.place_bid(address(2), id, 10, 10).is_err());
    assert!(client.accept_bid(id, [0u8; 32]).is_err());
    assert!(client.withdraw_bid([0u8; 32]).is_err());
    assert!(client.release_escrow_funds(id, false).is_err());
    assert!(client.refund_escrow_funds([0u8; 32], true).is_err());
    assert!(client.add_invoice_rating(id, 9, String::new(), address(2)).is_err());
    assert!(client.settle_invoice(id, 1000, address(8), 100, true, false).is_err());
    assert!(client.handle_default([0u8; 32]).is_err());
    assert_eq!(client.get_audit_stats().total_entries, entries);
}

#[test]
fn audit_identifiers_follow_their_layout_and_differ() {
    let mut audit = AuditStorage::new();
    let ledger = LedgerInfo { timestamp: 0x0102, sequence: 0x0A0B0C0D };
    let first = audit.generate_audit_id(ledger);
    assert_eq!(&first[0..2], &[0xAD, 0x1F]);
    assert_eq!(&first[2..10], &[0, 0, 0, 0, 0, 0, 1, 2]);
    assert_eq!(&first[10..14], &[0x0A, 0x0B, 0x0C, 0x0D]);
    assert_eq!(&first[14..22], &[0; 8]);
    // (0x0102 + 0x0A0B0C0D + 0 + 0xAD1F) mod 256
    assert_eq!(first[22], 0x02u8.wrapping_add(0x0D).wrapping_add(0x1F));
    assert_eq!(first[31], first[22]);
    let mut ids = vec![first];
    for _ in 0..150 {
        let id = audit.generate_audit_id(ledger);
        assert!(!ids.contains(&id));
        ids.push(id);
    }
    assert_eq!(ids[150][21], 150);
}

#[test]
fn queries_filter_and_stop_at_the_limit() {
    let mut client = QuickLendXContract::new();
    let business = address(1);
    let other_business = address(3);
    let investor = address(2);
    let admin = address(9);
    client.set_ledger(LedgerInfo { timestamp: 10, sequence: 1 });
    let first = funded_invoice(&mut client, business, investor, admin);
    client.set_ledger(LedgerInfo { timestamp: 20, sequence: 2 });
    let second = funded_invoice(&mut client, other_business, investor, admin);
    client.set_ledger(LedgerInfo { timestamp: 30, sequence: 3 });
    client.handle_default(second).unwrap();

    // Everything, oldest first.
    let all = client.query_audit_logs(no_filter(), 100);
    assert_eq!(all.len(), 11);
    assert_eq!(all[0].invoice_id, first);
    assert_eq!(all[10].timestamp, 30);
    assert_eq!(client.query_audit_logs(no_filter(), 3), all[0..3].to_vec());
    assert!(client.query_audit_logs(no_filter(), 0).is_empty());

    let by_invoice = AuditQueryFilter { invoice_id: Some(second), ..no_filter() };
    let found = client.query_audit_logs(by_invoice, 100);
    assert_eq!(found.len(), 6);
    assert!(found.iter().all(|entry| entry.invoice_id == second));

    let by_operation = AuditQueryFilter {
        operation: Some(AuditOperation::InvoiceStatusChanged),
        ..no_filter()
    };
    let found = client.query_audit_logs(by_operation, 100);
    assert_eq!(found.len(), 5);
    assert_eq!(client.query_audit_logs(by_operation, 2), found[0..2].to_vec());

    let by_actor = AuditQueryFilter { actor: Some(investor), ..no_filter() };
    assert_eq!(client.query_audit_logs(by_actor, 100).len(), 6);

    // The invoice narrows the search; the other fields still count.
    let narrow = AuditQueryFilter {
        invoice_id: Some(second),
        operation: Some(AuditOperation::InvoiceStatusChanged),
        actor: Some(other_business),
        start_timestamp: None,
        end_timestamp: None,
    };
    let found = client.query_audit_logs(narrow, 100);
    assert_eq!(found.len(), 1);
    assert_eq!(found[0].new_value.as_deref(), Some("Defaulted"));

    // Both ends of the time range are admitted.
    let timed = AuditQueryFilter {
        start_timestamp: Some(20),
        end_timestamp: Some(20),
        ..no_filter()
    };
    assert_eq!(client.query_audit_logs(timed, 100).len(), 5);
    let late = AuditQueryFilter { start_timestamp: Some(21), ..no_filter() };
    assert_eq!(client.query_audit_logs(late, 100).len(), 1);
    let early = AuditQueryFilter { end_timestamp: Some(9), ..no_filter() };
    assert!(client.query_audit_logs(early, 100).is_empty());
    let nobody = AuditQueryFilter { actor: Some(address(77)), ..no_filter() };
    assert!(client.query_audit_logs(nobody, 100).is_empty());

    assert_eq!(
        client.audit.get_audit_entries_by_operation(&AuditOperation::InvoiceFunded).len(),
        2
    );
    assert_eq!(client.audit.get_audit_entries_by_actor(&admin).len(), 2);
    assert_eq!(client.audit.get_audit_entries_by_day(0).len(), 11);
    assert!(client.audit.get_audit_entries_by_day(1).is_empty());
    assert_eq!(client.audit.get_all_audit_entries().len(), 11);
}

#[test]
fn statistics_on_the_log() {
    let mut client = QuickLendXContract::new();
    let stats = client.get_audit_stats();
    assert_eq!(stats.total_entries, 0);
    assert!(stats.operations_count.is_empty());
    assert_eq!(stats.unique_actors, 0);
    assert_eq!(stats.date_range, (u64::MAX, 0));

    client.set_ledger(LedgerInfo { timestamp: 86_400 * 3 + 5, sequence: 1 });
    let id = funded_invoice(&mut client, address(1), address(2), address(9));
    client.set_ledger(LedgerInfo { timestamp: 86_400 * 4, sequence: 2 });
    client.handle_default(id).unwrap();

    let stats = client.get_audit_stats();
    assert_eq!(stats.total_entries, 6);
    assert_eq!(
        stats.operations_count,
        vec![
            (AuditOperation::InvoiceCreated, 1),
            (AuditOperation::InvoiceStatusChanged, 3),
            (AuditOperation::BidPlaced, 1),
            (AuditOperation::InvoiceFunded, 1),
        ]
    );
    // The business, the admin and the investor.
    assert_eq!(stats.unique_actors, 3);
    assert_eq!(stats.date_range, (86_400 * 3 + 5, 86_400 * 4));
    assert_eq!(client.audit.get_audit_entries_by_day(3).len(), 5);
    assert_eq!(client.audit.get_audit_entries_by_day(4).len(), 1);
}

#[test]
fn entries_are_checked_against_the_ledger_and_their_operation() {
    let mut audit = AuditStorage::new();
    let now = LedgerInfo { timestamp: 100, sequence: 10 };
    let invoice: Id = [4u8; 32];
    let actor = address(1);

    let plain = AuditLogEntry::new(&mut audit, now, invoice, AuditOperation::BidPlaced, actor, None, None, None, None);
    assert_eq!(plain.validate_integrity(now), Ok(true));
    // Written later than now, or at a greater height.
    assert_eq!(
        plain.validate_integrity(LedgerInfo { timestamp: 99, sequence: 10 }),
        Ok(false)
    );
    assert_eq!(
        plain.validate_integrity(LedgerInfo { timestamp: 100, sequence: 9 }),
        Ok(false)
    );
    assert_eq!(
        plain.validate_integrity(LedgerInfo { timestamp: 101, sequence: 11 }),
        Ok(true)
    );

    let funded = |amount: Option<i128>, audit: &mut AuditStorage| {
        AuditLogEntry::new(audit, now, invoice, AuditOperation::InvoiceFunded, actor, None, None, amount, None)
    };
    assert_eq!(funded(None, &mut audit).validate_integrity(now), Ok(false));
    assert_eq!(funded(Some(0), &mut audit).validate_integrity(now), Ok(false));
    assert_eq!(funded(Some(-1), &mut audit).validate_integrity(now), Ok(false));
    assert_eq!(funded(Some(1), &mut audit).validate_integrity(now), Ok(true));

    let paid = AuditLogEntry::new(
        &mut audit,
        now,
        invoice,
        AuditOperation::PaymentProcessed,
        actor,
        None,
        None,
        None,
        None,
    );
    assert_eq!(paid.validate_integrity(now), Ok(false));

    let changed = |old: Option<&str>, new: Option<&str>, audit: &mut AuditStorage| {
        AuditLogEntry::new(
            audit,
            now,
            invoice,
            AuditOperation::InvoiceStatusChanged,
            actor,
            old.map(|text| text.to_string()),
            new.map(|text| text.to_string()),
            None,
            None,
        )
    };
    assert_eq!(changed(None, Some("Paid"), &mut audit).validate_integrity(now), Ok(false));
    assert_eq!(changed(Some("Funded"), None, &mut audit).validate_integrity(now), Ok(false));
    assert_eq!(
        changed(Some("Funded"), Some("Paid"), &mut audit).validate_integrity(now),
        Ok(true)
    );
}

#[test]
fn a_trail_with_a_bad_entry_is_not_valid() {
    let mut audit = AuditStorage::new();
    let now = LedgerInfo { timestamp: 100, sequence: 10 };
    let good: Id = [4u8; 32];
    let bad: Id = [5u8; 32];
    let actor = address(1);

    log_invoice_operation(&mut audit, now, good, AuditOperation::InvoiceFunded, actor, None, None, Some(5), None);
    log_invoice_operation(&mut audit, now, bad, AuditOperation::InvoiceFunded, actor, None, None, Some(5), None);
    log_invoice_operation(&mut audit, now, bad, AuditOperation::InvoiceFunded, actor, None, None, Some(0), None);
    log_payment_processed(&mut audit, now, good, actor, 250, "wire".to_string());

    assert_eq!(audit.validate_invoice_audit_integrity(now, &good), Ok(true));
    assert_eq!(audit.validate_invoice_audit_integrity(now, &bad), Ok(false));
    // A trail without entries has no bad entry.
    assert_eq!(audit.validate_invoice_audit_integrity(now, &[6u8; 32]), Ok(true));
    // Seen from an earlier time, the entries are from the future.
    assert_eq!(
        audit.validate_invoice_audit_integrity(LedgerInfo { timestamp: 99, sequence: 10 }, &good),
        Ok(false)
    );

    let trail = audit.get_invoice_audit_trail(&good);
    assert_eq!(trail.len(), 2);
    let payment = audit.get_audit_entry(&trail[1]).unwrap();
    assert_eq!(payment.operation, AuditOperation::PaymentProcessed);
    assert_eq!(payment.new_value.as_deref(), Some("Payment type: wire, Amount: 250"));
    assert_eq!(payment.additional_data.as_deref(), Some("wire"));
    assert_eq!(payment.amount, Some(250));
}

#[test]
fn negative_and_large_amounts_are_written_out_in_full() {
    let mut client = QuickLendXContract::new();
    let mut invoice = {
        let id = client
            .store_invoice(address(1), i128::MAX, address(50), u64::MAX, "Big".to_string())
            .unwrap();
        client.get_invoice(id).unwrap()
    };
    let created = client.query_audit_logs(no_filter(), 1);
    assert_eq!(
        created[0].new_value.as_deref(),
        Some("Amount: 170141183460469231731687303715884105727, Due: 18446744073709551615")
    );
    let ledger = client.ledger;
    invoice.mark_as_funded(&mut client.audit, ledger, address(2), i128::MIN, 0);
    invoice.mark_as_funded(&mut client.audit, ledger, address(2), -10, 0);
    invoice.mark_as_funded(&mut client.audit, ledger, address(2), 0, 0);
    let funded = AuditQueryFilter { operation: Some(AuditOperation::InvoiceFunded), ..no_filter() };
    let entries = client.query_audit_logs(funded, 10);
    assert_eq!(
        entries[0].new_value.as_deref(),
        Some("Funded with amount: -170141183460469231731687303715884105728")
    );
    assert_eq!(entries[1].new_value.as_deref(), Some("Funded with amount: -10"));
    assert_eq!(entries[2].new_value.as_deref(), Some("Funded with amount: 0"));
    // From the second funding on the invoice was funded already.
    let changes = AuditQueryFilter {
        operation: Some(AuditOperation::InvoiceStatusChanged),
        ..no_filter()
    };
    let entries = client.query_audit_logs(changes, 10);
    assert_eq!(entries[0].old_value.as_deref(), Some("Pending"));
    assert_eq!(entries[1].old_value.as_deref(), Some("Funded"));
    assert_eq!(invoice.status, InvoiceStatus::Funded);
}
