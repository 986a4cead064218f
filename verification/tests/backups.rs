use quicklendx_contracts::backup::BackupStatus;
use quicklendx_contracts::contract::QuickLendXContract;
use quicklendx_contracts::errors::QuickLendXError;
use quicklendx_contracts::invoice::InvoiceStatus;
use quicklendx_contracts::types::{Address, LedgerInfo};

fn address(n: u8) -> Address {
    Address::account([n; 32])
}

#[test]
fn test_create_and_restore_backup() {
    let mut client = QuickLendXContract::new();

    // Set up admin
    let admin = address(9);
    client.set_admin(admin);

    // Create test invoices
    let business = address(1);
    let currency = address(2);
    let due_date = client.ledger.timestamp + 86400;

    let invoice1_id = client
        .store_invoice(business, 1000, currency, due_date, "Invoice 1".to_string())
        .unwrap();
    let invoice2_id = client
        .store_invoice(business, 2000, currency, due_date, "Invoice 2".to_string())
        .unwrap();

    // Create backup
    let backup_id = client.create_backup("Initial backup".to_string()).unwrap();

    // Verify backup was created
    let backup = client.get_backup_details(backup_id);
    assert!(backup.is_some());
    let backup = backup.unwrap();
    assert_eq!(backup.invoice_count, 2);
    assert_eq!(backup.status, BackupStatus::Active);

    // Clear invoices - use the contract's clear method
    client.clear_all_invoices().unwrap();

    // Verify invoices are gone
    assert!(client.get_invoice(invoice1_id).is_err());
    assert!(client.get_invoice(invoice2_id).is_err());

    // Restore backup
    client.restore_backup(backup_id).unwrap();

    // Verify invoices are back
    let invoice1 = client.get_invoice(invoice1_id).unwrap();
    assert_eq!(invoice1.amount, 1000);
    let invoice2 = client.get_invoice(invoice2_id).unwrap();
    assert_eq!(invoice2.amount, 2000);
}

#[test]
fn test_backup_validation() {
    let mut client = QuickLendXContract::new();

    // Set up admin
    let admin = address(9);
    client.set_admin(admin);

    // Create test invoice
    let business = address(1);
    let currency = address(2);
    let due_date = client.ledger.timestamp + 86400;

    client
        .store_invoice(business, 1000, currency, due_date, "Test invoice".to_string())
        .unwrap();

    // Create backup
    let backup_id = client.create_backup("Test backup".to_string()).unwrap();

    // Validate backup
    let is_valid = client.validate_backup(backup_id).unwrap();
    assert!(is_valid);

    // Tamper with backup data (simulate corruption)
    {
        let mut backup = client.backups.get_backup(&backup_id).unwrap();
        backup.invoice_count = 999; // Incorrect count
        client.backups.update_backup(&backup);
    }

    // Validate should fail now
    let is_valid = client.validate_backup(backup_id).unwrap();
    assert!(!is_valid);
}

#[test]
fn test_backup_cleanup() {
    let mut client = QuickLendXContract::new();

    // Set up admin
    let admin = address(9);
    client.set_admin(admin);

    // Create multiple backups with simple descriptions
    for i in 0..10 {
        let description = if i == 0 {
            "Backup 0".to_string()
        } else if i == 1 {
            "Backup 1".to_string()
        } else {
            "Backup".to_string()
        };
        client.create_backup(description).unwrap();
    }

    // Verify only last 5 backups are kept
    let backups = client.get_backups();
    assert_eq!(backups.len(), 5);
}

#[test]
fn test_archive_backup() {
    let mut client = QuickLendXContract::new();

    // Set up admin
    let admin = address(9);
    client.set_admin(admin);

    // Create backup
    let backup_id = client.create_backup("Test backup".to_string()).unwrap();

    // Archive backup
    client.archive_backup(backup_id).unwrap();

    // Verify backup is archived
    let backup = client.get_backup_details(backup_id);
    assert!(backup.is_some());
    assert_eq!(backup.unwrap().status, BackupStatus::Archived);

    // Verify backup is removed from active list
    let backups = client.get_backups();
    assert!(!backups.contains(&backup_id));
}

#[test]
fn backups_need_an_admin() {
    let mut client = QuickLendXContract::new();
    assert_eq!(
        client.create_backup("No admin".to_string()),
        Err(QuickLendXError::NotAdmin)
    );
    assert_eq!(client.restore_backup([1u8; 32]), Err(QuickLendXError::NotAdmin));
    assert_eq!(client.archive_backup([1u8; 32]), Err(QuickLendXError::NotAdmin));
    assert!(client.get_backups().is_empty());

    client.set_admin(address(9));
    assert_eq!(
        client.restore_backup([1u8; 32]),
        Err(QuickLendXError::StorageKeyNotFound)
    );
    assert_eq!(
        client.archive_backup([1u8; 32]),
        Err(QuickLendXError::StorageKeyNotFound)
    );
    assert_eq!(client.validate_backup([1u8; 32]), Ok(false));
    assert_eq!(client.get_backup_details([1u8; 32]), None);
}

#[test]
fn cleanup_drops_the_oldest_first() {
    let mut client = QuickLendXContract::new();
    client.set_admin(address(9));
    // Timestamps 50, 10, 30, 10, 40, 20, 60: the oldest are the two made at
    // 10, the first of them before the second, then the one made at 20.
    let mut made = Vec::new();
    for timestamp in [50u64, 10, 30, 10, 40] {
        client.set_ledger(LedgerInfo { timestamp, sequence: 0 });
        made.push(client.create_backup("b".to_string()).unwrap());
    }
    assert_eq!(client.get_backups(), made);
    client.set_ledger(LedgerInfo { timestamp: 20, sequence: 0 });
    made.push(client.create_backup("b".to_string()).unwrap());
    assert_eq!(
        client.get_backups(),
        vec![made[0], made[2], made[3], made[4], made[5]]
    );
    client.set_ledger(LedgerInfo { timestamp: 60, sequence: 0 });
    made.push(client.create_backup("b".to_string()).unwrap());
    assert_eq!(
        client.get_backups(),
        vec![made[0], made[2], made[4], made[5], made[6]]
    );
    // A dropped backup is still known, and can still be restored.
    assert_eq!(
        client.get_backup_details(made[1]).unwrap().status,
        BackupStatus::Active
    );
    assert_eq!(client.validate_backup(made[1]), Ok(true));
    client.restore_backup(made[1]).unwrap();

    client.backups.cleanup_old_backups(2).unwrap();
    assert_eq!(client.get_backups(), vec![made[0], made[6]]);
    client.backups.cleanup_old_backups(0).unwrap();
    assert!(client.get_backups().is_empty());
}

#[test]
fn restore_brings_back_every_invoice_as_it_was() {
    let mut client = QuickLendXContract::new();
    let admin = address(9);
    let business = address(1);
    let investor = address(2);
    let currency = address(3);
    client.set_admin(admin);

    let mut ids = Vec::new();
    for amount in [100i128, 200, 300, 400] {
        ids.push(
            client
                .store_invoice(business, amount, currency, 86400, "Invoice".to_string())
                .unwrap(),
        );
    }
    client.verify_invoice(ids[1], admin).unwrap();
    client.verify_invoice(ids[3], admin).unwrap();
    let bid = client.place_bid(investor, ids[3], 390, 400).unwrap();
    client.accept_bid(ids[3], bid).unwrap();
    client.add_invoice_rating(ids[3], 4, "ok".to_string(), investor).unwrap();

    let before: Vec<_> = ids.iter().map(|id| client.get_invoice(*id).unwrap()).collect();
    let backup_id = client.create_backup("Round trip".to_string()).unwrap();
    assert_eq!(client.get_backup_details(backup_id).unwrap().invoice_count, 4);
    // The invoices of a backup come bucket after bucket.
    let data = client.backups.get_backup_data(&backup_id).unwrap();
    let order: Vec<_> = data.iter().map(|invoice| invoice.id).collect();
    assert_eq!(order, vec![ids[0], ids[2], ids[1], ids[3]]);

    // Things go on, then the backup is restored.
    client.verify_invoice(ids[0], admin).unwrap();
    client.handle_default(ids[3]).unwrap();
    let later = client
        .store_invoice(business, 500, currency, 86400, "Later".to_string())
        .unwrap();
    client.restore_backup(backup_id).unwrap();

    for (id, invoice) in ids.iter().zip(before.iter()) {
        assert_eq!(&client.get_invoice(*id).unwrap(), invoice);
    }
    assert!(client.get_invoice(later).is_err());
    assert_eq!(client.get_total_invoice_count(), 4);
    assert_eq!(
        client.get_invoices_by_status(InvoiceStatus::Pending),
        vec![ids[0], ids[2]]
    );
    assert_eq!(client.get_invoices_by_status(InvoiceStatus::Verified), vec![ids[1]]);
    assert_eq!(client.get_invoices_by_status(InvoiceStatus::Funded), vec![ids[3]]);
    assert!(client.get_invoices_by_status(InvoiceStatus::Defaulted).is_empty());
    assert_eq!(
        client.get_business_invoices(business),
        vec![ids[0], ids[2], ids[1], ids[3]]
    );
    // An identifier that was issued is not issued again.
    let fresh = client
        .store_invoice(business, 600, currency, 86400, "Fresh".to_string())
        .unwrap();
    assert_ne!(fresh, later);
    assert!(!ids.contains(&fresh));
}

#[test]
fn a_backup_with_bad_invoices_is_not_restored() {
    let mut client = QuickLendXContract::new();
    client.set_admin(address(9));
    let id = client
        .store_invoice(address(1), 100, address(3), 86400, "Invoice".to_string())
        .unwrap();
    let backup_id = client.create_backup("b".to_string()).unwrap();
    let good = client.backups.get_backup_data(&backup_id).unwrap();

    // An invoice without a positive amount.
    let mut bad = client.backups.get_backup_data(&backup_id).unwrap();
    bad[0].amount = 0;
    client.backups.store_backup_data(&backup_id, &bad);
    assert_eq!(client.validate_backup(backup_id), Ok(false));
    assert_eq!(client.restore_backup(backup_id), Err(QuickLendXError::StorageError));

    // The same invoice twice, with the count to match.
    let mut twice = client.backups.get_backup_data(&backup_id).unwrap();
    twice[0].amount = 100;
    twice.push(twice[0].clone());
    client.backups.store_backup_data(&backup_id, &twice);
    let mut backup = client.backups.get_backup(&backup_id).unwrap();
    backup.invoice_count = 2;
    client.backups.update_backup(&backup);
    assert_eq!(client.validate_backup(backup_id), Ok(true));
    assert_eq!(client.restore_backup(backup_id), Err(QuickLendXError::StorageError));

    // An invoice under an identifier that was never issued.
    let mut foreign = client.backups.get_backup_data(&backup_id).unwrap();
    foreign.truncate(1);
    foreign[0].id = [0xFF; 32];
    client.backups.store_backup_data(&backup_id, &foreign);
    backup.invoice_count = 1;
    client.backups.update_backup(&backup);
    assert_eq!(client.restore_backup(backup_id), Err(QuickLendXError::StorageError));

    // Nothing was touched.
    assert_eq!(client.get_invoice(id).unwrap().amount, 100);
    client.backups.store_backup_data(&backup_id, &good);
    client.restore_backup(backup_id).unwrap();
    assert_eq!(client.get_invoice(id).unwrap().amount, 100);
}

#[test]
fn backup_identifiers_are_distinct() {
    let mut client = QuickLendXContract::new();
    let mut ids = Vec::new();
    for _ in 0..100 {
        let id = client.backups.generate_backup_id(client.ledger);
        assert_eq!(&id[0..2], &[0xB4, 0xC4]);
        assert!(!ids.contains(&id));
        ids.push(id);
    }
}
