use parish_core::member::Member;
use parish_core::sync::ChangeData;
use parish_core::sync::ChangeRecord;
use parish_core::sync::ServerStore;
use parish_core::sync::SyncRequest;
use parish_core::sync::sync_handler;
use parish_core::transaction::DecimalValue;
use parish_core::transaction::IncomeTransaction;
use parish_core::transaction::PaymentMethod;
use parish_core::transaction::TransactionCategory;

fn income(id: u128, amount_cents: i128, description: &str) -> IncomeTransaction {
    IncomeTransaction {
        id,
        parish_id: 1,
        member_id: None,
        family_id: None,
        transaction_number: format!("TXN-{}", id),
        category: TransactionCategory::Tithe,
        amount: DecimalValue { mantissa: amount_cents, scale: 2 },
        payment_method: PaymentMethod::Cash,
        transaction_date: 19_700,
        transaction_time: None,
        description: Some(description.to_string()),
        reference_number: None,
        received_by: None,
        receipt_printed: Some(false),
        receipt_printed_at: None,
        is_synced: Some(false),
        synced_at: None,
        created_at: Some(1_000),
        updated_at: Some(1_000),
    }
}

fn member(id: u128, first: &str) -> Member {
    Member {
        id,
        parish_id: 1,
        family_id: None,
        scc_id: None,
        member_code: format!("M-{}", id),
        first_name: first.to_string(),
        middle_name: None,
        last_name: "Mwangi".to_string(),
        date_of_birth: None,
        gender: None,
        marital_status: None,
        national_id: None,
        occupation: None,
        email: None,
        phone_number: None,
        physical_address: None,
        photo_url: None,
        family_role: None,
        notes: None,
        is_active: Some(true),
        created_at: Some(1_000),
        updated_at: Some(1_000),
    }
}

fn voucher(id: u128, amount_cents: i128) -> parish_core::transaction::ExpenseVoucher {
    parish_core::transaction::ExpenseVoucher {
        id,
        parish_id: 1,
        voucher_number: format!("EV-{}", id),
        category: TransactionCategory::UtilitiesExpense,
        amount: DecimalValue { mantissa: amount_cents, scale: 2 },
        payment_method: PaymentMethod::BankTransfer,
        payee_name: "Tanesco".to_string(),
        payee_phone: None,
        expense_date: 19_700,
        description: "power".to_string(),
        reference_number: None,
        approval_status: Some(parish_core::transaction::ApprovalStatus::Pending),
        requested_by: 2,
        approved_by: None,
        approved_at: None,
        rejection_reason: None,
        paid: Some(false),
        paid_at: None,
        is_synced: Some(false),
        synced_at: None,
        created_at: Some(1_000),
        updated_at: Some(1_000),
    }
}

fn sacrament(id: u128, member_id: u128) -> parish_core::member::SacramentRecord {
    parish_core::member::SacramentRecord {
        id,
        member_id,
        sacrament_type: parish_core::member::SacramentType::Baptism,
        sacrament_date: 19_000,
        officiating_minister: None,
        parish_id: 1,
        church_name: None,
        certificate_number: None,
        godparent_1_name: None,
        godparent_2_name: None,
        spouse_id: None,
        spouse_name: None,
        witnesses: None,
        notes: None,
        created_at: Some(1_000),
        updated_at: Some(1_000),
    }
}

fn change(table: &str, operation: &str, data: ChangeData) -> ChangeRecord {
    ChangeRecord {
        table: table.to_string(),
        operation: operation.to_string(),
        data,
        timestamp: "2024-05-01T10:00:00Z".to_string(),
    }
}

fn request(changes: Vec<ChangeRecord>) -> SyncRequest {
    SyncRequest { device_id: "tablet-1".to_string(), changes }
}

#[test]
fn empty_batch_is_a_success() {
    let mut store = ServerStore::new();
    let r = sync_handler(&mut store, request(vec![]), 1);
    assert_eq!(r.status, "success");
    assert_eq!(r.synced_count, 0);
    assert!(r.errors.is_empty());
}

#[test]
fn insert_is_applied_and_marked_synced() {
    let mut store = ServerStore::new();
    let r = sync_handler(
        &mut store,
        request(vec![change("income_transaction", "insert", ChangeData::Income(income(1, 500, "a")))]),
        7_777,
    );
    assert_eq!(r.status, "success");
    assert_eq!(r.synced_count, 1);
    assert!(r.errors.is_empty());
    assert_eq!(store.income.count_live(), 1);
    let row = store.income.get_live(1).unwrap();
    assert_eq!(row.is_synced, Some(true));
    assert_eq!(row.synced_at, Some(7_777));
    assert_eq!(row.created_at, Some(1_000));
}

#[test]
fn replayed_insert_is_idempotent() {
    let mut store = ServerStore::new();
    let first = change("income_transaction", "insert", ChangeData::Income(income(1, 500, "a")));
    let replay = change("income_transaction", "insert", ChangeData::Income(income(1, 500, "a")));
    let r = sync_handler(&mut store, request(vec![first, replay]), 7_777);
    // Both replays count as synced and neither errors.
    assert_eq!(r.status, "success");
    assert_eq!(r.synced_count, 2);
    assert!(r.errors.is_empty());
    // Exactly one live row exists.
    assert_eq!(store.income.len(), 1);
    assert_eq!(store.income.count_live(), 1);
}

#[test]
fn replayed_insert_does_not_overwrite() {
    let mut store = ServerStore::new();
    let first = change("income_transaction", "insert", ChangeData::Income(income(1, 500, "first")));
    let r = sync_handler(&mut store, request(vec![first]), 10);
    assert_eq!(r.synced_count, 1);
    let replay = change("income_transaction", "insert", ChangeData::Income(income(1, 999, "second")));
    let r = sync_handler(&mut store, request(vec![replay]), 20);
    assert_eq!(r.synced_count, 1);
    let row = store.income.get_live(1).unwrap();
    // The duplicate insert was a silent no-op: the first copy stands.
    assert_eq!(row.amount.mantissa, 500);
    assert_eq!(row.description, Some("first".to_string()));
    assert_eq!(row.synced_at, Some(10));
}

#[test]
fn update_is_last_writer_wins() {
    let mut store = ServerStore::new();
    let seed = change("income_transaction", "insert", ChangeData::Income(income(1, 500, "seed")));
    sync_handler(&mut store, request(vec![seed]), 10);

    let mut a = income(1, 600, "writer a");
    a.updated_at = Some(9_999_999); // embedded timestamps do not matter
    let mut b = income(1, 700, "writer b");
    b.updated_at = Some(2);
    let r = sync_handler(
        &mut store,
        request(vec![
            change("income_transaction", "update", ChangeData::Income(a)),
            change("income_transaction", "update", ChangeData::Income(b)),
        ]),
        20,
    );
    assert_eq!(r.status, "success");
    assert_eq!(r.synced_count, 2);
    let row = store.income.get_live(1).unwrap();
    // The store equals B's payload in every mutable column.
    assert_eq!(row.amount.mantissa, 700);
    assert_eq!(row.description, Some("writer b".to_string()));
    assert_eq!(row.updated_at, Some(2));
    // The server-owned columns are its own: creation stamp kept, sync forced.
    assert_eq!(row.created_at, Some(1_000));
    assert_eq!(row.is_synced, Some(true));
    assert_eq!(row.synced_at, Some(20));
}

#[test]
fn update_of_absent_row_is_a_no_op() {
    let mut store = ServerStore::new();
    let r = sync_handler(
        &mut store,
        request(vec![change("income_transaction", "update", ChangeData::Income(income(5, 1, "x")))]),
        10,
    );
    assert_eq!(r.status, "success");
    assert_eq!(r.synced_count, 1);
    assert_eq!(store.income.len(), 0);
}

#[test]
fn delete_is_soft() {
    let mut store = ServerStore::new();
    sync_handler(
        &mut store,
        request(vec![change("member", "insert", ChangeData::Member(member(3, "Amani")))]),
        10,
    );
    assert_eq!(store.members.count_live(), 1);
    let del = change(
        "member",
        "delete",
        ChangeData::Partial { id: Some(3), error: String::new() },
    );
    let r = sync_handler(&mut store, request(vec![del]), 20);
    assert_eq!(r.status, "success");
    assert_eq!(r.synced_count, 1);
    // Absent from every live read, but the row physically remains.
    assert!(store.members.get_live(3).is_none());
    assert_eq!(store.members.count_live(), 0);
    assert_eq!(store.members.len(), 1);
    let idx = store.members.find_index(3).unwrap();
    assert_eq!(store.members.row_at(idx).first_name, "Amani");
    assert_eq!(store.members.tomb_at(idx), Some(20));
}

#[test]
fn delete_without_id_fails_the_record() {
    let mut store = ServerStore::new();
    let del = change(
        "member",
        "delete",
        ChangeData::Partial { id: None, error: "no id field".to_string() },
    );
    let r = sync_handler(&mut store, request(vec![del]), 20);
    assert_eq!(r.status, "partial_success");
    assert_eq!(r.synced_count, 0);
    assert_eq!(r.errors.len(), 1);
    assert_eq!(
        r.errors[0],
        "Error processing change for member: Missing ID for delete"
    );
}

#[test]
fn unknown_table_is_a_counted_skip() {
    let mut store = ServerStore::new();
    let skip = change(
        "budget",
        "insert",
        ChangeData::Partial { id: None, error: "unknown shape".to_string() },
    );
    let r = sync_handler(&mut store, request(vec![skip]), 10);
    // It counts toward synced_count and produces no diagnostic.
    assert_eq!(r.status, "success");
    assert_eq!(r.synced_count, 1);
    assert!(r.errors.is_empty());
    assert_eq!(store.income.len(), 0);
    assert_eq!(store.members.len(), 0);
}

#[test]
fn unknown_operation_fails_the_record() {
    let mut store = ServerStore::new();
    let bad = change("member", "upsert", ChangeData::Member(member(3, "Amani")));
    let r = sync_handler(&mut store, request(vec![bad]), 10);
    // Exactly one diagnostic, and it does not count as synced.
    assert_eq!(r.status, "partial_success");
    assert_eq!(r.synced_count, 0);
    assert_eq!(r.errors.len(), 1);
    assert_eq!(
        r.errors[0],
        "Error processing change for member: Unknown operation: upsert"
    );
    assert_eq!(store.members.len(), 0);
}

#[test]
fn unreadable_payload_fails_the_record() {
    let mut store = ServerStore::new();
    let bad = change(
        "income_transaction",
        "insert",
        ChangeData::Partial { id: None, error: "missing field amount".to_string() },
    );
    let r = sync_handler(&mut store, request(vec![bad]), 10);
    assert_eq!(r.status, "partial_success");
    assert_eq!(r.synced_count, 0);
    assert_eq!(
        r.errors[0],
        "Error processing change for income_transaction: Deserialization error: missing field amount"
    );
}

#[test]
fn one_bad_record_does_not_block_the_rest() {
    let mut store = ServerStore::new();
    let r = sync_handler(
        &mut store,
        request(vec![
            change("income_transaction", "insert", ChangeData::Income(income(1, 500, "a"))),
            change("member", "upsert", ChangeData::Member(member(3, "Amani"))),
            change("member", "insert", ChangeData::Member(member(3, "Amani"))),
            change("unknown_table", "insert", ChangeData::Partial { id: None, error: String::new() }),
        ]),
        10,
    );
    assert_eq!(r.status, "partial_success");
    assert_eq!(r.synced_count, 3);
    assert_eq!(r.errors.len(), 1);
    assert_eq!(store.income.count_live(), 1);
    assert_eq!(store.members.count_live(), 1);
}

#[test]
fn voucher_update_forces_the_sync_mark() {
    let mut store = ServerStore::new();
    sync_handler(
        &mut store,
        request(vec![change("expense_voucher", "insert", ChangeData::Expense(voucher(4, 900)))]),
        10,
    );
    let mut edit = voucher(4, 950);
    edit.is_synced = Some(false);
    edit.synced_at = None;
    let r = sync_handler(
        &mut store,
        request(vec![change("expense_voucher", "update", ChangeData::Expense(edit))]),
        33,
    );
    assert_eq!(r.synced_count, 1);
    let row = store.expense.get_live(4).unwrap();
    assert_eq!(row.amount.mantissa, 950);
    // Whatever the client claimed, the server marks the row synced now.
    assert_eq!(row.is_synced, Some(true));
    assert_eq!(row.synced_at, Some(33));
    assert_eq!(row.created_at, Some(1_000));
}

#[test]
fn sacrament_records_sync_like_the_rest() {
    let mut store = ServerStore::new();
    let r = sync_handler(
        &mut store,
        request(vec![
            change("sacrament", "insert", ChangeData::Sacrament(sacrament(8, 3))),
            change(
                "sacrament",
                "delete",
                ChangeData::Partial { id: Some(8), error: String::new() },
            ),
        ]),
        10,
    );
    assert_eq!(r.status, "success");
    assert_eq!(r.synced_count, 2);
    assert_eq!(store.sacraments.len(), 1);
    assert_eq!(store.sacraments.count_live(), 0);
}

#[test]
fn records_apply_in_supplied_order() {
    let mut store = ServerStore::new();
    // Insert then delete in one batch: the row ends soft-deleted.
    let r = sync_handler(
        &mut store,
        request(vec![
            change("member", "insert", ChangeData::Member(member(3, "Amani"))),
            change(
                "member",
                "delete",
                ChangeData::Partial { id: Some(3), error: String::new() },
            ),
        ]),
        10,
    );
    assert_eq!(r.synced_count, 2);
    assert_eq!(store.members.len(), 1);
    assert_eq!(store.members.count_live(), 0);
}
