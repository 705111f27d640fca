//! The offline-sync reconciler: a device-submitted batch of change records
//! is merged into the server store, each record independently, in the
//! order supplied. Inserts are replay-safe (a duplicate key is a silent
//! no-op), updates are last-writer-wins full overwrites, deletes stamp a
//! tombstone, unknown tables are forward-compatible no-ops, and a failing
//! record never blocks its siblings.

use vstd::prelude::*;
use vstd::string::StringExecFns;

use crate::member::Member;
use crate::member::SacramentRecord;
use crate::store::Keyed;
use crate::store::Table;
use crate::store::TableModel;
use crate::text::str_eq;
use crate::transaction::ExpenseVoucher;
use crate::transaction::IncomeTransaction;

verus! {

/// One client-originated mutation, as carried by the sync endpoint.
pub struct ChangeRecord {
    /// The table the change addresses.
    pub table: String,
    /// One of `insert`, `update`, `delete`; anything else fails the record.
    pub operation: String,
    /// What could be read out of the record's payload.
    pub data: ChangeData,
    /// The client's own timestamp, carried through but not trusted.
    pub timestamp: String,
}

/// The payload of a change record, already read into the entity shape the
/// record's table calls for.
pub enum ChangeData {
    Income(IncomeTransaction),
    Expense(ExpenseVoucher),
    Member(Member),
    Sacrament(SacramentRecord),
    /// The payload could not be read as the table's full entity: the `id`
    /// field, where present and well-formed, and the reader's error text.
    Partial { id: Option<u128>, error: String },
}

/// A batch of changes from one device.
pub struct SyncRequest {
    pub device_id: String,
    pub changes: Vec<ChangeRecord>,
}

/// The outcome of a batch: a count of the records that were applied (or
/// deliberately skipped) and the diagnostics of those that failed.
pub struct SyncResponse {
    pub status: String,
    pub synced_count: usize,
    pub errors: Vec<String>,
}

/// The server-of-record tables the reconciler may touch.
pub struct ServerStore {
    pub income: Table<IncomeTransaction>,
    pub expense: Table<ExpenseVoucher>,
    pub members: Table<Member>,
    pub sacraments: Table<SacramentRecord>,
}

/// The mathematical value of the server store.
pub struct StoreModel {
    pub income: TableModel<IncomeTransaction>,
    pub expense: TableModel<ExpenseVoucher>,
    pub members: TableModel<Member>,
    pub sacraments: TableModel<SacramentRecord>,
}

impl StoreModel {
    pub open spec fn wf(self) -> bool {
        self.income.wf() && self.expense.wf() && self.members.wf() && self.sacraments.wf()
    }
}

impl ServerStore {
    pub open spec fn model(&self) -> StoreModel {
        StoreModel {
            income: self.income.model(),
            expense: self.expense.model(),
            members: self.members.model(),
            sacraments: self.sacraments.model(),
        }
    }

    pub open spec fn wf(&self) -> bool {
        self.model().wf()
    }

    pub fn new() -> (s: ServerStore)
        ensures
            s.wf(),
            s.model().income.rows.len() == 0,
            s.model().expense.rows.len() == 0,
            s.model().members.rows.len() == 0,
            s.model().sacraments.rows.len() == 0,
    {
        ServerStore {
            income: Table::new(),
            expense: Table::new(),
            members: Table::new(),
            sacraments: Table::new(),
        }
    }
}

/// A record the reconciler can merge: beyond its key, each entity says
/// what is stored when a client copy is inserted (`received_spec`) and
/// what is stored when it overwrites an existing row (`merged_spec`).
pub trait SyncEntity: Keyed {
    /// The row stored when a client-inserted copy is accepted.
    spec fn received_spec(self, now: i64) -> Self;

    /// The row stored when a client copy overwrites the existing row.
    spec fn merged_spec(self, existing: Self, now: i64) -> Self;

    /// Neither storing rule may touch the primary key.
    proof fn lemma_key_preserved(self, existing: Self, now: i64)
        ensures
            self.received_spec(now).key_spec() == self.key_spec(),
            self.merged_spec(existing, now).key_spec() == self.key_spec(),
    ;

    /// Overwriting twice is overwriting once with the later copy: what the
    /// merge keeps of the existing row survives any number of overwrites.
    proof fn lemma_merged_absorbs(self, other: Self, existing: Self, now1: i64, now2: i64)
        ensures
            self.merged_spec(other.merged_spec(existing, now1), now2) == self.merged_spec(
                existing,
                now2,
            ),
    ;
}

/// One table after one change record addressed to it: `decoded` is the
/// entity the payload was read as (where it matched the table's shape) and
/// `payload_id` the id the payload offers for a delete.
pub open spec fn apply_table<R: SyncEntity>(
    m: TableModel<R>,
    operation: Seq<char>,
    decoded: Option<R>,
    payload_id: Option<u128>,
    now: i64,
) -> TableModel<R> {
    if operation == "insert"@ {
        match decoded {
            Some(row) => if m.has_key(row.key_spec()) {
                m
            } else {
                m.insert_new(row.received_spec(now))
            },
            None => m,
        }
    } else if operation == "update"@ {
        match decoded {
            Some(row) => if m.has_key(row.key_spec()) {
                m.overwrite(
                    m.index_of(row.key_spec()),
                    row.merged_spec(m.row_of(row.key_spec()), now),
                )
            } else {
                m
            },
            None => m,
        }
    } else if operation == "delete"@ {
        match payload_id {
            Some(id) => if m.has_key(id) {
                m.delete_at(m.index_of(id), now)
            } else {
                m
            },
            None => m,
        }
    } else {
        m
    }
}

/// The id the payload offers for a delete, whatever shape it was read as.
pub open spec fn data_id_spec(d: ChangeData) -> Option<u128> {
    match d {
        ChangeData::Income(r) => Some(r.id),
        ChangeData::Expense(r) => Some(r.id),
        ChangeData::Member(r) => Some(r.id),
        ChangeData::Sacrament(r) => Some(r.id),
        ChangeData::Partial { id, error: _ } => id,
    }
}

fn data_id(d: ChangeData) -> (r: Option<u128>)
    ensures
        r == data_id_spec(d),
{
    match d {
        ChangeData::Income(r) => Some(r.id),
        ChangeData::Expense(r) => Some(r.id),
        ChangeData::Member(r) => Some(r.id),
        ChangeData::Sacrament(r) => Some(r.id),
        ChangeData::Partial { id, error: _ } => id,
    }
}

/// What stops an insert or update from reading its entity, if anything:
/// the reader's own message, or a note that the payload has another
/// table's shape.
pub open spec fn income_decode_error(d: ChangeData) -> Option<Seq<char>> {
    match d {
        ChangeData::Income(_) => None,
        ChangeData::Partial { id: _, error } => Some(error@),
        _ => Some("payload does not match table"@),
    }
}

pub open spec fn expense_decode_error(d: ChangeData) -> Option<Seq<char>> {
    match d {
        ChangeData::Expense(_) => None,
        ChangeData::Partial { id: _, error } => Some(error@),
        _ => Some("payload does not match table"@),
    }
}

pub open spec fn member_decode_error(d: ChangeData) -> Option<Seq<char>> {
    match d {
        ChangeData::Member(_) => None,
        ChangeData::Partial { id: _, error } => Some(error@),
        _ => Some("payload does not match table"@),
    }
}

pub open spec fn sacrament_decode_error(d: ChangeData) -> Option<Seq<char>> {
    match d {
        ChangeData::Sacrament(_) => None,
        ChangeData::Partial { id: _, error } => Some(error@),
        _ => Some("payload does not match table"@),
    }
}

/// The error a change dispatched to a known table produces, if any. It
/// depends on the record alone, never on the store: duplicate inserts and
/// updates or deletes of absent rows are accepted no-ops.
pub open spec fn handler_error(decode_error: Option<Seq<char>>, c: ChangeRecord) -> Option<
    Seq<char>,
> {
    if c.operation@ == "insert"@ || c.operation@ == "update"@ {
        match decode_error {
            Some(e) => Some("Deserialization error: "@ + e),
            None => None,
        }
    } else if c.operation@ == "delete"@ {
        match data_id_spec(c.data) {
            Some(_) => None,
            None => Some("Missing ID for delete"@),
        }
    } else {
        Some("Unknown operation: "@ + c.operation@)
    }
}

pub open spec fn income_change_error(c: ChangeRecord) -> Option<Seq<char>> {
    handler_error(income_decode_error(c.data), c)
}

pub open spec fn expense_change_error(c: ChangeRecord) -> Option<Seq<char>> {
    handler_error(expense_decode_error(c.data), c)
}

pub open spec fn member_change_error(c: ChangeRecord) -> Option<Seq<char>> {
    handler_error(member_decode_error(c.data), c)
}

pub open spec fn sacrament_change_error(c: ChangeRecord) -> Option<Seq<char>> {
    handler_error(sacrament_decode_error(c.data), c)
}

/// What the payload of a change addressed to the income table was read
/// as, where it matched.
pub open spec fn income_decoded(d: ChangeData) -> Option<IncomeTransaction> {
    match d {
        ChangeData::Income(r) => Some(r),
        _ => None,
    }
}

/// The income table after one change record addressed to it.
pub open spec fn apply_income(m: TableModel<IncomeTransaction>, c: ChangeRecord, now: i64) -> TableModel<
    IncomeTransaction,
> {
    apply_table(m, c.operation@, income_decoded(c.data), data_id_spec(c.data), now)
}

/// What the payload of a change addressed to the expense table was read
/// as, where it matched.
pub open spec fn expense_decoded(d: ChangeData) -> Option<ExpenseVoucher> {
    match d {
        ChangeData::Expense(r) => Some(r),
        _ => None,
    }
}

/// The expense table after one change record addressed to it.
pub open spec fn apply_expense(m: TableModel<ExpenseVoucher>, c: ChangeRecord, now: i64) -> TableModel<
    ExpenseVoucher,
> {
    apply_table(m, c.operation@, expense_decoded(c.data), data_id_spec(c.data), now)
}

/// What the payload of a change addressed to the member table was read
/// as, where it matched.
pub open spec fn member_decoded(d: ChangeData) -> Option<Member> {
    match d {
        ChangeData::Member(r) => Some(r),
        _ => None,
    }
}

/// The member table after one change record addressed to it.
pub open spec fn apply_member(m: TableModel<Member>, c: ChangeRecord, now: i64) -> TableModel<
    Member,
> {
    apply_table(m, c.operation@, member_decoded(c.data), data_id_spec(c.data), now)
}

/// What the payload of a change addressed to the sacrament table was read
/// as, where it matched.
pub open spec fn sacrament_decoded(d: ChangeData) -> Option<SacramentRecord> {
    match d {
        ChangeData::Sacrament(r) => Some(r),
        _ => None,
    }
}

/// The sacrament table after one change record addressed to it.
pub open spec fn apply_sacrament(m: TableModel<SacramentRecord>, c: ChangeRecord, now: i64) -> TableModel<
    SacramentRecord,
> {
    apply_table(m, c.operation@, sacrament_decoded(c.data), data_id_spec(c.data), now)
}

/// Applies one change addressed to the income table.
pub fn handle_income_transaction(
    table: &mut Table<IncomeTransaction>,
    change: ChangeRecord,
    now: i64,
) -> (r: Result<(), String>)
    requires
        old(table).wf(),
    ensures
        final(table).wf(),
        final(table).model() == apply_income(old(table).model(), change, now),
        r matches Ok(()) <==> income_change_error(change) is None,
        r matches Err(e) ==> income_change_error(change) == Some(e@),
{
    let ChangeRecord { table: _t, operation, data, timestamp: _ts } = change;
    if str_eq(operation.as_str(), "insert") {
        match data {
            ChangeData::Income(row) => {
                let row = row.received(now);
                match table.find_index(row.key()) {
                    Some(_) => Ok(()),
                    None => {
                        table.push_row(row);
                        Ok(())
                    },
                }
            },
            ChangeData::Partial { id: _, error } => Err(deserialization_message(error)),
            _ => Err(mismatch_message()),
        }
    } else if str_eq(operation.as_str(), "update") {
        match data {
            ChangeData::Income(row) => {
                match table.find_index(row.key()) {
                    Some(i) => {
                        let merged = row.merged(table.row_at(i), now);
                        table.set_row(i, merged);
                        Ok(())
                    },
                    None => Ok(()),
                }
            },
            ChangeData::Partial { id: _, error } => Err(deserialization_message(error)),
            _ => Err(mismatch_message()),
        }
    } else if str_eq(operation.as_str(), "delete") {
        match data_id(data) {
            Some(id) => {
                match table.find_index(id) {
                    Some(i) => {
                        table.set_deleted(i, now);
                        Ok(())
                    },
                    None => Ok(()),
                }
            },
            None => Err(String::from_str("Missing ID for delete")),
        }
    } else {
        Err(unknown_operation_message(operation))
    }
}

/// Applies one change addressed to the expense table.
pub fn handle_expense_voucher(table: &mut Table<ExpenseVoucher>, change: ChangeRecord, now: i64) -> (r:
    Result<(), String>)
    requires
        old(table).wf(),
    ensures
        final(table).wf(),
        final(table).model() == apply_expense(old(table).model(), change, now),
        r matches Ok(()) <==> expense_change_error(change) is None,
        r matches Err(e) ==> expense_change_error(change) == Some(e@),
{
    let ChangeRecord { table: _t, operation, data, timestamp: _ts } = change;
    if str_eq(operation.as_str(), "insert") {
        match data {
            ChangeData::Expense(row) => {
                let row = row.received(now);
                match table.find_index(row.key()) {
                    Some(_) => Ok(()),
                    None => {
                        table.push_row(row);
                        Ok(())
                    },
                }
            },
            ChangeData::Partial { id: _, error } => Err(deserialization_message(error)),
            _ => Err(mismatch_message()),
        }
    } else if str_eq(operation.as_str(), "update") {
        match data {
            ChangeData::Expense(row) => {
                match table.find_index(row.key()) {
                    Some(i) => {
                        let merged = row.merged(table.row_at(i), now);
                        table.set_row(i, merged);
                        Ok(())
                    },
                    None => Ok(()),
                }
            },
            ChangeData::Partial { id: _, error } => Err(deserialization_message(error)),
            _ => Err(mismatch_message()),
        }
    } else if str_eq(operation.as_str(), "delete") {
        match data_id(data) {
            Some(id) => {
                match table.find_index(id) {
                    Some(i) => {
                        table.set_deleted(i, now);
                        Ok(())
                    },
                    None => Ok(()),
                }
            },
            None => Err(String::from_str("Missing ID for delete")),
        }
    } else {
        Err(unknown_operation_message(operation))
    }
}

/// Applies one change addressed to the member table.
pub fn handle_member(table: &mut Table<Member>, change: ChangeRecord, now: i64) -> (r: Result<
    (),
    String,
>)
    requires
        old(table).wf(),
    ensures
        final(table).wf(),
        final(table).model() == apply_member(old(table).model(), change, now),
        r matches Ok(()) <==> member_change_error(change) is None,
        r matches Err(e) ==> member_change_error(change) == Some(e@),
{
    let ChangeRecord { table: _t, operation, data, timestamp: _ts } = change;
    if str_eq(operation.as_str(), "insert") {
        match data {
            ChangeData::Member(row) => {
                let row = row.received(now);
                match table.find_index(row.key()) {
                    Some(_) => Ok(()),
                    None => {
                        table.push_row(row);
                        Ok(())
                    },
                }
            },
            ChangeData::Partial { id: _, error } => Err(deserialization_message(error)),
            _ => Err(mismatch_message()),
        }
    } else if str_eq(operation.as_str(), "update") {
        match data {
            ChangeData::Member(row) => {
                match table.find_index(row.key()) {
                    Some(i) => {
                        let merged = row.merged(table.row_at(i), now);
                        table.set_row(i, merged);
                        Ok(())
                    },
                    None => Ok(()),
                }
            },
            ChangeData::Partial { id: _, error } => Err(deserialization_message(error)),
            _ => Err(mismatch_message()),
        }
    } else if str_eq(operation.as_str(), "delete") {
        match data_id(data) {
            Some(id) => {
                match table.find_index(id) {
                    Some(i) => {
                        table.set_deleted(i, now);
                        Ok(())
                    },
                    None => Ok(()),
                }
            },
            None => Err(String::from_str("Missing ID for delete")),
        }
    } else {
        Err(unknown_operation_message(operation))
    }
}

/// Applies one change addressed to the sacrament table.
pub fn handle_sacrament(table: &mut Table<SacramentRecord>, change: ChangeRecord, now: i64) -> (r:
    Result<(), String>)
    requires
        old(table).wf(),
    ensures
        final(table).wf(),
        final(table).model() == apply_sacrament(old(table).model(), change, now),
        r matches Ok(()) <==> sacrament_change_error(change) is None,
        r matches Err(e) ==> sacrament_change_error(change) == Some(e@),
{
    let ChangeRecord { table: _t, operation, data, timestamp: _ts } = change;
    if str_eq(operation.as_str(), "insert") {
        match data {
            ChangeData::Sacrament(row) => {
                let row = row.received(now);
                match table.find_index(row.key()) {
                    Some(_) => Ok(()),
                    None => {
                        table.push_row(row);
                        Ok(())
                    },
                }
            },
            ChangeData::Partial { id: _, error } => Err(deserialization_message(error)),
            _ => Err(mismatch_message()),
        }
    } else if str_eq(operation.as_str(), "update") {
        match data {
            ChangeData::Sacrament(row) => {
                match table.find_index(row.key()) {
                    Some(i) => {
                        let merged = row.merged(table.row_at(i), now);
                        table.set_row(i, merged);
                        Ok(())
                    },
                    None => Ok(()),
                }
            },
            ChangeData::Partial { id: _, error } => Err(deserialization_message(error)),
            _ => Err(mismatch_message()),
        }
    } else if str_eq(operation.as_str(), "delete") {
        match data_id(data) {
            Some(id) => {
                match table.find_index(id) {
                    Some(i) => {
                        table.set_deleted(i, now);
                        Ok(())
                    },
                    None => Ok(()),
                }
            },
            None => Err(String::from_str("Missing ID for delete")),
        }
    } else {
        Err(unknown_operation_message(operation))
    }
}

fn deserialization_message(error: String) -> (r: String)
    ensures
        r@ == "Deserialization error: "@ + error@,
{
    let mut m = String::from_str("Deserialization error: ");
    m.append(error.as_str());
    m
}

fn mismatch_message() -> (r: String)
    ensures
        r@ == "Deserialization error: "@ + "payload does not match table"@,
{
    let mut m = String::from_str("Deserialization error: ");
    m.append("payload does not match table");
    m
}

fn unknown_operation_message(operation: String) -> (r: String)
    ensures
        r@ == "Unknown operation: "@ + operation@,
{
    let mut m = String::from_str("Unknown operation: ");
    m.append(operation.as_str());
    m
}

/// The error one change record produces, if any: a record for an unknown
/// table is a forward-compatible no-op, never an error.
pub open spec fn change_error(c: ChangeRecord) -> Option<Seq<char>> {
    if c.table@ == "income_transaction"@ {
        income_change_error(c)
    } else if c.table@ == "expense_voucher"@ {
        expense_change_error(c)
    } else if c.table@ == "member"@ {
        member_change_error(c)
    } else if c.table@ == "sacrament"@ {
        sacrament_change_error(c)
    } else {
        None
    }
}

/// The diagnostic line a failing record contributes to the batch result.
pub open spec fn error_line(c: ChangeRecord) -> Seq<char> {
    match change_error(c) {
        Some(e) => "Error processing change for "@ + c.table@ + ": "@ + e,
        None => Seq::<char>::empty(),
    }
}

/// The whole store after one change record.
pub open spec fn apply_change(s: StoreModel, c: ChangeRecord, now: i64) -> StoreModel {
    if c.table@ == "income_transaction"@ {
        StoreModel { income: apply_income(s.income, c, now), ..s }
    } else if c.table@ == "expense_voucher"@ {
        StoreModel { expense: apply_expense(s.expense, c, now), ..s }
    } else if c.table@ == "member"@ {
        StoreModel { members: apply_member(s.members, c, now), ..s }
    } else if c.table@ == "sacrament"@ {
        StoreModel { sacraments: apply_sacrament(s.sacraments, c, now), ..s }
    } else {
        s
    }
}

/// The whole store after a batch, applied front to back.
pub open spec fn batch_apply(s: StoreModel, cs: Seq<ChangeRecord>, now: i64) -> StoreModel
    decreases cs.len(),
{
    if cs.len() == 0 {
        s
    } else {
        batch_apply(apply_change(s, cs[0], now), cs.drop_first(), now)
    }
}

/// The diagnostics of a batch, in record order.
pub open spec fn batch_errors(cs: Seq<ChangeRecord>) -> Seq<Seq<char>>
    decreases cs.len(),
{
    if cs.len() == 0 {
        Seq::<Seq<char>>::empty()
    } else {
        (match change_error(cs[0]) {
            Some(_) => seq![error_line(cs[0])],
            None => Seq::<Seq<char>>::empty(),
        }) + batch_errors(cs.drop_first())
    }
}

/// The three operation names are pairwise distinct.
proof fn lemma_ops_distinct()
    ensures
        "insert"@ != "update"@,
        "insert"@ != "delete"@,
        "update"@ != "delete"@,
{
    reveal_strlit("insert");
    reveal_strlit("update");
    reveal_strlit("delete");
    assert("insert"@[0] == 'i');
    assert("update"@[0] == 'u');
    assert("delete"@[0] == 'd');
}

/// The four table names the reconciler knows are pairwise distinct.
proof fn lemma_tables_distinct()
    ensures
        "income_transaction"@ != "expense_voucher"@,
        "income_transaction"@ != "member"@,
        "income_transaction"@ != "sacrament"@,
        "expense_voucher"@ != "member"@,
        "expense_voucher"@ != "sacrament"@,
        "member"@ != "sacrament"@,
{
    reveal_strlit("income_transaction");
    reveal_strlit("expense_voucher");
    reveal_strlit("member");
    reveal_strlit("sacrament");
    assert("income_transaction"@.len() == 18);
    assert("expense_voucher"@.len() == 15);
    assert("member"@.len() == 6);
    assert("sacrament"@.len() == 9);
}

/// Every change keeps a well-formed table well-formed.
pub proof fn lemma_apply_table_wf<R: SyncEntity>(
    m: TableModel<R>,
    operation: Seq<char>,
    decoded: Option<R>,
    payload_id: Option<u128>,
    now: i64,
)
    requires
        m.wf(),
    ensures
        apply_table(m, operation, decoded, payload_id, now).wf(),
{
    if operation == "insert"@ {
        if let Some(row) = decoded {
            if !m.has_key(row.key_spec()) {
                row.lemma_key_preserved(row, now);
                m.lemma_insert_new(row.received_spec(now));
            }
        }
    } else if operation == "update"@ {
        if let Some(row) = decoded {
            if m.has_key(row.key_spec()) {
                let i = m.index_of(row.key_spec());
                row.lemma_key_preserved(m.row_of(row.key_spec()), now);
                m.lemma_overwrite(i, row.merged_spec(m.row_of(row.key_spec()), now));
            }
        }
    } else if operation == "delete"@ {
        if let Some(id) = payload_id {
            if m.has_key(id) {
                m.lemma_delete_at(m.index_of(id), now);
            }
        }
    }
}

/// Law, per table: replaying an `insert` is idempotent — the second
/// application changes nothing — and a fresh insert leaves its row live.
pub proof fn lemma_insert_idempotent_table<R: SyncEntity>(
    m: TableModel<R>,
    decoded: Option<R>,
    payload_id: Option<u128>,
    now1: i64,
    now2: i64,
)
    requires
        m.wf(),
    ensures
        apply_table(
            apply_table(m, "insert"@, decoded, payload_id, now1),
            "insert"@,
            decoded,
            payload_id,
            now2,
        ) == apply_table(m, "insert"@, decoded, payload_id, now1),
        decoded matches Some(row) ==> (!m.has_key(row.key_spec()) ==> apply_table(
            m,
            "insert"@,
            decoded,
            payload_id,
            now1,
        ).live(row.key_spec())),
{
    if let Some(row) = decoded {
        if !m.has_key(row.key_spec()) {
            row.lemma_key_preserved(row, now1);
            m.lemma_insert_new(row.received_spec(now1));
        }
    }
}

/// Law, per table: updates are last-writer-wins — applying update A and
/// then update B for the same key leaves the table exactly as applying B
/// alone, whatever either copy carries.
pub proof fn lemma_update_last_writer_wins_table<R: SyncEntity>(
    m: TableModel<R>,
    ra: R,
    rb: R,
    pa: Option<u128>,
    pb: Option<u128>,
    now1: i64,
    now2: i64,
)
    requires
        m.wf(),
        ra.key_spec() == rb.key_spec(),
    ensures
        apply_table(
            apply_table(m, "update"@, Some(ra), pa, now1),
            "update"@,
            Some(rb),
            pb,
            now2,
        ) == apply_table(m, "update"@, Some(rb), pb, now2),
{
    lemma_ops_distinct();
    let id = ra.key_spec();
    if m.has_key(id) {
        let i = m.index_of(id);
        let orig = m.row_of(id);
        ra.lemma_key_preserved(orig, now1);
        let merged1 = ra.merged_spec(orig, now1);
        m.lemma_overwrite(i, merged1);
        let m1 = m.overwrite(i, merged1);
        assert(m1.has_key(id));
        assert(m1.index_of(id) == i);
        assert(m1.row_of(id) == merged1);
        rb.lemma_key_preserved(merged1, now2);
        rb.lemma_merged_absorbs(ra, orig, now1, now2);
        let merged2 = rb.merged_spec(orig, now2);
        assert(rb.merged_spec(m1.row_of(id), now2) == merged2);
        assert(m1.overwrite(i, merged2).rows =~= m.overwrite(i, merged2).rows);
    }
}

/// Law, per table: a delete is soft — afterwards the key is absent from
/// every live read, yet its row is physically unchanged in place, and no
/// other row's liveness moves.
pub proof fn lemma_delete_soft_table<R: SyncEntity>(
    m: TableModel<R>,
    decoded: Option<R>,
    id: u128,
    now: i64,
)
    requires
        m.wf(),
        m.has_key(id),
    ensures
        ({
            let m2 = apply_table(m, "delete"@, decoded, Some(id), now);
            &&& m2.wf()
            &&& m2.rows == m.rows
            &&& m2.has_key(id)
            &&& !m2.live(id)
            &&& m2.row_of(id) == m.row_of(id)
            &&& forall|other: u128|
                m.has_key(other) && other != id ==> #[trigger] m2.live(other) == m.live(other)
        }),
{
    lemma_ops_distinct();
    let i = m.index_of(id);
    m.lemma_delete_at(i, now);
    let m2 = m.delete_at(i, now);
    assert forall|other: u128| m.has_key(other) && other != id implies #[trigger] m2.live(other)
        == m.live(other) by {
        let k = m.index_of(other);
        assert(m.rows[k].key_spec() == other);
        assert(m.rows[i].key_spec() == id);
        assert(k != i);
    }
}

/// The table names the reconciler dispatches on.
pub open spec fn known_table(t: Seq<char>) -> bool {
    t == "income_transaction"@ || t == "expense_voucher"@ || t == "member"@ || t == "sacrament"@
}

/// The key of the entity an insert or update would write, where the
/// payload matched the record's table.
pub open spec fn decoded_key(c: ChangeRecord) -> Option<u128> {
    if c.table@ == "income_transaction"@ {
        match income_decoded(c.data) {
            Some(r) => Some(r.key_spec()),
            None => None,
        }
    } else if c.table@ == "expense_voucher"@ {
        match expense_decoded(c.data) {
            Some(r) => Some(r.key_spec()),
            None => None,
        }
    } else if c.table@ == "member"@ {
        match member_decoded(c.data) {
            Some(r) => Some(r.key_spec()),
            None => None,
        }
    } else if c.table@ == "sacrament"@ {
        match sacrament_decoded(c.data) {
            Some(r) => Some(r.key_spec()),
            None => None,
        }
    } else {
        None
    }
}

/// Every change record keeps a well-formed store well-formed, whatever its
/// table, operation or payload.
pub proof fn lemma_apply_change_wf(s: StoreModel, c: ChangeRecord, now: i64)
    requires
        s.wf(),
    ensures
        apply_change(s, c, now).wf(),
{
    lemma_apply_table_wf(s.income, c.operation@, income_decoded(c.data), data_id_spec(c.data), now);
    lemma_apply_table_wf(
        s.expense,
        c.operation@,
        expense_decoded(c.data),
        data_id_spec(c.data),
        now,
    );
    lemma_apply_table_wf(s.members, c.operation@, member_decoded(c.data), data_id_spec(c.data), now);
    lemma_apply_table_wf(
        s.sacraments,
        c.operation@,
        sacrament_decoded(c.data),
        data_id_spec(c.data),
        now,
    );
}

/// Every batch keeps a well-formed store well-formed.
pub proof fn lemma_batch_apply_wf(s: StoreModel, cs: Seq<ChangeRecord>, now: i64)
    requires
        s.wf(),
    ensures
        batch_apply(s, cs, now).wf(),
    decreases cs.len(),
{
    if cs.len() > 0 {
        lemma_apply_change_wf(s, cs[0], now);
        lemma_batch_apply_wf(apply_change(s, cs[0], now), cs.drop_first(), now);
    }
}

/// Law: replaying the same sync `insert` change record is idempotent. The
/// second application leaves every table exactly as the first left it — no
/// duplicate row — and, the outcome of a record being a function of the
/// record alone, the replay reports the same success. A fresh insert
/// leaves its row live.
pub proof fn lemma_sync_insert_idempotent(s: StoreModel, c: ChangeRecord, now1: i64, now2: i64)
    requires
        s.wf(),
        c.operation@ == "insert"@,
    ensures
        apply_change(apply_change(s, c, now1), c, now2) == apply_change(s, c, now1),
        c.table@ == "income_transaction"@ ==> (income_decoded(c.data) matches Some(row) ==> (
        !s.income.has_key(row.key_spec()) ==> apply_change(s, c, now1).income.live(
            row.key_spec(),
        ))),
        c.table@ == "expense_voucher"@ ==> (expense_decoded(c.data) matches Some(row) ==> (
        !s.expense.has_key(row.key_spec()) ==> apply_change(s, c, now1).expense.live(
            row.key_spec(),
        ))),
        c.table@ == "member"@ ==> (member_decoded(c.data) matches Some(row) ==> (
        !s.members.has_key(row.key_spec()) ==> apply_change(s, c, now1).members.live(
            row.key_spec(),
        ))),
        c.table@ == "sacrament"@ ==> (sacrament_decoded(c.data) matches Some(row) ==> (
        !s.sacraments.has_key(row.key_spec()) ==> apply_change(s, c, now1).sacraments.live(
            row.key_spec(),
        ))),
{
    lemma_tables_distinct();
    if c.table@ == "income_transaction"@ {
        lemma_insert_idempotent_table(
            s.income,
            income_decoded(c.data),
            data_id_spec(c.data),
            now1,
            now2,
        );
    } else if c.table@ == "expense_voucher"@ {
        lemma_insert_idempotent_table(
            s.expense,
            expense_decoded(c.data),
            data_id_spec(c.data),
            now1,
            now2,
        );
    } else if c.table@ == "member"@ {
        lemma_insert_idempotent_table(
            s.members,
            member_decoded(c.data),
            data_id_spec(c.data),
            now1,
            now2,
        );
    } else if c.table@ == "sacrament"@ {
        lemma_insert_idempotent_table(
            s.sacraments,
            sacrament_decoded(c.data),
            data_id_spec(c.data),
            now1,
            now2,
        );
    }
}

/// Law: sync updates are last-writer-wins. Applying update A and then
/// update B for the same entity id leaves the store exactly as applying B
/// alone would have, whatever timestamps either payload embeds.
pub proof fn lemma_sync_update_last_writer_wins(
    s: StoreModel,
    a: ChangeRecord,
    b: ChangeRecord,
    now1: i64,
    now2: i64,
)
    requires
        s.wf(),
        a.operation@ == "update"@,
        b.operation@ == "update"@,
        a.table@ == b.table@,
        decoded_key(a) is Some,
        decoded_key(b) == decoded_key(a),
    ensures
        apply_change(apply_change(s, a, now1), b, now2) == apply_change(s, b, now2),
{
    lemma_ops_distinct();
    lemma_tables_distinct();
    if a.table@ == "income_transaction"@ {
        let ra = income_decoded(a.data).unwrap();
        let rb = income_decoded(b.data).unwrap();
        lemma_update_last_writer_wins_table(
            s.income,
            ra,
            rb,
            data_id_spec(a.data),
            data_id_spec(b.data),
            now1,
            now2,
        );
    } else if a.table@ == "expense_voucher"@ {
        let ra = expense_decoded(a.data).unwrap();
        let rb = expense_decoded(b.data).unwrap();
        lemma_update_last_writer_wins_table(
            s.expense,
            ra,
            rb,
            data_id_spec(a.data),
            data_id_spec(b.data),
            now1,
            now2,
        );
    } else if a.table@ == "member"@ {
        let ra = member_decoded(a.data).unwrap();
        let rb = member_decoded(b.data).unwrap();
        lemma_update_last_writer_wins_table(
            s.members,
            ra,
            rb,
            data_id_spec(a.data),
            data_id_spec(b.data),
            now1,
            now2,
        );
    } else if a.table@ == "sacrament"@ {
        let ra = sacrament_decoded(a.data).unwrap();
        let rb = sacrament_decoded(b.data).unwrap();
        lemma_update_last_writer_wins_table(
            s.sacraments,
            ra,
            rb,
            data_id_spec(a.data),
            data_id_spec(b.data),
            now1,
            now2,
        );
    }
}

/// Law: a delete in a sync batch is soft. Afterwards the entity is absent
/// from every live read of its table, yet its row still exists there,
/// bit-for-bit unchanged, and no other row's liveness moves.
pub proof fn lemma_sync_delete_soft(s: StoreModel, c: ChangeRecord, id: u128, now: i64)
    requires
        s.wf(),
        c.operation@ == "delete"@,
        data_id_spec(c.data) == Some(id),
    ensures
        c.table@ == "income_transaction"@ && s.income.has_key(id) ==> ({
            let before = s.income;
            let after = apply_change(s, c, now).income;
            &&& after.wf()
            &&& after.rows == before.rows
            &&& after.has_key(id)
            &&& !after.live(id)
            &&& after.row_of(id) == before.row_of(id)
            &&& forall|other: u128|
                before.has_key(other) && other != id ==> #[trigger] after.live(other)
                    == before.live(other)
        }),
        c.table@ == "expense_voucher"@ && s.expense.has_key(id) ==> ({
            let before = s.expense;
            let after = apply_change(s, c, now).expense;
            &&& after.wf()
            &&& after.rows == before.rows
            &&& after.has_key(id)
            &&& !after.live(id)
            &&& after.row_of(id) == before.row_of(id)
            &&& forall|other: u128|
                before.has_key(other) && other != id ==> #[trigger] after.live(other)
                    == before.live(other)
        }),
        c.table@ == "member"@ && s.members.has_key(id) ==> ({
            let before = s.members;
            let after = apply_change(s, c, now).members;
            &&& after.wf()
            &&& after.rows == before.rows
            &&& after.has_key(id)
            &&& !after.live(id)
            &&& after.row_of(id) == before.row_of(id)
            &&& forall|other: u128|
                before.has_key(other) && other != id ==> #[trigger] after.live(other)
                    == before.live(other)
        }),
        c.table@ == "sacrament"@ && s.sacraments.has_key(id) ==> ({
            let before = s.sacraments;
            let after = apply_change(s, c, now).sacraments;
            &&& after.wf()
            &&& after.rows == before.rows
            &&& after.has_key(id)
            &&& !after.live(id)
            &&& after.row_of(id) == before.row_of(id)
            &&& forall|other: u128|
                before.has_key(other) && other != id ==> #[trigger] after.live(other)
                    == before.live(other)
        }),
{
    lemma_tables_distinct();
    if c.table@ == "income_transaction"@ && s.income.has_key(id) {
        lemma_delete_soft_table(s.income, income_decoded(c.data), id, now);
    } else if c.table@ == "expense_voucher"@ && s.expense.has_key(id) {
        lemma_delete_soft_table(s.expense, expense_decoded(c.data), id, now);
    } else if c.table@ == "member"@ && s.members.has_key(id) {
        lemma_delete_soft_table(s.members, member_decoded(c.data), id, now);
    } else if c.table@ == "sacrament"@ && s.sacraments.has_key(id) {
        lemma_delete_soft_table(s.sacraments, sacrament_decoded(c.data), id, now);
    }
}

/// Law: a change for an unknown table is a forward-compatible no-op — the
/// store is untouched and no diagnostic is produced, so the record still
/// counts toward `synced_count`.
pub proof fn lemma_sync_unknown_table(s: StoreModel, c: ChangeRecord, now: i64)
    requires
        !known_table(c.table@),
    ensures
        apply_change(s, c, now) == s,
        change_error(c) is None,
{
}

/// Law: an unknown operation on a known table touches nothing and produces
/// exactly its one diagnostic.
pub proof fn lemma_sync_unknown_operation(s: StoreModel, c: ChangeRecord, now: i64)
    requires
        c.operation@ != "insert"@,
        c.operation@ != "update"@,
        c.operation@ != "delete"@,
    ensures
        apply_change(s, c, now) == s,
        known_table(c.table@) ==> change_error(c) == Some("Unknown operation: "@ + c.operation@),
{
    lemma_tables_distinct();
}

/// Processing one more record is applying it to the state the batch so far
/// produced.
pub proof fn lemma_batch_apply_snoc(s: StoreModel, cs: Seq<ChangeRecord>, c: ChangeRecord, now: i64)
    ensures
        batch_apply(s, cs.push(c), now) == apply_change(batch_apply(s, cs, now), c, now),
    decreases cs.len(),
{
    let one = cs.push(c);
    if cs.len() == 0 {
        assert(one[0] == c);
        assert(one.drop_first() =~= Seq::<ChangeRecord>::empty());
        assert(batch_apply(s, one, now) == batch_apply(
            apply_change(s, c, now),
            one.drop_first(),
            now,
        ));
        assert(batch_apply(apply_change(s, c, now), one.drop_first(), now) == apply_change(
            s,
            c,
            now,
        ));
        assert(batch_apply(s, cs, now) == s);
    } else {
        assert(one[0] == cs[0]);
        assert(one.drop_first() =~= cs.drop_first().push(c));
        assert(batch_apply(s, one, now) == batch_apply(
            apply_change(s, cs[0], now),
            cs.drop_first().push(c),
            now,
        ));
        lemma_batch_apply_snoc(apply_change(s, cs[0], now), cs.drop_first(), c, now);
        assert(batch_apply(s, cs, now) == batch_apply(
            apply_change(s, cs[0], now),
            cs.drop_first(),
            now,
        ));
    }
}

/// One more record contributes its diagnostic, if any, at the end.
pub proof fn lemma_batch_errors_snoc(cs: Seq<ChangeRecord>, c: ChangeRecord)
    ensures
        batch_errors(cs.push(c)) == batch_errors(cs) + (match change_error(c) {
            Some(_) => seq![error_line(c)],
            None => Seq::<Seq<char>>::empty(),
        }),
    decreases cs.len(),
{
    let tail: Seq<Seq<char>> = match change_error(c) {
        Some(_) => seq![error_line(c)],
        None => Seq::<Seq<char>>::empty(),
    };
    let one = cs.push(c);
    if cs.len() == 0 {
        assert(one[0] == c);
        assert(one.drop_first() =~= Seq::<ChangeRecord>::empty());
        assert(batch_errors(one.drop_first()) == Seq::<Seq<char>>::empty());
        assert(batch_errors(one) =~= tail);
        assert(batch_errors(cs) == Seq::<Seq<char>>::empty());
        assert(batch_errors(cs) + tail =~= tail);
    } else {
        assert(one[0] == cs[0]);
        assert(one.drop_first() =~= cs.drop_first().push(c));
        lemma_batch_errors_snoc(cs.drop_first(), c);
        let head: Seq<Seq<char>> = match change_error(cs[0]) {
            Some(_) => seq![error_line(cs[0])],
            None => Seq::<Seq<char>>::empty(),
        };
        assert(batch_errors(one) == head + batch_errors(one.drop_first()));
        assert(batch_errors(cs) == head + batch_errors(cs.drop_first()));
        assert(batch_errors(one) =~= batch_errors(cs) + tail);
    }
}

/// Merges a batch of client changes into the server store: records are
/// processed strictly in the order supplied, each independently; a failing
/// record is reported in `errors` and does not block or roll back its
/// siblings. `synced_count` counts every record that hit no error path,
/// unknown-table skips included, and `status` is `success` exactly when
/// `errors` is empty.
pub fn sync_handler(store: &mut ServerStore, request: SyncRequest, now: i64) -> (r: SyncResponse)
    requires
        old(store).wf(),
    ensures
        final(store).wf(),
        final(store).model() == batch_apply(old(store).model(), request.changes@, now),
        r.errors@.map_values(|e: String| e@) == batch_errors(request.changes@),
        r.synced_count + r.errors@.len() == request.changes@.len(),
        r.status@ == (if batch_errors(request.changes@).len() == 0 {
            "success"@
        } else {
            "partial_success"@
        }),
{
    let SyncRequest { device_id: _, changes } = request;
    let ghost all: Seq<ChangeRecord> = changes@;
    let ghost init: StoreModel = store.model();
    let total: usize = changes.len();
    let mut rest = changes;
    let mut processed: usize = 0;
    let mut synced_count: usize = 0;
    let mut errors: Vec<String> = Vec::new();
    while rest.len() > 0
        invariant
            store.wf(),
            total == all.len(),
            0 <= processed <= total,
            rest@ == all.skip(processed as int),
            store.model() == batch_apply(init, all.take(processed as int), now),
            errors@.map_values(|e: String| e@) == batch_errors(all.take(processed as int)),
            synced_count + errors@.len() == processed,
        decreases rest@.len(),
    {
        let change = rest.remove(0);
        proof {
            assert(all.skip(processed as int)[0] == all[processed as int]);
            assert(all.skip(processed as int).remove(0) =~= all.skip(processed as int + 1));
        }
        let table_name = change.table.clone();
        let result: Result<(), String> = if str_eq(change.table.as_str(), "income_transaction") {
            handle_income_transaction(&mut store.income, change, now)
        } else if str_eq(change.table.as_str(), "expense_voucher") {
            handle_expense_voucher(&mut store.expense, change, now)
        } else if str_eq(change.table.as_str(), "member") {
            handle_member(&mut store.members, change, now)
        } else if str_eq(change.table.as_str(), "sacrament") {
            handle_sacrament(&mut store.sacraments, change, now)
        } else {
            Ok(())
        };
        proof {
            lemma_batch_apply_snoc(init, all.take(processed as int), all[processed as int], now);
            lemma_batch_errors_snoc(all.take(processed as int), all[processed as int]);
            assert(all.take(processed as int).push(all[processed as int]) =~= all.take(
                processed as int + 1,
            ));
        }
        match result {
            Ok(()) => {
                synced_count += 1;
                proof {
                    assert(errors@.map_values(|e: String| e@) =~= batch_errors(
                        all.take(processed as int + 1),
                    ));
                }
            },
            Err(e) => {
                let mut msg = String::from_str("Error processing change for ");
                msg.append(table_name.as_str());
                msg.append(": ");
                msg.append(e.as_str());
                errors.push(msg);
                proof {
                    assert(errors@.map_values(|e: String| e@) =~= batch_errors(
                        all.take(processed as int + 1),
                    ));
                }
            },
        }
        processed += 1;
    }
    proof {
        assert(all.take(total as int) =~= all);
    }
    let status = if errors.len() == 0 {
        String::from_str("success")
    } else {
        String::from_str("partial_success")
    };
    SyncResponse { status, synced_count, errors }
}

} // verus!
