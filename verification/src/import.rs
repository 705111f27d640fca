//! Bulk import: the row-level rules of the CSV/XLSX importers. Reading a
//! file into rows of cells is an adapter's job; everything after — the
//! role gate, the parish fallback, per-row validation, the planned insert
//! of each valid row and the per-row diagnostics — is decided here.
//!
//! Row numbers in diagnostics count from 2: line 1 of the file is the
//! header.

use vstd::prelude::*;
use vstd::string::StringExecFns;

use crate::auth::AuthUser;
use crate::errors::ApiError;
use crate::roles::UserRole;
use crate::text::opt_view;
use crate::text::spec_u64_string;
use crate::text::u64_to_string;
use crate::transaction::spec_category_from_name;
use crate::transaction::spec_payment_from_name;
use crate::transaction::category_from_name;
use crate::transaction::payment_from_name;
use crate::transaction::DecimalValue;
use crate::transaction::PaymentMethod;
use crate::transaction::TransactionCategory;

verus! {

/// The outcome of a bulk import: how many rows were accepted and the
/// diagnostics of those that were not.
pub struct ImportResponse {
    pub success_count: usize,
    pub errors: Vec<String>,
}

/// Every role but `Viewer` may import data.
pub fn require_import(auth: &AuthUser) -> (r: Result<(), ApiError>)
    ensures
        r matches Ok(()) <==> auth.role.is_write_capable(),
        r matches Err(e) ==> (e matches ApiError::Forbidden(m) && m@
            == "Unauthorized to import data"@),
{
    match auth.role {
        UserRole::Viewer => Err(ApiError::Forbidden(String::from_str("Unauthorized to import data"))),
        _ => Ok(()),
    }
}

/// The parish an import lands in: the one named in the request, else the
/// caller's own.
pub fn import_target_parish(auth: &AuthUser, requested: Option<u128>) -> (r: Option<u128>)
    ensures
        r == (if requested is Some {
            requested
        } else {
            auth.parish_id
        }),
{
    match requested {
        Some(p) => Some(p),
        None => auth.parish_id,
    }
}

/// The decimal value of an amount cell, if it parses: mantissa and scale.
pub uninterp spec fn decimal_of(s: Seq<char>) -> Option<(i128, u32)>;

/// Relies on rust_decimal's `FromStr`: a pure function of the text.
#[verifier::external_body]
fn parse_decimal(s: &str) -> (r: Option<DecimalValue>)
    ensures
        match r {
            Some(d) => decimal_of(s@) == Some((d.mantissa, d.scale)),
            None => decimal_of(s@) is None,
        },
{
    match s.parse::<rust_decimal::Decimal>() {
        Ok(d) => Some(DecimalValue { mantissa: d.mantissa(), scale: d.scale() }),
        Err(_) => None,
    }
}

/// The epoch day number of a `%Y-%m-%d` date cell, if it parses.
pub uninterp spec fn iso_date_of(s: Seq<char>) -> Option<i64>;

/// Relies on chrono's NaiveDate::parse_from_str with the `%Y-%m-%d`
/// format: a pure function of the text.
#[verifier::external_body]
fn parse_iso_date(s: &str) -> (r: Option<i64>)
    ensures
        r == iso_date_of(s@),
{
    match chrono::NaiveDate::parse_from_str(s, "%Y-%m-%d") {
        Ok(d) => {
            let epoch = chrono::NaiveDate::from_ymd_opt(1970, 1, 1).unwrap();
            Some((d - epoch).num_days())
        },
        Err(_) => None,
    }
}

/// The cell at a position, an empty string where the row is short.
pub open spec fn spec_cell(row: Seq<String>, i: int) -> Seq<char> {
    if 0 <= i < row.len() {
        row[i]@
    } else {
        Seq::<char>::empty()
    }
}

fn cell(row: &Vec<String>, i: usize) -> (r: String)
    ensures
        r@ == spec_cell(row@, i as int),
{
    if i < row.len() {
        row[i].clone()
    } else {
        String::new()
    }
}

/// The cell at a position with empty collapsed to absent, as the store's
/// `NULLIF(value, '')` does.
pub open spec fn spec_opt_cell(row: Seq<String>, i: int) -> Option<Seq<char>> {
    if spec_cell(row, i).len() == 0 {
        None
    } else {
        Some(spec_cell(row, i))
    }
}

fn opt_cell(row: &Vec<String>, i: usize) -> (r: Option<String>)
    ensures
        match r {
            Some(s) => spec_opt_cell(row@, i as int) == Some(s@),
            None => spec_opt_cell(row@, i as int) is None,
        },
{
    let c = cell(row, i);
    if c.as_str().unicode_len() == 0 {
        None
    } else {
        Some(c)
    }
}

/// A row diagnostic: `Row <number>: <detail>`.
pub open spec fn spec_row_error(number: u64, detail: Seq<char>) -> Seq<char> {
    "Row "@ + spec_u64_string(number) + ": "@ + detail
}

fn row_message(number: u64, detail: &str) -> (r: String)
    ensures
        r@ == spec_row_error(number, detail@),
{
    let mut m = String::from_str("Row ");
    let digits = u64_to_string(number);
    m.append(digits.as_str());
    m.append(": ");
    m.append(detail);
    m
}

// --- Members: member_code, first_name, last_name ---

/// One valid member import row.
#[derive(Debug)]
pub struct MemberImportRow {
    pub member_code: String,
    pub first_name: String,
    pub last_name: String,
}

pub open spec fn member_row_view(m: MemberImportRow) -> (Seq<char>, Seq<char>, Seq<char>) {
    (m.member_code@, m.first_name@, m.last_name@)
}

/// A member row must carry both names.
pub open spec fn member_row_ok(row: Seq<String>) -> bool {
    spec_cell(row, 1).len() > 0 && spec_cell(row, 2).len() > 0
}

/// Checks one member row.
pub fn validate_member_row(row: &Vec<String>, number: u64) -> (r: Result<MemberImportRow, String>)
    ensures
        match r {
            Ok(m) => member_row_ok(row@) && member_row_view(m) == (
                spec_cell(row@, 0),
                spec_cell(row@, 1),
                spec_cell(row@, 2),
            ),
            Err(e) => !member_row_ok(row@) && e@ == spec_row_error(
                number,
                "Missing required names"@,
            ),
        },
{
    let member_code = cell(row, 0);
    let first_name = cell(row, 1);
    let last_name = cell(row, 2);
    if first_name.as_str().unicode_len() == 0 || last_name.as_str().unicode_len() == 0 {
        return Err(row_message(number, "Missing required names"));
    }
    Ok(MemberImportRow { member_code, first_name, last_name })
}

/// The accepted rows and the diagnostics of a member import, in file
/// order.
pub open spec fn member_plan_spec(rows: Seq<Vec<String>>) -> (
    Seq<(Seq<char>, Seq<char>, Seq<char>)>,
    Seq<Seq<char>>,
)
    decreases rows.len(),
{
    if rows.len() == 0 {
        (Seq::<(Seq<char>, Seq<char>, Seq<char>)>::empty(), Seq::<Seq<char>>::empty())
    } else {
        let prev = member_plan_spec(rows.drop_last());
        let row = rows.last()@;
        let number = (rows.len() + 1) as u64;
        if member_row_ok(row) {
            (prev.0.push((spec_cell(row, 0), spec_cell(row, 1), spec_cell(row, 2))), prev.1)
        } else {
            (prev.0, prev.1.push(spec_row_error(number, "Missing required names"@)))
        }
    }
}

/// Validates every row of a member import: the valid rows become planned
/// inserts, the invalid ones diagnostics, one outcome per row.
pub fn plan_member_import(rows: &Vec<Vec<String>>) -> (r: (Vec<MemberImportRow>, Vec<String>))
    requires
        rows@.len() + 1 < u64::MAX,
    ensures
        r.0@.map_values(|m: MemberImportRow| member_row_view(m)) == member_plan_spec(rows@).0,
        r.1@.map_values(|e: String| e@) == member_plan_spec(rows@).1,
        r.0@.len() + r.1@.len() == rows@.len(),
{
    let n = rows.len();
    let mut inserts: Vec<MemberImportRow> = Vec::new();
    let mut errors: Vec<String> = Vec::new();
    proof {
        assert(rows@.take(0) =~= Seq::<Vec<String>>::empty());
        assert(inserts@.map_values(|m: MemberImportRow| member_row_view(m)) =~= member_plan_spec(
            rows@.take(0),
        ).0);
        assert(errors@.map_values(|e: String| e@) =~= member_plan_spec(rows@.take(0)).1);
    }
    let mut i: usize = 0;
    while i < n
        invariant
            n == rows@.len(),
            n + 1 < u64::MAX,
            0 <= i <= n,
            inserts@.map_values(|m: MemberImportRow| member_row_view(m)) == member_plan_spec(
                rows@.take(i as int),
            ).0,
            errors@.map_values(|e: String| e@) == member_plan_spec(rows@.take(i as int)).1,
            inserts@.len() + errors@.len() == i,
        decreases n - i,
    {
        let number = (i as u64) + 2;
        proof {
            assert(rows@.take(i + 1).drop_last() =~= rows@.take(i as int));
            assert(rows@.take(i + 1).last() == rows@[i as int]);
        }
        match validate_member_row(&rows[i], number) {
            Ok(m) => {
                inserts.push(m);
                proof {
                    assert(inserts@.map_values(|m: MemberImportRow| member_row_view(m))
                        =~= member_plan_spec(rows@.take(i + 1)).0);
                }
            },
            Err(e) => {
                errors.push(e);
                proof {
                    assert(errors@.map_values(|e: String| e@) =~= member_plan_spec(
                        rows@.take(i + 1),
                    ).1);
                }
            },
        }
        i += 1;
    }
    proof {
        assert(rows@.take(n as int) =~= rows@);
    }
    (inserts, errors)
}

// --- Clusters: cluster_code, cluster_name, location_description, leader_name ---

/// One valid cluster import row; empty optional cells are absent.
#[derive(Debug)]
pub struct ClusterImportRow {
    pub cluster_code: String,
    pub cluster_name: String,
    pub location_description: Option<String>,
    pub leader_name: Option<String>,
}

pub open spec fn cluster_row_view(c: ClusterImportRow) -> (
    Seq<char>,
    Seq<char>,
    Option<Seq<char>>,
    Option<Seq<char>>,
) {
    (
        c.cluster_code@,
        c.cluster_name@,
        match c.location_description {
            Some(s) => Some(s@),
            None => None,
        },
        match c.leader_name {
            Some(s) => Some(s@),
            None => None,
        },
    )
}

/// A cluster row must carry the cluster name.
pub open spec fn cluster_row_ok(row: Seq<String>) -> bool {
    spec_cell(row, 1).len() > 0
}

/// Checks one cluster row.
pub fn validate_cluster_row(row: &Vec<String>, number: u64) -> (r: Result<ClusterImportRow, String>)
    ensures
        match r {
            Ok(c) => cluster_row_ok(row@) && cluster_row_view(c) == (
                spec_cell(row@, 0),
                spec_cell(row@, 1),
                spec_opt_cell(row@, 2),
                spec_opt_cell(row@, 3),
            ),
            Err(e) => !cluster_row_ok(row@) && e@ == spec_row_error(
                number,
                "Missing cluster_name"@,
            ),
        },
{
    let cluster_code = cell(row, 0);
    let cluster_name = cell(row, 1);
    if cluster_name.as_str().unicode_len() == 0 {
        return Err(row_message(number, "Missing cluster_name"));
    }
    let location_description = opt_cell(row, 2);
    let leader_name = opt_cell(row, 3);
    Ok(ClusterImportRow { cluster_code, cluster_name, location_description, leader_name })
}

pub open spec fn cluster_plan_spec(rows: Seq<Vec<String>>) -> (
    Seq<(Seq<char>, Seq<char>, Option<Seq<char>>, Option<Seq<char>>)>,
    Seq<Seq<char>>,
)
    decreases rows.len(),
{
    if rows.len() == 0 {
        (
            Seq::<(Seq<char>, Seq<char>, Option<Seq<char>>, Option<Seq<char>>)>::empty(),
            Seq::<Seq<char>>::empty(),
        )
    } else {
        let prev = cluster_plan_spec(rows.drop_last());
        let row = rows.last()@;
        let number = (rows.len() + 1) as u64;
        if cluster_row_ok(row) {
            (
                prev.0.push(
                    (spec_cell(row, 0), spec_cell(row, 1), spec_opt_cell(row, 2), spec_opt_cell(
                        row,
                        3,
                    )),
                ),
                prev.1,
            )
        } else {
            (prev.0, prev.1.push(spec_row_error(number, "Missing cluster_name"@)))
        }
    }
}

/// Validates every row of a cluster import: the valid rows become planned
/// inserts, the invalid ones diagnostics, one outcome per row.
pub fn plan_cluster_import(rows: &Vec<Vec<String>>) -> (r: (Vec<ClusterImportRow>, Vec<String>))
    requires
        rows@.len() + 1 < u64::MAX,
    ensures
        r.0@.map_values(|c: ClusterImportRow| cluster_row_view(c)) == cluster_plan_spec(rows@).0,
        r.1@.map_values(|e: String| e@) == cluster_plan_spec(rows@).1,
        r.0@.len() + r.1@.len() == rows@.len(),
{
    let n = rows.len();
    let mut inserts: Vec<ClusterImportRow> = Vec::new();
    let mut errors: Vec<String> = Vec::new();
    proof {
        assert(rows@.take(0) =~= Seq::<Vec<String>>::empty());
        assert(inserts@.map_values(|c: ClusterImportRow| cluster_row_view(c)) =~= cluster_plan_spec(
            rows@.take(0),
        ).0);
        assert(errors@.map_values(|e: String| e@) =~= cluster_plan_spec(rows@.take(0)).1);
    }
    let mut i: usize = 0;
    while i < n
        invariant
            n == rows@.len(),
            n + 1 < u64::MAX,
            0 <= i <= n,
            inserts@.map_values(|c: ClusterImportRow| cluster_row_view(c)) == cluster_plan_spec(
                rows@.take(i as int),
            ).0,
            errors@.map_values(|e: String| e@) == cluster_plan_spec(rows@.take(i as int)).1,
            inserts@.len() + errors@.len() == i,
        decreases n - i,
    {
        let number = (i as u64) + 2;
        proof {
            assert(rows@.take(i + 1).drop_last() =~= rows@.take(i as int));
            assert(rows@.take(i + 1).last() == rows@[i as int]);
        }
        match validate_cluster_row(&rows[i], number) {
            Ok(c) => {
                inserts.push(c);
                proof {
                    assert(inserts@.map_values(|c: ClusterImportRow| cluster_row_view(c))
                        =~= cluster_plan_spec(rows@.take(i + 1)).0);
                }
            },
            Err(e) => {
                errors.push(e);
                proof {
                    assert(errors@.map_values(|e: String| e@) =~= cluster_plan_spec(
                        rows@.take(i + 1),
                    ).1);
                }
            },
        }
        i += 1;
    }
    proof {
        assert(rows@.take(n as int) =~= rows@);
    }
    (inserts, errors)
}

// --- Small Christian communities: scc_code, scc_name, cluster_code,
// patron_saint, leader_name, location_description, meeting_day,
// meeting_time ---

/// One valid community import row; the cluster code, where present, is
/// resolved to a cluster by the store, not here.
#[derive(Debug)]
pub struct SccImportRow {
    pub scc_code: String,
    pub scc_name: String,
    pub cluster_code: Option<String>,
    pub patron_saint: Option<String>,
    pub leader_name: Option<String>,
    pub location_description: Option<String>,
    pub meeting_day: Option<String>,
    pub meeting_time: Option<String>,
}

/// A community row must carry the community name.
pub open spec fn scc_row_ok(row: Seq<String>) -> bool {
    spec_cell(row, 1).len() > 0
}

/// Checks one community row.
pub fn validate_scc_row(row: &Vec<String>, number: u64) -> (r: Result<SccImportRow, String>)
    ensures
        match r {
            Ok(c) => {
                &&& scc_row_ok(row@)
                &&& c.scc_code@ == spec_cell(row@, 0)
                &&& c.scc_name@ == spec_cell(row@, 1)
                &&& (match c.cluster_code {
                    Some(s) => spec_opt_cell(row@, 2) == Some(s@),
                    None => spec_opt_cell(row@, 2) is None,
                })
                &&& (match c.patron_saint {
                    Some(s) => spec_opt_cell(row@, 3) == Some(s@),
                    None => spec_opt_cell(row@, 3) is None,
                })
                &&& (match c.leader_name {
                    Some(s) => spec_opt_cell(row@, 4) == Some(s@),
                    None => spec_opt_cell(row@, 4) is None,
                })
                &&& (match c.location_description {
                    Some(s) => spec_opt_cell(row@, 5) == Some(s@),
                    None => spec_opt_cell(row@, 5) is None,
                })
                &&& (match c.meeting_day {
                    Some(s) => spec_opt_cell(row@, 6) == Some(s@),
                    None => spec_opt_cell(row@, 6) is None,
                })
                &&& (match c.meeting_time {
                    Some(s) => spec_opt_cell(row@, 7) == Some(s@),
                    None => spec_opt_cell(row@, 7) is None,
                })
            },
            Err(e) => !scc_row_ok(row@) && e@ == spec_row_error(number, "Missing scc_name"@),
        },
{
    let scc_code = cell(row, 0);
    let scc_name = cell(row, 1);
    if scc_name.as_str().unicode_len() == 0 {
        return Err(row_message(number, "Missing scc_name"));
    }
    Ok(
        SccImportRow {
            scc_code,
            scc_name,
            cluster_code: opt_cell(row, 2),
            patron_saint: opt_cell(row, 3),
            leader_name: opt_cell(row, 4),
            location_description: opt_cell(row, 5),
            meeting_day: opt_cell(row, 6),
            meeting_time: opt_cell(row, 7),
        },
    )
}

pub open spec fn scc_row_view(c: SccImportRow) -> (
    Seq<char>,
    Seq<char>,
    Option<Seq<char>>,
    Option<Seq<char>>,
    Option<Seq<char>>,
    Option<Seq<char>>,
    Option<Seq<char>>,
    Option<Seq<char>>,
) {
    (
        c.scc_code@,
        c.scc_name@,
        opt_view(c.cluster_code),
        opt_view(c.patron_saint),
        opt_view(c.leader_name),
        opt_view(c.location_description),
        opt_view(c.meeting_day),
        opt_view(c.meeting_time),
    )
}

pub open spec fn scc_plan_spec(rows: Seq<Vec<String>>) -> (
    Seq<
        (
            Seq<char>,
            Seq<char>,
            Option<Seq<char>>,
            Option<Seq<char>>,
            Option<Seq<char>>,
            Option<Seq<char>>,
            Option<Seq<char>>,
            Option<Seq<char>>,
        ),
    >,
    Seq<Seq<char>>,
)
    decreases rows.len(),
{
    if rows.len() == 0 {
        (
            Seq::<
                (
                    Seq<char>,
                    Seq<char>,
                    Option<Seq<char>>,
                    Option<Seq<char>>,
                    Option<Seq<char>>,
                    Option<Seq<char>>,
                    Option<Seq<char>>,
                    Option<Seq<char>>,
                ),
            >::empty(),
            Seq::<Seq<char>>::empty(),
        )
    } else {
        let prev = scc_plan_spec(rows.drop_last());
        let row = rows.last()@;
        let number = (rows.len() + 1) as u64;
        if scc_row_ok(row) {
            (
                prev.0.push(
                    (
                        spec_cell(row, 0),
                        spec_cell(row, 1),
                        spec_opt_cell(row, 2),
                        spec_opt_cell(row, 3),
                        spec_opt_cell(row, 4),
                        spec_opt_cell(row, 5),
                        spec_opt_cell(row, 6),
                        spec_opt_cell(row, 7),
                    ),
                ),
                prev.1,
            )
        } else {
            (prev.0, prev.1.push(spec_row_error(number, "Missing scc_name"@)))
        }
    }
}

/// Validates every row of a community import: the valid rows become
/// planned inserts, the invalid ones diagnostics, one outcome per row.
pub fn plan_scc_import(rows: &Vec<Vec<String>>) -> (r: (Vec<SccImportRow>, Vec<String>))
    requires
        rows@.len() + 1 < u64::MAX,
    ensures
        r.0@.map_values(|c: SccImportRow| scc_row_view(c)) == scc_plan_spec(rows@).0,
        r.1@.map_values(|e: String| e@) == scc_plan_spec(rows@).1,
        r.0@.len() + r.1@.len() == rows@.len(),
{
    let n = rows.len();
    let mut inserts: Vec<SccImportRow> = Vec::new();
    let mut errors: Vec<String> = Vec::new();
    proof {
        assert(rows@.take(0) =~= Seq::<Vec<String>>::empty());
        assert(inserts@.map_values(|c: SccImportRow| scc_row_view(c)) =~= scc_plan_spec(
            rows@.take(0),
        ).0);
        assert(errors@.map_values(|e: String| e@) =~= scc_plan_spec(rows@.take(0)).1);
    }
    let mut i: usize = 0;
    while i < n
        invariant
            n == rows@.len(),
            n + 1 < u64::MAX,
            0 <= i <= n,
            inserts@.map_values(|c: SccImportRow| scc_row_view(c)) == scc_plan_spec(
                rows@.take(i as int),
            ).0,
            errors@.map_values(|e: String| e@) == scc_plan_spec(rows@.take(i as int)).1,
            inserts@.len() + errors@.len() == i,
        decreases n - i,
    {
        let number = (i as u64) + 2;
        proof {
            assert(rows@.take(i + 1).drop_last() =~= rows@.take(i as int));
            assert(rows@.take(i + 1).last() == rows@[i as int]);
        }
        match validate_scc_row(&rows[i], number) {
            Ok(c) => {
                inserts.push(c);
                proof {
                    assert(inserts@.map_values(|c: SccImportRow| scc_row_view(c)) =~= scc_plan_spec(
                        rows@.take(i + 1),
                    ).0);
                }
            },
            Err(e) => {
                errors.push(e);
                proof {
                    assert(errors@.map_values(|e: String| e@) =~= scc_plan_spec(rows@.take(i + 1)).1);
                }
            },
        }
        i += 1;
    }
    proof {
        assert(rows@.take(n as int) =~= rows@);
    }
    (inserts, errors)
}

// --- Families: family_code, family_name, scc_code, physical_address,
// primary_phone, email, notes ---

/// One valid family import row; the community code, where present, is
/// resolved by the store, not here.
#[derive(Debug)]
pub struct FamilyImportRow {
    pub family_code: String,
    pub family_name: String,
    pub scc_code: Option<String>,
    pub physical_address: Option<String>,
    pub primary_phone: Option<String>,
    pub email: Option<String>,
    pub notes: Option<String>,
}

/// A family row must carry the family name.
pub open spec fn family_row_ok(row: Seq<String>) -> bool {
    spec_cell(row, 1).len() > 0
}

/// Checks one family row.
pub fn validate_family_row(row: &Vec<String>, number: u64) -> (r: Result<FamilyImportRow, String>)
    ensures
        match r {
            Ok(c) => {
                &&& family_row_ok(row@)
                &&& c.family_code@ == spec_cell(row@, 0)
                &&& c.family_name@ == spec_cell(row@, 1)
                &&& (match c.scc_code {
                    Some(s) => spec_opt_cell(row@, 2) == Some(s@),
                    None => spec_opt_cell(row@, 2) is None,
                })
                &&& (match c.physical_address {
                    Some(s) => spec_opt_cell(row@, 3) == Some(s@),
                    None => spec_opt_cell(row@, 3) is None,
                })
                &&& (match c.primary_phone {
                    Some(s) => spec_opt_cell(row@, 4) == Some(s@),
                    None => spec_opt_cell(row@, 4) is None,
                })
                &&& (match c.email {
                    Some(s) => spec_opt_cell(row@, 5) == Some(s@),
                    None => spec_opt_cell(row@, 5) is None,
                })
                &&& (match c.notes {
                    Some(s) => spec_opt_cell(row@, 6) == Some(s@),
                    None => spec_opt_cell(row@, 6) is None,
                })
            },
            Err(e) => !family_row_ok(row@) && e@ == spec_row_error(number, "Missing family_name"@),
        },
{
    let family_code = cell(row, 0);
    let family_name = cell(row, 1);
    if family_name.as_str().unicode_len() == 0 {
        return Err(row_message(number, "Missing family_name"));
    }
    Ok(
        FamilyImportRow {
            family_code,
            family_name,
            scc_code: opt_cell(row, 2),
            physical_address: opt_cell(row, 3),
            primary_phone: opt_cell(row, 4),
            email: opt_cell(row, 5),
            notes: opt_cell(row, 6),
        },
    )
}

pub open spec fn family_row_view(c: FamilyImportRow) -> (
    Seq<char>,
    Seq<char>,
    Option<Seq<char>>,
    Option<Seq<char>>,
    Option<Seq<char>>,
    Option<Seq<char>>,
    Option<Seq<char>>,
) {
    (
        c.family_code@,
        c.family_name@,
        opt_view(c.scc_code),
        opt_view(c.physical_address),
        opt_view(c.primary_phone),
        opt_view(c.email),
        opt_view(c.notes),
    )
}

pub open spec fn family_plan_spec(rows: Seq<Vec<String>>) -> (
    Seq<
        (
            Seq<char>,
            Seq<char>,
            Option<Seq<char>>,
            Option<Seq<char>>,
            Option<Seq<char>>,
            Option<Seq<char>>,
            Option<Seq<char>>,
        ),
    >,
    Seq<Seq<char>>,
)
    decreases rows.len(),
{
    if rows.len() == 0 {
        (
            Seq::<
                (
                    Seq<char>,
                    Seq<char>,
                    Option<Seq<char>>,
                    Option<Seq<char>>,
                    Option<Seq<char>>,
                    Option<Seq<char>>,
                    Option<Seq<char>>,
                ),
            >::empty(),
            Seq::<Seq<char>>::empty(),
        )
    } else {
        let prev = family_plan_spec(rows.drop_last());
        let row = rows.last()@;
        let number = (rows.len() + 1) as u64;
        if family_row_ok(row) {
            (
                prev.0.push(
                    (
                        spec_cell(row, 0),
                        spec_cell(row, 1),
                        spec_opt_cell(row, 2),
                        spec_opt_cell(row, 3),
                        spec_opt_cell(row, 4),
                        spec_opt_cell(row, 5),
                        spec_opt_cell(row, 6),
                    ),
                ),
                prev.1,
            )
        } else {
            (prev.0, prev.1.push(spec_row_error(number, "Missing family_name"@)))
        }
    }
}

/// Validates every row of a family import: the valid rows become planned
/// inserts, the invalid ones diagnostics, one outcome per row.
pub fn plan_family_import(rows: &Vec<Vec<String>>) -> (r: (Vec<FamilyImportRow>, Vec<String>))
    requires
        rows@.len() + 1 < u64::MAX,
    ensures
        r.0@.map_values(|c: FamilyImportRow| family_row_view(c)) == family_plan_spec(rows@).0,
        r.1@.map_values(|e: String| e@) == family_plan_spec(rows@).1,
        r.0@.len() + r.1@.len() == rows@.len(),
{
    let n = rows.len();
    let mut inserts: Vec<FamilyImportRow> = Vec::new();
    let mut errors: Vec<String> = Vec::new();
    proof {
        assert(rows@.take(0) =~= Seq::<Vec<String>>::empty());
        assert(inserts@.map_values(|c: FamilyImportRow| family_row_view(c)) =~= family_plan_spec(
            rows@.take(0),
        ).0);
        assert(errors@.map_values(|e: String| e@) =~= family_plan_spec(rows@.take(0)).1);
    }
    let mut i: usize = 0;
    while i < n
        invariant
            n == rows@.len(),
            n + 1 < u64::MAX,
            0 <= i <= n,
            inserts@.map_values(|c: FamilyImportRow| family_row_view(c)) == family_plan_spec(
                rows@.take(i as int),
            ).0,
            errors@.map_values(|e: String| e@) == family_plan_spec(rows@.take(i as int)).1,
            inserts@.len() + errors@.len() == i,
        decreases n - i,
    {
        let number = (i as u64) + 2;
        proof {
            assert(rows@.take(i + 1).drop_last() =~= rows@.take(i as int));
            assert(rows@.take(i + 1).last() == rows@[i as int]);
        }
        match validate_family_row(&rows[i], number) {
            Ok(c) => {
                inserts.push(c);
                proof {
                    assert(inserts@.map_values(|c: FamilyImportRow| family_row_view(c))
                        =~= family_plan_spec(rows@.take(i + 1)).0);
                }
            },
            Err(e) => {
                errors.push(e);
                proof {
                    assert(errors@.map_values(|e: String| e@) =~= family_plan_spec(
                        rows@.take(i + 1),
                    ).1);
                }
            },
        }
        i += 1;
    }
    proof {
        assert(rows@.take(n as int) =~= rows@);
    }
    (inserts, errors)
}

// --- Income transactions: category, amount, payment_method, date,
// description ---

/// One valid transaction import row.
#[derive(Debug)]
pub struct TransactionImportRow {
    pub category: TransactionCategory,
    pub amount: DecimalValue,
    pub payment_method: PaymentMethod,
    /// Epoch day number.
    pub transaction_date: i64,
    pub description: String,
}

pub open spec fn txn_row_view(t: TransactionImportRow) -> (
    TransactionCategory,
    DecimalValue,
    PaymentMethod,
    i64,
    Seq<char>,
) {
    (t.category, t.amount, t.payment_method, t.transaction_date, t.description@)
}

/// The outcome of one transaction row: the amount must be a decimal, the
/// date a calendar date, and category and payment method known names; the
/// first failure decides the diagnostic.
pub open spec fn txn_row_outcome(row: Seq<String>, number: u64) -> Result<
    (TransactionCategory, DecimalValue, PaymentMethod, i64, Seq<char>),
    Seq<char>,
> {
    match decimal_of(spec_cell(row, 1)) {
        None => Err(spec_row_error(number, "Invalid amount: "@ + spec_cell(row, 1))),
        Some(amount) => match iso_date_of(spec_cell(row, 3)) {
            None => Err(spec_row_error(number, "Invalid date: "@ + spec_cell(row, 3))),
            Some(date) => match spec_category_from_name(spec_cell(row, 0)) {
                None => Err(spec_row_error(number, "Invalid category: "@ + spec_cell(row, 0))),
                Some(category) => match spec_payment_from_name(spec_cell(row, 2)) {
                    None => Err(
                        spec_row_error(number, "Invalid payment method: "@ + spec_cell(row, 2)),
                    ),
                    Some(payment) => Ok(
                        (
                            category,
                            DecimalValue { mantissa: amount.0, scale: amount.1 },
                            payment,
                            date,
                            spec_cell(row, 4),
                        ),
                    ),
                },
            },
        },
    }
}

/// Checks one transaction row.
pub fn validate_transaction_row(row: &Vec<String>, number: u64) -> (r: Result<
    TransactionImportRow,
    String,
>)
    ensures
        match r {
            Ok(t) => txn_row_outcome(row@, number) == Ok::<_, Seq<char>>(txn_row_view(t)),
            Err(e) => txn_row_outcome(row@, number) == Err::<
                (TransactionCategory, DecimalValue, PaymentMethod, i64, Seq<char>),
                _,
            >(e@),
        },
{
    let amount_s = cell(row, 1);
    let amount = match parse_decimal(amount_s.as_str()) {
        Some(a) => a,
        None => {
            let mut detail = String::from_str("Invalid amount: ");
            detail.append(amount_s.as_str());
            return Err(row_message(number, detail.as_str()));
        },
    };
    let date_s = cell(row, 3);
    let date = match parse_iso_date(date_s.as_str()) {
        Some(d) => d,
        None => {
            let mut detail = String::from_str("Invalid date: ");
            detail.append(date_s.as_str());
            return Err(row_message(number, detail.as_str()));
        },
    };
    let category_s = cell(row, 0);
    let category = match category_from_name(category_s.as_str()) {
        Some(c) => c,
        None => {
            let mut detail = String::from_str("Invalid category: ");
            detail.append(category_s.as_str());
            return Err(row_message(number, detail.as_str()));
        },
    };
    let payment_s = cell(row, 2);
    let payment_method = match payment_from_name(payment_s.as_str()) {
        Some(p) => p,
        None => {
            let mut detail = String::from_str("Invalid payment method: ");
            detail.append(payment_s.as_str());
            return Err(row_message(number, detail.as_str()));
        },
    };
    let description = cell(row, 4);
    Ok(TransactionImportRow { category, amount, payment_method, transaction_date: date, description })
}

/// The accepted rows and the diagnostics of a transaction import, in file
/// order.
pub open spec fn txn_plan_spec(rows: Seq<Vec<String>>) -> (
    Seq<(TransactionCategory, DecimalValue, PaymentMethod, i64, Seq<char>)>,
    Seq<Seq<char>>,
)
    decreases rows.len(),
{
    if rows.len() == 0 {
        (
            Seq::<(TransactionCategory, DecimalValue, PaymentMethod, i64, Seq<char>)>::empty(),
            Seq::<Seq<char>>::empty(),
        )
    } else {
        let prev = txn_plan_spec(rows.drop_last());
        let number = (rows.len() + 1) as u64;
        match txn_row_outcome(rows.last()@, number) {
            Ok(t) => (prev.0.push(t), prev.1),
            Err(e) => (prev.0, prev.1.push(e)),
        }
    }
}

/// Validates every row of a transaction import: the valid rows become
/// planned inserts, the invalid ones diagnostics, one outcome per row.
pub fn plan_transaction_import(rows: &Vec<Vec<String>>) -> (r: (
    Vec<TransactionImportRow>,
    Vec<String>,
))
    requires
        rows@.len() + 1 < u64::MAX,
    ensures
        r.0@.map_values(|t: TransactionImportRow| txn_row_view(t)) == txn_plan_spec(rows@).0,
        r.1@.map_values(|e: String| e@) == txn_plan_spec(rows@).1,
        r.0@.len() + r.1@.len() == rows@.len(),
{
    let n = rows.len();
    let mut inserts: Vec<TransactionImportRow> = Vec::new();
    let mut errors: Vec<String> = Vec::new();
    proof {
        assert(rows@.take(0) =~= Seq::<Vec<String>>::empty());
        assert(inserts@.map_values(|t: TransactionImportRow| txn_row_view(t)) =~= txn_plan_spec(
            rows@.take(0),
        ).0);
        assert(errors@.map_values(|e: String| e@) =~= txn_plan_spec(rows@.take(0)).1);
    }
    let mut i: usize = 0;
    while i < n
        invariant
            n == rows@.len(),
            n + 1 < u64::MAX,
            0 <= i <= n,
            inserts@.map_values(|t: TransactionImportRow| txn_row_view(t)) == txn_plan_spec(
                rows@.take(i as int),
            ).0,
            errors@.map_values(|e: String| e@) == txn_plan_spec(rows@.take(i as int)).1,
            inserts@.len() + errors@.len() == i,
        decreases n - i,
    {
        let number = (i as u64) + 2;
        proof {
            assert(rows@.take(i + 1).drop_last() =~= rows@.take(i as int));
            assert(rows@.take(i + 1).last() == rows@[i as int]);
        }
        match validate_transaction_row(&rows[i], number) {
            Ok(t) => {
                inserts.push(t);
                proof {
                    assert(inserts@.map_values(|t: TransactionImportRow| txn_row_view(t))
                        =~= txn_plan_spec(rows@.take(i + 1)).0);
                }
            },
            Err(e) => {
                errors.push(e);
                proof {
                    assert(errors@.map_values(|e: String| e@) =~= txn_plan_spec(rows@.take(i + 1)).1);
                }
            },
        }
        i += 1;
    }
    proof {
        assert(rows@.take(n as int) =~= rows@);
    }
    (inserts, errors)
}

} // verus!
