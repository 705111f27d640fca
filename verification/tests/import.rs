use parish_core::auth::AuthUser;
use parish_core::errors::ApiError;
use parish_core::import::import_target_parish;
use parish_core::import::plan_member_import;
use parish_core::import::plan_transaction_import;
use parish_core::import::require_import;
use parish_core::import::validate_cluster_row;
use parish_core::import::validate_family_row;
use parish_core::import::validate_member_row;
use parish_core::import::validate_scc_row;
use parish_core::import::validate_transaction_row;
use parish_core::roles::UserRole;
use parish_core::transaction::PaymentMethod;
use parish_core::transaction::TransactionCategory;
use parish_core::upload::validate_upload;

fn row(cells: &[&str]) -> Vec<String> {
    cells.iter().map(|c| c.to_string()).collect()
}

#[test]
fn import_gate_rejects_viewer() {
    let viewer = AuthUser { user_id: 1, role: UserRole::Viewer, parish_id: Some(2) };
    match require_import(&viewer) {
        Err(ApiError::Forbidden(m)) => assert_eq!(m, "Unauthorized to import data"),
        _ => panic!("expected Forbidden"),
    }
    let sec = AuthUser { user_id: 1, role: UserRole::Secretary, parish_id: Some(2) };
    assert!(require_import(&sec).is_ok());
}

#[test]
fn import_parish_prefers_the_request() {
    let auth = AuthUser { user_id: 1, role: UserRole::Secretary, parish_id: Some(2) };
    assert_eq!(import_target_parish(&auth, Some(5)), Some(5));
    assert_eq!(import_target_parish(&auth, None), Some(2));
    let nobody = AuthUser { user_id: 1, role: UserRole::SuperAdmin, parish_id: None };
    assert_eq!(import_target_parish(&nobody, None), None);
}

#[test]
fn member_rows_need_both_names() {
    let ok = validate_member_row(&row(&["M-1", "Asha", "Mushi"]), 2).unwrap();
    assert_eq!(ok.member_code, "M-1");
    assert_eq!(ok.first_name, "Asha");
    assert_eq!(ok.last_name, "Mushi");
    let missing = validate_member_row(&row(&["M-2", "", "Mushi"]), 3).unwrap_err();
    assert_eq!(missing, "Row 3: Missing required names");
    let short = validate_member_row(&row(&["M-3"]), 4).unwrap_err();
    assert_eq!(short, "Row 4: Missing required names");
}

#[test]
fn member_plan_partitions_rows_in_order() {
    let rows = vec![
        row(&["M-1", "Asha", "Mushi"]),
        row(&["M-2", "", ""]),
        row(&["M-3", "Juma", "Kileo"]),
    ];
    let (inserts, errors) = plan_member_import(&rows);
    assert_eq!(inserts.len(), 2);
    assert_eq!(inserts[0].member_code, "M-1");
    assert_eq!(inserts[1].member_code, "M-3");
    assert_eq!(errors, vec!["Row 3: Missing required names".to_string()]);
}

#[test]
fn cluster_rows_need_a_name_and_collapse_blanks() {
    let ok = validate_cluster_row(&row(&["C-1", "St. Monica", "", "B. Temba"]), 2).unwrap();
    assert_eq!(ok.cluster_code, "C-1");
    assert_eq!(ok.location_description, None);
    assert_eq!(ok.leader_name, Some("B. Temba".to_string()));
    let bad = validate_cluster_row(&row(&["C-2", ""]), 5).unwrap_err();
    assert_eq!(bad, "Row 5: Missing cluster_name");
}

#[test]
fn scc_rows_need_a_name() {
    let ok = validate_scc_row(
        &row(&["S-1", "Mt. Carmel", "C-1", "", "A. Swai", "", "Tuesday", "17:00"]),
        2,
    )
    .unwrap();
    assert_eq!(ok.scc_name, "Mt. Carmel");
    assert_eq!(ok.cluster_code, Some("C-1".to_string()));
    assert_eq!(ok.patron_saint, None);
    assert_eq!(ok.meeting_day, Some("Tuesday".to_string()));
    let bad = validate_scc_row(&row(&["S-2", ""]), 7).unwrap_err();
    assert_eq!(bad, "Row 7: Missing scc_name");
}

#[test]
fn family_rows_need_a_name() {
    let ok = validate_family_row(
        &row(&["F-1", "Mushi family", "S-1", "", "0700000000", "", "note"]),
        2,
    )
    .unwrap();
    assert_eq!(ok.family_name, "Mushi family");
    assert_eq!(ok.scc_code, Some("S-1".to_string()));
    assert_eq!(ok.physical_address, None);
    assert_eq!(ok.notes, Some("note".to_string()));
    let bad = validate_family_row(&row(&["F-2", ""]), 9).unwrap_err();
    assert_eq!(bad, "Row 9: Missing family_name");
}

#[test]
fn transaction_row_parses_amount_and_date_exactly() {
    let ok = validate_transaction_row(
        &row(&["TITHE", "123.45", "CASH", "2024-02-29", "sunday offering"]),
        2,
    )
    .unwrap();
    assert_eq!(ok.category, TransactionCategory::Tithe);
    assert_eq!(ok.amount.mantissa, 12345);
    assert_eq!(ok.amount.scale, 2);
    assert_eq!(ok.payment_method, PaymentMethod::Cash);
    // 2024-02-29 is a valid leap day: days since the epoch.
    assert_eq!(ok.transaction_date, 19782);
    assert_eq!(ok.description, "sunday offering");
}

#[test]
fn transaction_row_rejects_bad_amount() {
    let bad = validate_transaction_row(&row(&["TITHE", "12x", "CASH", "2024-01-01", ""]), 2)
        .unwrap_err();
    assert_eq!(bad, "Row 2: Invalid amount: 12x");
}

#[test]
fn transaction_row_rejects_bad_date() {
    let bad = validate_transaction_row(&row(&["TITHE", "12", "CASH", "2023-02-29", ""]), 2)
        .unwrap_err();
    assert_eq!(bad, "Row 2: Invalid date: 2023-02-29");
}

#[test]
fn transaction_row_rejects_unknown_names() {
    let bad = validate_transaction_row(&row(&["BRIBE", "12", "CASH", "2023-02-28", ""]), 2)
        .unwrap_err();
    assert_eq!(bad, "Row 2: Invalid category: BRIBE");
    let bad = validate_transaction_row(&row(&["TITHE", "12", "GOLD", "2023-02-28", ""]), 2)
        .unwrap_err();
    assert_eq!(bad, "Row 2: Invalid payment method: GOLD");
}

#[test]
fn transaction_plan_partitions_rows_in_order() {
    let rows = vec![
        row(&["TITHE", "10.00", "CASH", "2024-01-07", "a"]),
        row(&["TITHE", "oops", "CASH", "2024-01-07", "b"]),
        row(&["DONATION", "250", "MPESA", "2024-01-08", "c"]),
    ];
    let (inserts, errors) = plan_transaction_import(&rows);
    assert_eq!(inserts.len(), 2);
    assert_eq!(inserts[0].amount.mantissa, 1000);
    assert_eq!(inserts[1].category, TransactionCategory::Donation);
    assert_eq!(errors, vec!["Row 3: Invalid amount: oops".to_string()]);
}

#[test]
fn upload_accepts_known_image_types_case_insensitively() {
    assert_eq!(validate_upload("photo.JPG", 100, false).unwrap(), "jpg");
    assert_eq!(validate_upload("logo.SvG", 100, true).unwrap(), "svg");
    assert!(validate_upload("photo.svg", 100, false).is_err());
    assert!(validate_upload("notes.txt", 100, true).is_err());
    match validate_upload("notes.txt", 100, false) {
        Err(ApiError::BadRequest(m)) => {
            assert_eq!(m, "Invalid file type. Allowed: jpg, jpeg, png, gif, webp")
        }
        _ => panic!("expected BadRequest"),
    }
}

#[test]
fn upload_rejects_oversized_files() {
    assert!(validate_upload("photo.png", 5 * 1024 * 1024, false).is_ok());
    match validate_upload("photo.png", 5 * 1024 * 1024 + 1, false) {
        Err(ApiError::BadRequest(m)) => assert_eq!(m, "File too large. Maximum size is 5MB"),
        _ => panic!("expected BadRequest"),
    }
}
