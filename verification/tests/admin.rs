use lsl::admin::{
    add_section_request, database_failure, recalculate_ranks_request, recalculate_runs_request,
    update_section_request, ADD_SECTION, RECALCULATE_RANKS, RECALCULATE_RUNS,
};
use lsl::auth::{password_change, hash_password, User};
use lsl::query::{QueryPart, SqlArg};
use lsl::types::{ApiError, PasswordUpdate};

fn user_with(bytes: &[u8]) -> User {
    let mut u = User::default();
    u.permissions = bit_vec::BitVec::from_bytes(bytes);
    u
}

#[test]
fn recalculating_ranks_needs_manage_runs_and_a_combination() {
    let guest = User::default();
    let manager = user_with(&[0b0000_0100]);
    assert_eq!(recalculate_ranks_request(None, None, None), Err(ApiError::Unauthenticated));
    assert_eq!(recalculate_ranks_request(Some(&guest), None, None), Err(ApiError::Unauthorized));
    assert_eq!(recalculate_ranks_request(Some(&manager), Some("1".into()), None), Err(ApiError::InvalidInput));
    let q = recalculate_ranks_request(Some(&manager), Some("1".into()), Some("Standard".into())).unwrap();
    assert_eq!(
        q,
        vec![
            QueryPart::Sql(RECALCULATE_RANKS.to_string()),
            QueryPart::Bind(SqlArg::OptText(Some("1".into()))),
            QueryPart::Bind(SqlArg::OptText(Some("Standard".into())))
        ]
    );
    let combined = recalculate_ranks_request(Some(&manager), None, None).unwrap();
    assert_eq!(combined[1], QueryPart::Bind(SqlArg::OptText(None)));
}

#[test]
fn recalculating_runs_needs_manage_runs() {
    let manager = user_with(&[0b0000_0100]);
    assert_eq!(
        recalculate_runs_request(Some(&User::default()), "1".into(), "Standard".into(), "Ruins".into()),
        Err(ApiError::Unauthorized)
    );
    let q = recalculate_runs_request(Some(&manager), "1".into(), "Standard".into(), "Ruins".into()).unwrap();
    assert_eq!(q[0], QueryPart::Sql(RECALCULATE_RUNS.to_string()));
    assert_eq!(q[3], QueryPart::Bind(SqlArg::Text("Ruins".into())));
}

#[test]
fn sections_are_managed_by_administrators() {
    let admin = user_with(&[0, 0, 0, 0, 0, 0, 0, 1]);
    let manager = user_with(&[0b0000_0100]);
    assert_eq!(
        add_section_request(Some(&manager), "1".into(), "Standard".into(), "Ruins".into(), "ABCDE".into(), true),
        Err(ApiError::Unauthorized)
    );
    let q = add_section_request(Some(&admin), "1".into(), "Standard".into(), "Ruins".into(), "ABCDE".into(), true)
        .unwrap();
    assert_eq!(q.len(), 6);
    assert_eq!(q[0], QueryPart::Sql(ADD_SECTION.to_string()));
    assert_eq!(q[5], QueryPart::Bind(SqlArg::Bool(true)));
    assert_eq!(update_section_request(None, 1, Some(true), None), Err(ApiError::Unauthenticated));
    assert_eq!(update_section_request(Some(&admin), 1, None, None), Err(ApiError::InvalidInput));
    assert!(update_section_request(Some(&admin), 1, None, Some("Ruins".into())).is_ok());
}

#[test]
fn failed_statements() {
    assert_eq!(database_failure("update"), ApiError::ServerError("Database update failed".into()));
}

#[test]
fn password_changes() {
    let stored = hash_password(&"oldpassword".to_string()).unwrap();
    let ok = PasswordUpdate { old: "oldpassword".into(), new: "newpassword".into() };
    let fresh = password_change(&stored, &ok).unwrap();
    assert!(fresh.starts_with("$argon2"));
    let wrong = PasswordUpdate { old: "nope-nope".into(), new: "newpassword".into() };
    assert_eq!(password_change(&stored, &wrong), Err(ApiError::InvalidCredentials));
    let short = PasswordUpdate { old: "oldpassword".into(), new: "short".into() };
    assert_eq!(password_change(&stored, &short), Err(ApiError::InvalidCredentials));
    assert_eq!(
        password_change(&"garbage".to_string(), &ok),
        Err(ApiError::ServerError("Login failed: Failed to hash password".into()))
    );
}
