use lsl::types::{ApiError, Permissions, ServerFnFailure, Title};

#[test]
fn error_messages() {
    assert_eq!(ApiError::Unauthorized.message(), "Unauthorized");
    assert_eq!(ApiError::InvalidYtId.message(), "Invalid YouTube ID");
    assert_eq!(ApiError::NotFound.message(), "Not Found");
    assert_eq!(ApiError::ClientError("boom".into()).message(), "Client Error: boom");
    assert_eq!(ApiError::ServerError("db".into()).message(), "Server Error: db");
}

#[test]
fn error_names_read_back() {
    let plain = [
        ApiError::Unauthorized,
        ApiError::Unauthenticated,
        ApiError::InvalidInput,
        ApiError::InvalidCredentials,
        ApiError::InvalidSection,
        ApiError::InvalidYtId,
        ApiError::AlreadyExists,
        ApiError::NotFound,
    ];
    for e in plain {
        assert_eq!(ApiError::from_name(&e.message()), Some(e.clone()));
    }
    assert_eq!(ApiError::from_name("ClientError"), Some(ApiError::ClientError(String::new())));
    assert_eq!(ApiError::from_name("ServerError"), Some(ApiError::ServerError(String::new())));
    assert_eq!(ApiError::from_name("Teapot"), None);
    assert_eq!(ApiError::from_name("Client Error: x"), None);
}

#[test]
fn transport_failures_become_client_or_server_errors() {
    assert_eq!(
        ApiError::from_server_fn_error(ServerFnFailure::Request("r".into())),
        ApiError::ClientError("r".into())
    );
    assert_eq!(
        ApiError::from_server_fn_error(ServerFnFailure::Deserialization("d".into())),
        ApiError::ClientError("d".into())
    );
    assert_eq!(
        ApiError::from_server_fn_error(ServerFnFailure::MissingArg("m".into())),
        ApiError::ServerError("m".into())
    );
    assert_eq!(
        ApiError::from_server_fn_error(ServerFnFailure::Response("x".into())),
        ApiError::ServerError("x".into())
    );
}

#[test]
fn titles_are_ordered_and_named() {
    assert_eq!(Title::NoTitle.level(), 0);
    assert_eq!(Title::TopOne.level(), 6);
    assert!(Title::EpicSurfer.is_above(&Title::SuperSurfer));
    assert!(!Title::Surfer.is_above(&Title::Surfer));
    assert!(!Title::NoTitle.is_above(&Title::MythicSurfer));
    assert_eq!(Title::NoTitle.name(), "No Title");
    assert_eq!(Title::LegendarySurfer.name(), "Legendary Surfer");
    assert_eq!(Title::TopOne.name(), "Rank 1");
}

#[test]
fn permission_bits() {
    assert_eq!(Permissions::View.bit(), 0);
    assert_eq!(Permissions::ManageUsers.bit(), 7);
    assert_eq!(Permissions::Administrator.bit(), 63);
}
