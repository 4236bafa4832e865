use rocket_sync_db_pools::rusqlite;
use tuna_server::error::{
    ApiError, Failure, Status, StorageFault, CONFLICT, FORBIDDEN, INTERNAL_SERVER_ERROR, NOT_FOUND, UNAUTHORIZED,
};

#[test]
fn status_codes_are_the_usual_ones() {
    assert_eq!((UNAUTHORIZED, FORBIDDEN, NOT_FOUND, CONFLICT, INTERNAL_SERVER_ERROR), (401, 403, 404, 409, 500));
}

#[test]
fn refusal_builds_the_error_of_each_failure() {
    assert_eq!(ApiError::refusal(Failure::Unauthenticated), ApiError::Status(Status { code: 401 }));
    assert_eq!(ApiError::refusal(Failure::Forbidden), ApiError::Status(Status { code: 403 }));
    assert_eq!(ApiError::refusal(Failure::NotFound), ApiError::Status(Status { code: 404 }));
    assert_eq!(ApiError::refusal(Failure::Conflict), ApiError::Status(Status { code: 409 }));
    assert_eq!(
        ApiError::refusal(Failure::ConstraintViolation),
        ApiError::RusqliteError((Status { code: 409 }, "Rusqlite Error: constraint failed".to_string()))
    );
    assert_eq!(ApiError::refusal(Failure::Internal), ApiError::Status(Status { code: 500 }));
    for failure in [
        Failure::Unauthenticated,
        Failure::Forbidden,
        Failure::NotFound,
        Failure::Conflict,
        Failure::ConstraintViolation,
        Failure::CredentialError,
        Failure::Internal,
    ] {
        assert_eq!(ApiError::refusal(failure).kind(), failure);
    }
}

#[test]
fn kind_and_status_follow_the_variant() {
    let cases = [
        (ApiError::Status(Status { code: 401 }), Failure::Unauthenticated, 401),
        (ApiError::Status(Status { code: 403 }), Failure::Forbidden, 403),
        (ApiError::Status(Status { code: 404 }), Failure::NotFound, 404),
        (ApiError::Status(Status { code: 409 }), Failure::Conflict, 409),
        (ApiError::Status(Status { code: 418 }), Failure::Internal, 418),
        (ApiError::RusqliteError((Status { code: 404 }, "m".to_string())), Failure::NotFound, 404),
        (ApiError::RusqliteError((Status { code: 409 }, "m".to_string())), Failure::ConstraintViolation, 409),
        (ApiError::RusqliteError((Status { code: 500 }, "m".to_string())), Failure::Internal, 500),
        (ApiError::HashError("m".to_string()), Failure::CredentialError, 500),
        (ApiError::IoError("m".to_string()), Failure::Internal, 500),
        (ApiError::SerdeError("m".to_string()), Failure::Internal, 500),
        (ApiError::Unsupported("m".to_string()), Failure::Internal, 500),
    ];
    for (error, kind, code) in cases {
        assert_eq!(error.kind(), kind);
        assert_eq!(error.status(), Status { code });
    }
}

#[test]
fn storage_faults_map_to_their_status() {
    assert_eq!(
        ApiError::from_storage(StorageFault::NoRows, "nothing"),
        ApiError::RusqliteError((Status { code: 404 }, "Rusqlite Error: nothing".to_string()))
    );
    assert_eq!(
        ApiError::from_storage(StorageFault::Constraint, "taken"),
        ApiError::RusqliteError((Status { code: 409 }, "Rusqlite Error: taken".to_string()))
    );
    assert_eq!(
        ApiError::from_storage(StorageFault::Other, ""),
        ApiError::RusqliteError((Status { code: 500 }, "Rusqlite Error: ".to_string()))
    );
}

#[test]
fn a_bare_status_converts_as_it_is() {
    assert_eq!(ApiError::from(Status { code: 403 }), ApiError::Status(Status { code: 403 }));
}

#[test]
fn store_errors_convert_by_their_variant() {
    assert_eq!(
        ApiError::from(rusqlite::Error::QueryReturnedNoRows),
        ApiError::RusqliteError((Status { code: 404 }, "Rusqlite Error: Query returned no rows".to_string()))
    );
    let constraint = rusqlite::Error::SqliteFailure(
        rusqlite::ffi::Error { code: rusqlite::ErrorCode::ConstraintViolation, extended_code: 2067 },
        Some("UNIQUE constraint failed: users.username".to_string()),
    );
    assert_eq!(
        ApiError::from(constraint),
        ApiError::RusqliteError((
            Status { code: 409 },
            "Rusqlite Error: UNIQUE constraint failed: users.username".to_string()
        ))
    );
    let busy = rusqlite::Error::SqliteFailure(
        rusqlite::ffi::Error { code: rusqlite::ErrorCode::DatabaseBusy, extended_code: 5 },
        Some("database is locked".to_string()),
    );
    assert_eq!(
        ApiError::from(busy),
        ApiError::RusqliteError((Status { code: 500 }, "Rusqlite Error: database is locked".to_string()))
    );
    assert_eq!(
        ApiError::from(rusqlite::Error::InvalidColumnName("permissions".to_string())),
        ApiError::RusqliteError((
            Status { code: 500 },
            "Rusqlite Error: Invalid column name: permissions".to_string()
        ))
    );
}

#[test]
fn hasher_errors_convert_without_the_digest() {
    let error = bcrypt::verify("password", "not a digest").unwrap_err();
    assert_eq!(error.to_string(), "Invalid hash: not a digest");
    assert_eq!(
        ApiError::from(error),
        ApiError::HashError("Hash Error: the stored digest cannot be read".to_string())
    );
    let error = bcrypt::verify("password", "$9z$12$L6Bc/AlTQHyd9liGgGEZyOFLPHNgyxeEPfgYfBCVxJ7JIlwxyVU3u").unwrap_err();
    assert_eq!(
        ApiError::from(error),
        ApiError::HashError("Hash Error: the stored digest cannot be read".to_string())
    );
    let error = bcrypt::hash("password", 3).unwrap_err();
    assert_eq!(
        ApiError::from(error),
        ApiError::HashError("Hash Error: Cost needs to be between 4 and 31, got 3".to_string())
    );
}

#[test]
fn file_errors_convert_with_their_text() {
    let error = std::io::Error::new(std::io::ErrorKind::NotFound, "no such track");
    assert_eq!(ApiError::from(error), ApiError::IoError("IO Error: no such track".to_string()));
}

#[test]
fn writer_errors_convert_with_their_text() {
    let json = serde_json::from_str::<serde_json::Value>("{").unwrap_err();
    let text = json.to_string();
    assert_eq!(ApiError::from(json), ApiError::SerdeError(format!("Serde JSON Error: {text}")));
    let yaml = serde_yaml::from_str::<serde_yaml::Value>("a: [").unwrap_err();
    let text = yaml.to_string();
    assert!(!text.is_empty());
    assert_eq!(ApiError::from(yaml), ApiError::SerdeError(format!("Serde YAML Error: {text}")));
}
