//! The failures that the service reports, each with the status it answers with.

use vstd::prelude::*;
use vstd::std_specs::convert::FromSpecImpl;
use vstd::string::StringExecFns;

verus! {

/// The request carried no valid token.
pub const UNAUTHORIZED: u16 = 401;

/// The principal is known but does not hold what the operation requires.
pub const FORBIDDEN: u16 = 403;

/// What the operation needs to exist does not.
pub const NOT_FOUND: u16 = 404;

/// A duplicate, or a store that is already set up.
pub const CONFLICT: u16 = 409;

/// A failure inside the service.
pub const INTERNAL_SERVER_ERROR: u16 = 500;

/// The status that an answer carries.
#[derive(Clone, Copy, Debug, PartialEq, Eq, Structural, Hash)]
pub struct Status {
    pub code: u16,
}

/// What went wrong in the store, as far as the answer depends on it.
#[derive(Clone, Copy, Debug, PartialEq, Eq, Structural, Hash)]
pub enum StorageFault {
    /// A query that must find a row found none.
    NoRows,
    /// A uniqueness or reference constraint refused the statement.
    Constraint,
    /// Anything else.
    Other,
}

/// The kinds of failure that the rules of the service distinguish.
#[derive(Clone, Copy, Debug, PartialEq, Eq, Structural, Hash)]
pub enum Failure {
    /// No token, or a token that resolves to nobody.
    Unauthenticated,
    /// Authenticated, but the permissions held do not suffice.
    Forbidden,
    /// A duplicate code, or a store that is already set up.
    Conflict,
    /// An invite or a user that the operation needs is missing.
    NotFound,
    /// The store refused the change to keep its data consistent.
    ConstraintViolation,
    /// Hashing a password failed.
    CredentialError,
    /// Any other failure inside the service.
    Internal,
}

/// A failure, as handed to the layer that answers the request.
#[derive(Debug, PartialEq, Eq)]
pub enum ApiError {
    /// The store failed; the status depends on how.
    RusqliteError((Status, String)),
    /// Hashing a password failed.
    HashError(String),
    /// Reading or writing a file failed.
    IoError(String),
    /// Rendering a document failed.
    SerdeError(String),
    /// The request asks for something that the service does not offer.
    Unsupported(String),
    /// A bare status.
    Status(Status),
}

/// The status that goes with a fault of the store.
pub open spec fn fault_status(fault: StorageFault) -> Status {
    match fault {
        StorageFault::NoRows => Status { code: NOT_FOUND },
        StorageFault::Constraint => Status { code: CONFLICT },
        StorageFault::Other => Status { code: INTERNAL_SERVER_ERROR },
    }
}

/// `e` is the error that the rules raise for the failure `f`: a bare status for the
/// failures of a request, the store's conflict for a broken constraint.
pub open spec fn denotes(e: ApiError, f: Failure) -> bool {
    match f {
        Failure::Unauthenticated => e.is_status(UNAUTHORIZED),
        Failure::Forbidden => e.is_status(FORBIDDEN),
        Failure::NotFound => e.is_status(NOT_FOUND),
        Failure::Conflict => e.is_status(CONFLICT),
        Failure::ConstraintViolation => e matches ApiError::RusqliteError(pair) && pair.0 == (Status {
            code: CONFLICT,
        }) && pair.1@ == "Rusqlite Error: constraint failed"@,
        Failure::CredentialError => e matches ApiError::HashError(message) && message@ == Seq::<char>::empty(),
        Failure::Internal => e.is_status(INTERNAL_SERVER_ERROR),
    }
}

/// The result `r` fails with the error for `expected`, or succeeds where nothing is
/// expected to fail.
pub open spec fn settles<T>(r: Result<T, ApiError>, expected: Option<Failure>) -> bool {
    match expected {
        Some(f) => r matches Err(e) && denotes(e, f),
        None => r is Ok,
    }
}

impl ApiError {
    /// The kind of the failure, by the status it carries.
    pub open spec fn spec_kind(&self) -> Failure {
        match self {
            ApiError::Status(status) => if status.code == UNAUTHORIZED {
                Failure::Unauthenticated
            } else if status.code == FORBIDDEN {
                Failure::Forbidden
            } else if status.code == NOT_FOUND {
                Failure::NotFound
            } else if status.code == CONFLICT {
                Failure::Conflict
            } else {
                Failure::Internal
            },
            ApiError::RusqliteError(pair) => if pair.0.code == NOT_FOUND {
                Failure::NotFound
            } else if pair.0.code == CONFLICT {
                Failure::ConstraintViolation
            } else {
                Failure::Internal
            },
            ApiError::HashError(_) => Failure::CredentialError,
            _ => Failure::Internal,
        }
    }

    /// The kind of the failure: a bare status by its code, a failure of the store by
    /// its status (a conflict there is a broken constraint), a failure of the hasher
    /// as a credential error, and everything else as internal.
    pub fn kind(&self) -> (r: Failure)
        ensures
            r == self.spec_kind(),
    {
        match self {
            ApiError::Status(status) => if status.code == UNAUTHORIZED {
                Failure::Unauthenticated
            } else if status.code == FORBIDDEN {
                Failure::Forbidden
            } else if status.code == NOT_FOUND {
                Failure::NotFound
            } else if status.code == CONFLICT {
                Failure::Conflict
            } else {
                Failure::Internal
            },
            ApiError::RusqliteError(pair) => if pair.0.code == NOT_FOUND {
                Failure::NotFound
            } else if pair.0.code == CONFLICT {
                Failure::ConstraintViolation
            } else {
                Failure::Internal
            },
            ApiError::HashError(_) => Failure::CredentialError,
            _ => Failure::Internal,
        }
    }

    /// The error that the rules raise for a failure of a request.
    pub fn refusal(f: Failure) -> (r: ApiError)
        ensures
            denotes(r, f),
            r.spec_kind() == f,
    {
        match f {
            Failure::Unauthenticated => ApiError::Status(Status { code: UNAUTHORIZED }),
            Failure::Forbidden => ApiError::Status(Status { code: FORBIDDEN }),
            Failure::NotFound => ApiError::Status(Status { code: NOT_FOUND }),
            Failure::Conflict => ApiError::Status(Status { code: CONFLICT }),
            Failure::ConstraintViolation => {
                proof {
                    reveal_strlit("Rusqlite Error: ");
                    reveal_strlit("constraint failed");
                    reveal_strlit("Rusqlite Error: constraint failed");
                    assert("Rusqlite Error: "@ + "constraint failed"@ =~= "Rusqlite Error: constraint failed"@);
                }
                ApiError::from_storage(StorageFault::Constraint, "constraint failed")
            },
            Failure::CredentialError => ApiError::HashError(String::new()),
            Failure::Internal => ApiError::Status(Status { code: INTERNAL_SERVER_ERROR }),
        }
    }

    /// The status that the failure answers with.
    pub open spec fn spec_status(&self) -> Status {
        match self {
            ApiError::RusqliteError(pair) => pair.0,
            ApiError::Status(status) => *status,
            _ => Status { code: INTERNAL_SERVER_ERROR },
        }
    }

    /// The failure is the bare status `code`.
    pub open spec fn is_status(&self, code: u16) -> bool {
        *self == ApiError::Status(Status { code })
    }

    /// The status that the failure answers with: the one it carries, and 500 for
    /// every failure that carries none.
    pub fn status(&self) -> (r: Status)
        ensures
            r == self.spec_status(),
    {
        match self {
            ApiError::RusqliteError(pair) => pair.0,
            ApiError::Status(status) => *status,
            _ => Status { code: INTERNAL_SERVER_ERROR },
        }
    }

    /// The failure for a fault of the store: the status follows the fault, and the
    /// message is `detail` behind a fixed prefix.
    pub fn from_storage(fault: StorageFault, detail: &str) -> (r: ApiError)
        ensures
            r matches ApiError::RusqliteError(pair) && pair.0 == fault_status(fault) && pair.1@
                == "Rusqlite Error: "@ + detail@,
    {
        let status = match fault {
            StorageFault::NoRows => Status { code: NOT_FOUND },
            StorageFault::Constraint => Status { code: CONFLICT },
            StorageFault::Other => Status { code: INTERNAL_SERVER_ERROR },
        };
        ApiError::RusqliteError((status, prefixed("Rusqlite Error: ", detail)))
    }
}

/// The error type of the SQLite binding.
#[verifier::external_type_specification]
#[verifier::external_body]
pub struct ExStorageError(rocket_sync_db_pools::rusqlite::Error);

/// The error type of the password hasher.
#[verifier::external_type_specification]
#[verifier::external_body]
pub struct ExHashError(bcrypt::BcryptError);

/// The error type of the JSON writer.
#[verifier::external_type_specification]
#[verifier::external_body]
pub struct ExJsonError(serde_json::Error);

/// The error type of the YAML writer.
#[verifier::external_type_specification]
#[verifier::external_body]
pub struct ExYamlError(serde_yaml::Error);

/// The error type of file operations.
#[verifier::external_type_specification]
#[verifier::external_body]
pub struct ExIoError(std::io::Error);

/// Tells the variants of `rusqlite::Error` apart: `QueryReturnedNoRows`, a
/// `SqliteFailure` whose code is `ConstraintViolation`, and the rest. Nothing is
/// claimed of the answer.
#[verifier::external_body]
fn storage_fault(e: &rocket_sync_db_pools::rusqlite::Error) -> StorageFault {
    match e {
        rocket_sync_db_pools::rusqlite::Error::QueryReturnedNoRows => StorageFault::NoRows,
        rocket_sync_db_pools::rusqlite::Error::SqliteFailure(failure, _)
            if failure.code == rocket_sync_db_pools::rusqlite::ErrorCode::ConstraintViolation
        => StorageFault::Constraint,
        _ => StorageFault::Other,
    }
}

/// Tells the variants of `bcrypt::BcryptError` apart: those that arise from reading
/// a digest, whose text may quote it, and those that arise from hashing. Nothing is
/// claimed of the answer.
#[verifier::external_body]
fn quotes_digest(e: &bcrypt::BcryptError) -> bool {
    match e {
        bcrypt::BcryptError::InvalidCost(_) => true,
        bcrypt::BcryptError::InvalidPrefix(_) => true,
        bcrypt::BcryptError::InvalidHash(_) => true,
        bcrypt::BcryptError::InvalidSaltLen(_) => true,
        bcrypt::BcryptError::InvalidBase64(_) => true,
        bcrypt::BcryptError::CostNotAllowed(_) => false,
        bcrypt::BcryptError::Io(_) => false,
        bcrypt::BcryptError::Rand(_) => false,
    }
}

/// The text that `rusqlite::Error` displays as. Nothing is claimed of it.
#[verifier::external_body]
fn storage_text(e: &rocket_sync_db_pools::rusqlite::Error) -> String {
    format!("{e}")
}

/// The text that `bcrypt::BcryptError` displays as. Nothing is claimed of it.
#[verifier::external_body]
fn hash_text(e: &bcrypt::BcryptError) -> String {
    format!("{e}")
}

/// The text that `serde_json::Error` displays as. Nothing is claimed of it.
#[verifier::external_body]
fn json_text(e: &serde_json::Error) -> String {
    format!("{e}")
}

/// The text that `serde_yaml::Error` displays as. Nothing is claimed of it.
#[verifier::external_body]
fn yaml_text(e: &serde_yaml::Error) -> String {
    format!("{e}")
}

/// The text that `std::io::Error` displays as. Nothing is claimed of it.
#[verifier::external_body]
fn io_text(e: &std::io::Error) -> String {
    format!("{e}")
}

/// `detail` behind `prefix`.
fn prefixed(prefix: &str, detail: &str) -> (r: String)
    ensures
        r@ == prefix@ + detail@,
{
    String::from_str(prefix).concat(detail)
}

impl From<Status> for ApiError {
    fn from(status: Status) -> (r: ApiError)
        ensures
            r == ApiError::Status(status),
    {
        ApiError::Status(status)
    }
}

impl FromSpecImpl<Status> for ApiError {
    open spec fn obeys_from_spec() -> bool {
        true
    }

    open spec fn from_spec(status: Status) -> ApiError {
        ApiError::Status(status)
    }
}

impl From<rocket_sync_db_pools::rusqlite::Error> for ApiError {
    /// A missing row answers 404, a refused constraint 409, anything else 500; the
    /// message is what the store reports, behind a fixed prefix.
    fn from(e: rocket_sync_db_pools::rusqlite::Error) -> (r: ApiError)
        ensures
            r matches ApiError::RusqliteError(pair) && (exists|fault: StorageFault| pair.0 == fault_status(fault))
                && "Rusqlite Error: "@.is_prefix_of(pair.1@),
    {
        let fault = storage_fault(&e);
        let detail = storage_text(&e);
        ApiError::from_storage(fault, detail.as_str())
    }
}

impl FromSpecImpl<rocket_sync_db_pools::rusqlite::Error> for ApiError {
    open spec fn obeys_from_spec() -> bool {
        false
    }

    open spec fn from_spec(e: rocket_sync_db_pools::rusqlite::Error) -> ApiError {
        arbitrary()
    }
}

impl From<bcrypt::BcryptError> for ApiError {
    /// The message is what the hasher reports, behind a fixed prefix. A report that
    /// may quote a stored digest is replaced by a fixed text: no message echoes a
    /// digest.
    fn from(e: bcrypt::BcryptError) -> (r: ApiError)
        ensures
            r matches ApiError::HashError(message) && "Hash Error: "@.is_prefix_of(message@),
    {
        if quotes_digest(&e) {
            ApiError::HashError(prefixed("Hash Error: ", "the stored digest cannot be read"))
        } else {
            let detail = hash_text(&e);
            ApiError::HashError(prefixed("Hash Error: ", detail.as_str()))
        }
    }
}

impl FromSpecImpl<bcrypt::BcryptError> for ApiError {
    open spec fn obeys_from_spec() -> bool {
        false
    }

    open spec fn from_spec(e: bcrypt::BcryptError) -> ApiError {
        arbitrary()
    }
}

impl From<std::io::Error> for ApiError {
    /// The message is what the system reports, behind a fixed prefix.
    fn from(e: std::io::Error) -> (r: ApiError)
        ensures
            r matches ApiError::IoError(message) && "IO Error: "@.is_prefix_of(message@),
    {
        let detail = io_text(&e);
        ApiError::IoError(prefixed("IO Error: ", detail.as_str()))
    }
}

impl FromSpecImpl<std::io::Error> for ApiError {
    open spec fn obeys_from_spec() -> bool {
        false
    }

    open spec fn from_spec(e: std::io::Error) -> ApiError {
        arbitrary()
    }
}

impl From<serde_json::Error> for ApiError {
    /// The message is what the JSON writer reports, behind a fixed prefix.
    fn from(e: serde_json::Error) -> (r: ApiError)
        ensures
            r matches ApiError::SerdeError(message) && "Serde JSON Error: "@.is_prefix_of(message@),
    {
        let detail = json_text(&e);
        ApiError::SerdeError(prefixed("Serde JSON Error: ", detail.as_str()))
    }
}

impl FromSpecImpl<serde_json::Error> for ApiError {
    open spec fn obeys_from_spec() -> bool {
        false
    }

    open spec fn from_spec(e: serde_json::Error) -> ApiError {
        arbitrary()
    }
}

impl From<serde_yaml::Error> for ApiError {
    /// The message is what the YAML writer reports, behind a fixed prefix.
    fn from(e: serde_yaml::Error) -> (r: ApiError)
        ensures
            r matches ApiError::SerdeError(message) && "Serde YAML Error: "@.is_prefix_of(message@),
    {
        let detail = yaml_text(&e);
        ApiError::SerdeError(prefixed("Serde YAML Error: ", detail.as_str()))
    }
}

impl FromSpecImpl<serde_yaml::Error> for ApiError {
    open spec fn obeys_from_spec() -> bool {
        false
    }

    open spec fn from_spec(e: serde_yaml::Error) -> ApiError {
        arbitrary()
    }
}

} // verus!
