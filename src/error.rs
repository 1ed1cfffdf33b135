use vstd::prelude::*;

verus! {

/// Everything that an operation of this layer can fail with.
#[derive(Debug, Clone)]
pub enum Error {
    /// A call into the storage engine failed; holds its message.
    Database(String),
    DatabaseNotFound(String),
    TransactionNotFound(String),
    TransactionCompleted(String),
    InvalidParameter(String),
    Lock(String),
    Serialization(String),
    Io(String),
    ExtensionNotFound(String),
    ExtensionLoad(String),
    ForbiddenSql(String),
    PowerSyncNotInitialized,
}

pub type Result<T> = core::result::Result<T, Error>;

/// The human-readable message of an error.
pub open spec fn error_text(e: Error) -> Seq<char> {
    match e {
        Error::Database(m) => "Database error: "@ + m@,
        Error::DatabaseNotFound(m) => "Database not found: "@ + m@,
        Error::TransactionNotFound(m) => "Transaction not found: "@ + m@,
        Error::TransactionCompleted(m) => "Transaction already completed: "@ + m@,
        Error::InvalidParameter(m) => "Invalid parameter: "@ + m@,
        Error::Lock(m) => "Lock error: "@ + m@,
        Error::Serialization(m) => "Serialization error: "@ + m@,
        Error::Io(m) => "IO error: "@ + m@,
        Error::ExtensionNotFound(m) => "Extension not found: "@ + m@,
        Error::ExtensionLoad(m) => "Extension load error: "@ + m@,
        Error::ForbiddenSql(m) => "Forbidden SQL: "@ + m@,
        Error::PowerSyncNotInitialized => "PowerSync not initialized"@,
    }
}

fn prefixed(prefix: &str, m: &String) -> (r: String)
    ensures
        r@ == prefix@ + m@,
{
    let mut s = String::from_str(prefix);
    s.append(m.as_str());
    s
}

impl Error {
    /// The stable, human-readable message of this error.
    pub fn message(&self) -> (r: String)
        ensures
            r@ == error_text(*self),
    {
        match self {
            Error::Database(m) => prefixed("Database error: ", m),
            Error::DatabaseNotFound(m) => prefixed("Database not found: ", m),
            Error::TransactionNotFound(m) => prefixed("Transaction not found: ", m),
            Error::TransactionCompleted(m) => prefixed("Transaction already completed: ", m),
            Error::InvalidParameter(m) => prefixed("Invalid parameter: ", m),
            Error::Lock(m) => prefixed("Lock error: ", m),
            Error::Serialization(m) => prefixed("Serialization error: ", m),
            Error::Io(m) => prefixed("IO error: ", m),
            Error::ExtensionNotFound(m) => prefixed("Extension not found: ", m),
            Error::ExtensionLoad(m) => prefixed("Extension load error: ", m),
            Error::ForbiddenSql(m) => prefixed("Forbidden SQL: ", m),
            Error::PowerSyncNotInitialized => String::from_str("PowerSync not initialized"),
        }
    }
}

} // verus!
