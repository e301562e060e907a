use vstd::prelude::*;

verus! {

/// Errors that the application surfaces to its caller.
#[derive(Debug)]
pub enum AppError {
    Nostr(String),
    Storage(String),
    Database(String),
    Encryption(String),
    Network(String),
    InvalidInput(String),
    NotFound(String),
    Unauthorized(String),
    Internal(String),
    Key(String),
}

impl AppError {
    /// The error as shown to a user: its category, a colon, and its detail.
    pub fn message(&self) -> (r: String)
        ensures
            r@ == match self {
                AppError::Nostr(d) => "Nostr error: "@ + d@,
                AppError::Storage(d) => "Storage error: "@ + d@,
                AppError::Database(d) => "Database error: "@ + d@,
                AppError::Encryption(d) => "Encryption error: "@ + d@,
                AppError::Network(d) => "Network error: "@ + d@,
                AppError::InvalidInput(d) => "Invalid input: "@ + d@,
                AppError::NotFound(d) => "Not found: "@ + d@,
                AppError::Unauthorized(d) => "Unauthorized: "@ + d@,
                AppError::Internal(d) => "Internal error: "@ + d@,
                AppError::Key(d) => "Key error: "@ + d@,
            },
    {
        let (label, detail) = match self {
            AppError::Nostr(d) => ("Nostr error: ", d),
            AppError::Storage(d) => ("Storage error: ", d),
            AppError::Database(d) => ("Database error: ", d),
            AppError::Encryption(d) => ("Encryption error: ", d),
            AppError::Network(d) => ("Network error: ", d),
            AppError::InvalidInput(d) => ("Invalid input: ", d),
            AppError::NotFound(d) => ("Not found: ", d),
            AppError::Unauthorized(d) => ("Unauthorized: ", d),
            AppError::Internal(d) => ("Internal error: ", d),
            AppError::Key(d) => ("Key error: ", d),
        };
        label.to_owned().concat(detail.as_str())
    }
}

} // verus!
