use vstd::prelude::*;

verus! {

/// Every failure the connector can report, from authentication to storage.
///
/// Variants that carry a `String` keep the human-readable detail the
/// original error source produced.
#[derive(Debug, Clone, PartialEq, Eq)]
pub enum AppError {
    Config(String),
    HmacValidation,
    MissingSignature,
    InvalidSignatureFormat,
    EventTypeNotFound,
    UnsupportedEvent(String),
    PrimaryKeyPathNotFound(String),
    PipelineSend,
    Processing(String),
    Database(String),
    JsonParse(String),
    Io(String),
    SecretNotFound(String),
}

impl AppError {
    /// The HTTP status that reports this error to a webhook caller.
    pub open spec fn spec_status_code(&self) -> u16 {
        match self {
            AppError::Config(_) => 500,
            AppError::HmacValidation => 401,
            AppError::MissingSignature => 400,
            AppError::InvalidSignatureFormat => 400,
            AppError::EventTypeNotFound => 400,
            AppError::UnsupportedEvent(_) => 400,
            AppError::PrimaryKeyPathNotFound(_) => 400,
            AppError::PipelineSend => 500,
            AppError::Processing(_) => 500,
            AppError::Database(_) => 500,
            AppError::JsonParse(_) => 400,
            AppError::Io(_) => 500,
            AppError::SecretNotFound(_) => 500,
        }
    }

    pub fn status_code(&self) -> (s: u16)
        ensures
            s == self.spec_status_code(),
    {
        match self {
            AppError::Config(_) => 500,
            AppError::HmacValidation => 401,
            AppError::MissingSignature => 400,
            AppError::InvalidSignatureFormat => 400,
            AppError::EventTypeNotFound => 400,
            AppError::UnsupportedEvent(_) => 400,
            AppError::PrimaryKeyPathNotFound(_) => 400,
            AppError::PipelineSend => 500,
            AppError::Processing(_) => 500,
            AppError::Database(_) => 500,
            AppError::JsonParse(_) => 400,
            AppError::Io(_) => 500,
            AppError::SecretNotFound(_) => 500,
        }
    }
}

} // verus!
