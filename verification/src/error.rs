//! The crate's error taxonomy, with a rendering method in place of trait
//! formatting.

use vstd::prelude::*;
use vstd::string::*;

verus! {

/// Everything that can go wrong across the pipeline, each with a message.
#[derive(Debug)]
pub enum AppError {
    InvalidInput(String),
    IoError(String),
    LlmError(String),
    ParseError(String),
    DatabaseError(String),
    Internal(String),
    OpenAI(String),
    AwsS3(String),
    Database(String),
    HttpError(String),
    FileProcessingError(String),
    DataFrameError(String),
}

/// The rendering of an error: a fixed prefix naming the kind, then the
/// message.
pub open spec fn spec_error_message(e: AppError) -> Seq<char> {
    match e {
        AppError::HttpError(m) => "HTTP Error: "@ + m@,
        AppError::InvalidInput(m) => "Invalid input: "@ + m@,
        AppError::IoError(m) => "IO error: "@ + m@,
        AppError::LlmError(m) => "LLM error: "@ + m@,
        AppError::ParseError(m) => "Parse error: "@ + m@,
        AppError::DatabaseError(m) => "Database error: "@ + m@,
        AppError::Internal(m) => "Internal error: "@ + m@,
        AppError::OpenAI(m) => "OpenAI error: "@ + m@,
        AppError::AwsS3(m) => "AWS S3 error: "@ + m@,
        AppError::Database(m) => "Database error: "@ + m@,
        AppError::FileProcessingError(m) => "File processing error: "@ + m@,
        AppError::DataFrameError(m) => "DataFrame error: "@ + m@,
    }
}

/// The HTTP status paired with each error kind at the boundary:
/// client-caused conditions map to 400, service-unavailable conditions to
/// 503, and everything else to 500.
pub open spec fn spec_error_status(e: AppError) -> int {
    match e {
        AppError::HttpError(_) => 400,
        AppError::InvalidInput(_) => 400,
        AppError::ParseError(_) => 400,
        AppError::LlmError(_) => 503,
        AppError::OpenAI(_) => 503,
        AppError::AwsS3(_) => 503,
        AppError::IoError(_) => 500,
        AppError::DatabaseError(_) => 500,
        AppError::Internal(_) => 500,
        AppError::Database(_) => 500,
        AppError::FileProcessingError(_) => 500,
        AppError::DataFrameError(_) => 500,
    }
}

impl AppError {
    /// The HTTP status code this error maps to at the boundary.
    pub fn status_code(&self) -> (r: u16)
        ensures
            r == spec_error_status(*self),
    {
        match self {
            AppError::HttpError(_) => 400,
            AppError::InvalidInput(_) => 400,
            AppError::ParseError(_) => 400,
            AppError::LlmError(_) => 503,
            AppError::OpenAI(_) => 503,
            AppError::AwsS3(_) => 503,
            AppError::IoError(_) => 500,
            AppError::DatabaseError(_) => 500,
            AppError::Internal(_) => 500,
            AppError::Database(_) => 500,
            AppError::FileProcessingError(_) => 500,
            AppError::DataFrameError(_) => 500,
        }
    }

    /// Renders the error as one line of text.
    pub fn message(&self) -> (r: String)
        ensures
            r@ == spec_error_message(*self),
    {
        match self {
            AppError::HttpError(m) => {
                let mut s = String::from_str("HTTP Error: ");
                s.append(m.as_str());
                s
            },
            AppError::InvalidInput(m) => {
                let mut s = String::from_str("Invalid input: ");
                s.append(m.as_str());
                s
            },
            AppError::IoError(m) => {
                let mut s = String::from_str("IO error: ");
                s.append(m.as_str());
                s
            },
            AppError::LlmError(m) => {
                let mut s = String::from_str("LLM error: ");
                s.append(m.as_str());
                s
            },
            AppError::ParseError(m) => {
                let mut s = String::from_str("Parse error: ");
                s.append(m.as_str());
                s
            },
            AppError::DatabaseError(m) => {
                let mut s = String::from_str("Database error: ");
                s.append(m.as_str());
                s
            },
            AppError::Internal(m) => {
                let mut s = String::from_str("Internal error: ");
                s.append(m.as_str());
                s
            },
            AppError::OpenAI(m) => {
                let mut s = String::from_str("OpenAI error: ");
                s.append(m.as_str());
                s
            },
            AppError::AwsS3(m) => {
                let mut s = String::from_str("AWS S3 error: ");
                s.append(m.as_str());
                s
            },
            AppError::Database(m) => {
                let mut s = String::from_str("Database error: ");
                s.append(m.as_str());
                s
            },
            AppError::FileProcessingError(m) => {
                let mut s = String::from_str("File processing error: ");
                s.append(m.as_str());
                s
            },
            AppError::DataFrameError(m) => {
                let mut s = String::from_str("DataFrame error: ");
                s.append(m.as_str());
                s
            },
        }
    }
}

} // verus!
