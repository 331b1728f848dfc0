//! The error type of the library.
use vstd::prelude::*;

use crate::text::push_str;
use crate::text::string_of;

verus! {

/// Why an operation of the library was refused or failed.
#[derive(Debug, Clone, PartialEq, Eq)]
pub enum AppError {
    /// The permission mode of the knowledge space does not allow the operation.
    PermissionDenied(String),
    /// The local database could not be read or written.
    Storage(String),
    /// A local file could not be found, read or understood.
    Filesystem(String),
}

impl AppError {
    /// The detail text carried by the error.
    pub open spec fn detail(self) -> Seq<char> {
        match self {
            AppError::PermissionDenied(m) => m@,
            AppError::Storage(m) => m@,
            AppError::Filesystem(m) => m@,
        }
    }

    /// The label that precedes the detail in the user-facing message.
    pub open spec fn label(self) -> Seq<char> {
        match self {
            AppError::PermissionDenied(_) => "权限不足："@,
            AppError::Storage(_) => "本地存储错误："@,
            AppError::Filesystem(_) => "本地文件错误："@,
        }
    }

    /// The user-facing message: the variant's label followed by the detail.
    pub fn message(&self) -> (r: String)
        ensures
            r@ == self.label() + self.detail(),
    {
        let mut out: Vec<char> = Vec::new();
        match self {
            AppError::PermissionDenied(m) => {
                push_str(&mut out, "权限不足：");
                push_str(&mut out, m.as_str());
            },
            AppError::Storage(m) => {
                push_str(&mut out, "本地存储错误：");
                push_str(&mut out, m.as_str());
            },
            AppError::Filesystem(m) => {
                push_str(&mut out, "本地文件错误：");
                push_str(&mut out, m.as_str());
            },
        }
        string_of(out.as_slice())
    }
}

/// The error payload handed to the user interface.
#[derive(Debug, Clone, PartialEq, Eq)]
pub struct ErrorResponse {
    pub message: String,
}

/// The payload that carries an error's message.
pub fn error_response(error: &AppError) -> (r: ErrorResponse)
    ensures
        r.message@ == error.label() + error.detail(),
{
    ErrorResponse { message: error.message() }
}

} // verus!
