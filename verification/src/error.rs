//! The library's error type.

use vstd::prelude::*;

use crate::chars::{owned, push_str};

verus! {

/// Why a setting, a path or an image could not be worked out.
#[derive(Debug, Clone, PartialEq, Eq)]
pub enum AppError {
    /// A value given for the setting named `key` was rejected.
    InvalidValue { key: String, message: String },
    /// The config path could not be worked out.
    ConfigResolve(String),
    /// An image could not be produced or compared.
    RenderFailed(String),
}

/// The one-line description of an error.
pub open spec fn error_message(e: AppError) -> Seq<char> {
    match e {
        AppError::InvalidValue { key, message } => "invalid value for "@ + key@ + ": "@ + message@,
        AppError::ConfigResolve(message) => message@,
        AppError::RenderFailed(message) => message@,
    }
}

impl AppError {
    /// The one-line description shown to the user.
    pub fn message(&self) -> (s: String)
        ensures
            s@ == error_message(*self),
    {
        match self {
            AppError::InvalidValue { key, message } => {
                let mut s = owned("invalid value for ");
                push_str(&mut s, key.as_str());
                push_str(&mut s, ": ");
                push_str(&mut s, message.as_str());
                s
            },
            AppError::ConfigResolve(message) => owned(message.as_str()),
            AppError::RenderFailed(message) => owned(message.as_str()),
        }
    }
}

} // verus!
