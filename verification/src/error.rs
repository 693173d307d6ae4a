//! The pipeline's failure taxonomy. Every stage fails fast with the first
//! error it meets; each variant carries the context a user needs to act on
//! it (status code, the path specification as given, a transport message).

use vstd::prelude::*;
use crate::fmt::{decimal_string, spec_decimal};

verus! {

/// One failure of the upload pipeline.
#[derive(Debug, PartialEq, Eq)]
pub enum DarkError {
    /// The authentication probe returned a non-OK HTTP status; carries it.
    AuthFailure(u16),
    /// The probe response carried no `Set-Cookie` header.
    MissingSessionCookie,
    /// No CSRF token declaration was found in the probe response body.
    TokenExtractionFailure,
    /// The probe request failed at the transport level; carries the message.
    TransportFailure(String),
    /// No regular file was discovered; carries the path specification as given.
    NoFilesFound(String),
    /// A discovered path has no final component to use as a form field name.
    MissingFilename,
    /// The upload request failed; carries the underlying transport message.
    UploadFailure(String),
    /// A required input was not supplied; carries its name.
    MissingArgument(String),
}

/// The text that [`DarkError::describe`] renders for each error.
pub open spec fn spec_describe(e: DarkError) -> Seq<char> {
    match e {
        DarkError::AuthFailure(code) => "Failure to auth: "@ + spec_decimal(code as int),
        DarkError::MissingSessionCookie => "No Set-Cookie header received."@,
        DarkError::TokenExtractionFailure => "No CSRF token found in response body."@,
        DarkError::TransportFailure(msg) => "Transport failure: "@ + msg@,
        DarkError::NoFilesFound(given) => "No files found in "@ + given@ + "."@,
        DarkError::MissingFilename => "Missing filename."@,
        DarkError::UploadFailure(msg) => "Upload failure: "@ + msg@,
        DarkError::MissingArgument(name) => "Missing argument: "@ + name@,
    }
}

impl DarkError {
    /// Render this error, discriminant and embedded context, for display.
    pub fn describe(&self) -> (r: String)
        ensures
            r@ == spec_describe(*self),
    {
        match self {
            DarkError::AuthFailure(code) => {
                let r = String::from_str("Failure to auth: ").concat(
                    decimal_string(*code as u64).as_str(),
                );
                proof {
                    assert(r@ =~= spec_describe(*self));
                }
                r
            },
            DarkError::MissingSessionCookie => String::from_str(
                "No Set-Cookie header received.",
            ),
            DarkError::TokenExtractionFailure => String::from_str(
                "No CSRF token found in response body.",
            ),
            DarkError::TransportFailure(msg) => {
                let r = String::from_str("Transport failure: ").concat(msg.as_str());
                proof {
                    assert(r@ =~= spec_describe(*self));
                }
                r
            },
            DarkError::NoFilesFound(given) => {
                let r = String::from_str("No files found in ").concat(given.as_str()).concat(".");
                proof {
                    assert(r@ =~= spec_describe(*self));
                }
                r
            },
            DarkError::MissingFilename => String::from_str("Missing filename."),
            DarkError::UploadFailure(msg) => {
                let r = String::from_str("Upload failure: ").concat(msg.as_str());
                proof {
                    assert(r@ =~= spec_describe(*self));
                }
                r
            },
            DarkError::MissingArgument(name) => {
                let r = String::from_str("Missing argument: ").concat(name.as_str());
                proof {
                    assert(r@ =~= spec_describe(*self));
                }
                r
            },
        }
    }
}

} // verus!
