//! The errors that the routing service reports.

use vstd::prelude::*;
use vstd::string::StringExecFns;

use crate::polyline::error_message_spec;
use crate::text::{push_decimal, push_signed_decimal, signed_decimal_spec};

verus! {

/// `std::io::Error`, the error of storage access.
#[verifier::external_type_specification]
#[verifier::external_body]
pub struct ExIoError(std::io::Error);

/// `<std::io::Error as Display>`: the text of an I/O error. Nothing is
/// claimed of it: it depends on the operating system's messages.
#[verifier::external_body]
fn io_error_text(e: &std::io::Error) -> (r: String) {
    e.to_string()
}

/// An error of the routing service.
#[derive(Debug)]
pub enum Error {
    UnknownProfile(String),
    NoProfilesAvailable,
    NoRoute,
    NotFound(&'static str, i64),
    InvalidRequest(String),
    StorageError(std::io::Error),
    PolylineDecodingError(crate::polyline::Error),
}

/// The message of an error; for a storage error only its prefix, the I/O
/// error's own text following it.
pub open spec fn message_spec(e: Error) -> Seq<char> {
    match e {
        Error::UnknownProfile(p) => "The profile `"@ + p@ + "` is not known"@,
        Error::NoProfilesAvailable => "There are no profiles available"@,
        Error::NoRoute => "No route found between the given locations"@,
        Error::NotFound(kind, id) => kind@ + " "@ + signed_decimal_spec(id as int) + " not found"@,
        Error::InvalidRequest(m) => "Invalid request: "@ + m@,
        Error::StorageError(_) => "Storage error: "@,
        Error::PolylineDecodingError(p) => error_message_spec(p.0),
    }
}

impl Error {
    /// The message of the error. A storage error's message is
    /// `Storage error: ` followed by the I/O error's text.
    pub fn message(&self) -> (r: String)
        ensures
            self is StorageError ==> message_spec(*self).is_prefix_of(r@),
            !(self is StorageError) ==> r@ == message_spec(*self),
    {
        match self {
            Error::UnknownProfile(p) => String::from_str("The profile `").concat(p.as_str()).concat(
                "` is not known",
            ),
            Error::NoProfilesAvailable => String::from_str("There are no profiles available"),
            Error::NoRoute => String::from_str("No route found between the given locations"),
            Error::NotFound(kind, id) => {
                let mut s = String::from_str(kind);
                s.append(" ");
                push_signed_decimal(&mut s, *id);
                s.append(" not found");
                s
            },
            Error::InvalidRequest(m) => String::from_str("Invalid request: ").concat(m.as_str()),
            Error::StorageError(e) => {
                let text = io_error_text(e);
                let r = String::from_str("Storage error: ").concat(text.as_str());
                proof {
                    assert(message_spec(*self).is_prefix_of(r@)) by {
                        assert(r@.subrange(0, "Storage error: "@.len() as int) =~= "Storage error: "@);
                    }
                }
                r
            },
            Error::PolylineDecodingError(p) => p.message(),
        }
    }
}

} // verus!
