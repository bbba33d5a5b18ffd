//! The HTTP API's problem reports (RFC 7807 style) for service errors.

use vstd::prelude::*;

use crate::service::error::{message_spec, Error};

verus! {

/// A problem report: an HTTP status, a short title and the error's message.
pub struct Problem {
    pub status: u16,
    pub title: &'static str,
    pub detail: Option<String>,
}

/// The HTTP status and title that report an error.
pub open spec fn problem_kind(e: Error) -> (u16, Seq<char>) {
    match e {
        Error::UnknownProfile(_) => (404, "Unknown Profile"@),
        Error::NoProfilesAvailable => (400, "No Profiles Available"@),
        Error::NoRoute => (404, "No Route Found"@),
        Error::NotFound(_, _) => (404, "Not Found"@),
        Error::InvalidRequest(_) => (400, "Invalid Request"@),
        Error::StorageError(_) => (500, "Internal Storage Error"@),
        Error::PolylineDecodingError(_) => (500, "Polyline Decoding Error"@),
    }
}

impl Problem {
    /// The problem report of a service error: its status and title by kind,
    /// and its message as the detail.
    pub fn from(value: Error) -> (r: Self)
        ensures
            r.status == problem_kind(value).0,
            r.title@ == problem_kind(value).1,
            r.detail matches Some(d) && (if value is StorageError {
                message_spec(value).is_prefix_of(d@)
            } else {
                d@ == message_spec(value)
            }),
    {
        let detail = Some(value.message());
        match value {
            Error::UnknownProfile(_) => Problem { status: 404, title: "Unknown Profile", detail },
            Error::NoProfilesAvailable => Problem { status: 400, title: "No Profiles Available", detail },
            Error::NoRoute => Problem { status: 404, title: "No Route Found", detail },
            Error::NotFound(_, _) => Problem { status: 404, title: "Not Found", detail },
            Error::InvalidRequest(_) => Problem { status: 400, title: "Invalid Request", detail },
            Error::StorageError(_) => Problem { status: 500, title: "Internal Storage Error", detail },
            Error::PolylineDecodingError(_) => Problem { status: 500, title: "Polyline Decoding Error", detail },
        }
    }
}

} // verus!
