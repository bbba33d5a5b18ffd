//! The service's status report.

use vstd::prelude::*;

verus! {

/// Status of the service
#[derive(Copy, Clone, Debug, PartialEq, Eq, Structural)]
pub enum ServiceStatus {
    /// The service is up and answering (reported as "ok").
    Alive,
}

impl Default for ServiceStatus {
    fn default() -> (r: Self)
        ensures
            r == ServiceStatus::Alive,
    {
        ServiceStatus::Alive
    }
}

/// Information about the service, such as the available profiles and the version.
pub struct InfoResponse {
    pub status: ServiceStatus,
    pub version: &'static str,
    pub profiles: Vec<String>,
}

} // verus!
