//! The state behind a health probe and what the probe answers from it.

use vstd::prelude::*;

verus! {

/// The health of a service.
#[derive(Debug, Clone)]
pub struct Health {
    pub status: String,
    pub connected: bool,
}

/// What the status says for a connection state.
pub open spec fn status_text(connected: bool) -> Seq<char> {
    if connected {
        "Healthy"@
    } else {
        "Unhealthy"@
    }
}

/// The HTTP status of the health endpoint: no content while connected,
/// service unavailable otherwise.
pub open spec fn health_status(connected: bool) -> u16 {
    if connected {
        204
    } else {
        503
    }
}

/// The HTTP status of the readiness endpoint.
pub open spec fn ready_status(connected: bool) -> u16 {
    if connected {
        200
    } else {
        503
    }
}

/// The body of the readiness endpoint.
pub open spec fn ready_text(connected: bool) -> Seq<char> {
    if connected {
        "Ready"@
    } else {
        "Not Ready"@
    }
}

impl Health {
    /// The health of a service that is starting: not connected yet.
    pub fn starting() -> (health: Health)
        ensures
            health.status@ == "Starting"@,
            !health.connected,
    {
        Health { status: String::from_str("Starting"), connected: false }
    }

    /// Records whether the service is connected.
    pub fn update(&mut self, connected: bool)
        ensures
            final(self).connected == connected,
            final(self).status@ == status_text(connected),
    {
        self.connected = connected;
        self.status = if connected {
            String::from_str("Healthy")
        } else {
            String::from_str("Unhealthy")
        };
    }

    /// The HTTP status with which the health endpoint answers.
    pub fn health_code(&self) -> (code: u16)
        ensures
            code == health_status(self.connected),
    {
        if self.connected {
            204
        } else {
            503
        }
    }

    /// The HTTP status and the body with which the readiness endpoint answers.
    pub fn readiness(&self) -> (answer: (u16, &'static str))
        ensures
            answer.0 == ready_status(self.connected),
            answer.1@ == ready_text(self.connected),
    {
        if self.connected {
            (200, "Ready")
        } else {
            (503, "Not Ready")
        }
    }
}

} // verus!
