//! What the host client is asked to do, as plain values, and the request
//! frame each action is sent as.
//!
//! Argument parsing itself lives with the client binary; it hands over
//! these types and takes frames back, so the mapping from an action to the
//! bytes on the wire is part of the verified core.

use vstd::prelude::*;

use crate::actuator;
use crate::sensor;

verus! {

/// Interaction with the target sensor or actuator hardware.
pub struct Args {
    /// Which action to perform.
    pub action: Action,
}

/// An action to be performed by the client.
pub enum Action {
    /// Query the value of the current event counter and reset it, on each
    /// named serial port.
    GetCount { port: Vec<String> },
    /// Request a number of edges at a period from the device on one port.
    Generate { port: String, rising_edges: u32, period_picos: u64 },
}

impl Action {
    /// The request this action sends to each device it addresses.
    pub open spec fn spec_request(self) -> Seq<u8> {
        match self {
            Action::GetCount { .. } => sensor::Request::GetCount.spec_encode(),
            Action::Generate { rising_edges, period_picos, .. } => (actuator::Request::Generate {
                rising_edges,
                period_picos,
            }).spec_encode(),
        }
    }

    /// Encode the request frame this action sends.
    pub fn request_frame(&self) -> (r: Vec<u8>)
        ensures
            r@ == self.spec_request(),
    {
        match self {
            Action::GetCount { .. } => sensor::Request::GetCount.encode(),
            Action::Generate { rising_edges, period_picos, .. } => (actuator::Request::Generate {
                rising_edges: *rising_edges,
                period_picos: *period_picos,
            }).encode(),
        }
    }
}

} // verus!
