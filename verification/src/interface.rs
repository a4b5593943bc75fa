//! The single-port client surface: one serial port, one action, and the
//! reading of the device's replies.
//!
//! The client binary does the port I/O; the functions here fix which frame
//! an action sends and what a reply slice means.

use vstd::prelude::*;

use crate::actuator;
use crate::sensor;
use crate::sensor::ResponseModel;

verus! {

/// What the client was asked to do and where.
pub struct Args {
    /// Path to the serial port.
    pub port: String,
    /// Which action to perform.
    pub action: Action,
}

/// An action to be performed on the device behind one port.
#[derive(Clone, Copy, Debug, PartialEq, Eq, Structural)]
pub enum Action {
    /// Query the value of the current event counter and reset it.
    GetCount,
    /// Request a number of edges at a period.
    Generate { rising_edges: u32, period_picos: u64 },
    /// Ask the device for its identity.
    GetDeviceId,
}

impl Action {
    /// The request this action sends.
    pub open spec fn spec_request(self) -> Seq<u8> {
        match self {
            Action::GetCount => sensor::Request::GetCount.spec_encode(),
            Action::Generate { rising_edges, period_picos } => (actuator::Request::Generate {
                rising_edges,
                period_picos,
            }).spec_encode(),
            Action::GetDeviceId => sensor::Request::WhoAreYou.spec_encode(),
        }
    }

    /// Encode the request frame this action sends.
    pub fn request_frame(&self) -> (r: Vec<u8>)
        ensures
            r@ == self.spec_request(),
    {
        match self {
            Action::GetCount => sensor::Request::GetCount.encode(),
            Action::Generate { rising_edges, period_picos } => (actuator::Request::Generate {
                rising_edges: *rising_edges,
                period_picos: *period_picos,
            }).encode(),
            Action::GetDeviceId => sensor::Request::WhoAreYou.encode(),
        }
    }
}

/// The count a reply slice carries, if it is a count reply.
pub fn count_from_reply(bytes: &[u8]) -> (r: Option<u32>)
    ensures
        ({
            match ResponseModel::spec_decode(bytes@) {
                Some(ResponseModel::Count(n)) => r == Some(n),
                _ => r is None,
            }
        }),
{
    match sensor::Response::decode(bytes) {
        Ok(sensor::Response::Count(n)) => Some(n),
        _ => None,
    }
}

/// The identity a reply slice carries, if it is an identity reply.
pub fn identity_from_reply(bytes: &[u8]) -> (r: Option<Vec<u8>>)
    ensures
        ({
            match ResponseModel::spec_decode(bytes@) {
                Some(ResponseModel::IAm(id)) => r matches Some(v) && v@ == id,
                _ => r is None,
            }
        }),
{
    match sensor::Response::decode(bytes) {
        Ok(sensor::Response::IAm(id)) => Some(id),
        _ => None,
    }
}

} // verus!
