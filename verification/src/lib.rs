//! Reference core of an edge-counting sensor / edge-generating actuator that
//! answers queries over a byte-oriented serial link.
//!
//! The crate models the whole device-side core: an event counter fed by edge
//! sources, a fixed-frame wire codec for requests and responses, a command
//! dispatcher that assembles frames byte by byte and executes them, and an
//! edge generator with a single-slot result handoff. Transport and pin I/O
//! are collaborators outside this crate; they exchange plain bytes and edge
//! notifications with the types defined here.

pub mod actuator;
pub mod arguments;
pub mod counter;
pub mod dispatcher;
pub mod edge;
pub mod error;
pub mod generator;
pub mod interface;
pub mod sensor;
