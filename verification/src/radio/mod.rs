//! Radio transport vocabulary shared by the backends.

pub mod framing;
pub mod stub;
pub mod uart;

use vstd::prelude::*;

verus! {

/// Errors from the radio backend.
#[derive(Debug)]
pub enum RadioError {
    /// The radio is not connected.
    NotConnected,
    /// An I/O error, with its description.
    Io(String),
    /// A backend feature that does not exist yet.
    NotImplemented(&'static str),
}

/// Frame bytes as exchanged with the LoRa coprocessor (TerraLink on-wire frames).
pub type WireFrame = Vec<u8>;

} // verus!
