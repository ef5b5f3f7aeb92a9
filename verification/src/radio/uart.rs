//! UART / USB-serial radio coprocessor backend (not implemented yet).

use vstd::prelude::*;

use super::{RadioError, WireFrame};

verus! {

/// Placeholder for a future serial-attached LoRa coprocessor.
pub struct UartRadio {
    device: String,
    baud: u32,
}

/// What a send or receive on the UART backend answers for now.
pub open spec fn uart_not_implemented() -> Seq<char> {
    "UART radio: open serial and speak coprocessor framing"@
}

impl UartRadio {
    /// A backend for the serial device `device` at `baud` bits per second.
    pub fn new(device: String, baud: u32) -> (r: Self)
        ensures
            r.device()@ == device@,
            r.baud() == baud,
    {
        UartRadio { device, baud }
    }

    /// The serial device path.
    pub closed spec fn device(&self) -> String {
        self.device
    }

    /// The configured baud rate.
    pub closed spec fn baud(&self) -> u32 {
        self.baud
    }

    /// Human-readable backend name.
    pub fn name(&self) -> (s: &'static str)
        ensures
            s@ == "uart"@,
    {
        "uart"
    }

    /// Sending is not implemented yet.
    pub fn send(&self, frame: &[u8]) -> (r: Result<(), RadioError>)
        ensures
            r matches Err(RadioError::NotImplemented(m)) && m@ == uart_not_implemented(),
    {
        Err(RadioError::NotImplemented("UART radio: open serial and speak coprocessor framing"))
    }

    /// Receiving is not implemented yet.
    pub fn recv(&self) -> (r: Result<WireFrame, RadioError>)
        ensures
            r matches Err(RadioError::NotImplemented(m)) && m@ == uart_not_implemented(),
    {
        Err(RadioError::NotImplemented("UART radio: open serial and speak coprocessor framing"))
    }
}

} // verus!
