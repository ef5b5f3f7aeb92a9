//! Telemetry kept in the offline buffer until the cloud sync publishes it. The
//! SQLite store itself belongs to the daemon; this is what one stored row holds.

use vstd::prelude::*;

verus! {

/// One buffered telemetry item.
#[derive(Debug)]
pub struct BufferedItem {
    pub id: i64,
    pub src_addr: u16,
    pub packet_type: u8,
    pub payload: Vec<u8>,
}

impl BufferedItem {
    /// The item of a stored row, whose integer columns come back as `i64`: the
    /// address and the packet type keep their low 16 and 8 bits.
    pub fn from_row(id: i64, src_addr: i64, packet_type: i64, payload: Vec<u8>) -> (item: Self)
        ensures
            item.id == id,
            item.src_addr == src_addr as u16,
            item.packet_type == packet_type as u8,
            item.payload@ == payload@,
    {
        BufferedItem {
            id,
            src_addr: src_addr as u16,
            packet_type: packet_type as u8,
            payload,
        }
    }
}

} // verus!
