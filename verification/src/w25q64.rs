//! Reading the JEDEC identifier of a W25Q64 serial flash.
//!
//! The chip answers the identifier opcode over four one-byte exchanges made
//! while its select line is held low. The driver says what to clock out and
//! puts the answer together; the owner of the bus makes the exchanges.

use vstd::prelude::*;

verus! {

/// Opcode: read the JEDEC identifier.
pub const READ_JEDEC: u8 = 0x9F;

/// What is clocked out while the chip answers.
pub const FILLER: u8 = 0xFF;

/// The bytes to clock out, one exchange each, select line low throughout.
pub const JEDEC_REQUEST: [u8; 4] = [READ_JEDEC, FILLER, FILLER, FILLER];

/// The identifier of a serial flash: who made it, and which device it is.
#[derive(Clone, Copy, Debug, PartialEq, Eq, Structural)]
pub struct Jedec {
    pub vendor_id: u8,
    pub device_id: u16,
}

impl Default for Jedec {
    /// The all-zero identifier.
    fn default() -> (jedec: Jedec)
        ensures
            jedec == (Jedec { vendor_id: 0, device_id: 0 }),
    {
        Jedec { vendor_id: 0, device_id: 0 }
    }
}

/// The identifier that the replies to [`JEDEC_REQUEST`] spell: the reply to
/// the opcode is void, the next is the vendor, the last two are the device,
/// upper byte first.
pub open spec fn jedec_of(replies: Seq<u8>) -> Jedec {
    Jedec { vendor_id: replies[1], device_id: (replies[2] * 256 + replies[3]) as u16 }
}

/// The driver of one W25Q64. It holds nothing: the bus and the select line
/// stay with their owner.
pub struct W25Q64 {}

impl W25Q64 {
    /// A driver.
    pub fn new() -> W25Q64 {
        W25Q64 {  }
    }

    /// The bytes to clock out for one identifier: [`JEDEC_REQUEST`].
    pub fn request(&self) -> (bytes: [u8; 4])
        ensures
            bytes@ == JEDEC_REQUEST@,
    {
        JEDEC_REQUEST
    }

    /// Puts the identifier together from the four bytes that came back, in the
    /// order of the exchanges.
    pub fn read_jedec(&mut self, replies: &[u8; 4]) -> (jedec: Jedec)
        ensures
            jedec == jedec_of(replies@),
    {
        let mut jedec = Jedec::default();
        jedec.vendor_id = replies[1];
        let high: u16 = replies[2] as u16;
        let low: u16 = replies[3] as u16;
        assert((high << 8) | low == high * 256 + low) by (bit_vector)
            requires
                high < 256,
                low < 256,
        ;
        jedec.device_id = high << 8;
        jedec.device_id |= low;
        jedec
    }
}

} // verus!
