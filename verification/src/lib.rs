//! Driver for the M24C64 serial EEPROM: a 64-kbit device organized as
//! 256 pages of 32 bytes, reached over a two-wire serial bus.
//!
//! The driver hides two device-level constraints from the caller:
//! writes are atomic only within a 32-byte page, so larger requests are
//! split into page-aligned chunks; and after accepting a write the device
//! goes busy and stops acknowledging the bus, so each write chunk is
//! retried, with a short delay between attempts, up to a fixed bound.
//!
//! The bus itself is an external collaborator reached through the
//! [`transport::BusTransport`] capability trait; the driver owns the
//! capability but never configures it.

use vstd::prelude::*;

pub mod driver;
pub mod frame;
pub mod paginate;
pub mod sim;
pub mod transport;

verus! {

/// M24C64 EEPROM device handle: the bus transport capability, the
/// hardware address set by the E pins, and a reusable 34-byte scratch
/// buffer (2 header bytes + up to 32 payload bytes) in which each
/// transaction's command image is built.
pub struct M24C64<B> {
    /// Bus transport capability (exclusively owned).
    bus: B,
    /// Address set by the E pins (3 bits).
    e_addr: u8,
    /// Command scratch buffer: 2 header bytes + up to 32 payload bytes.
    cmd_buf: Vec<u8>,
}

impl<B> M24C64<B> {
    /// The bus transport capability held by this handle.
    pub closed spec fn bus(&self) -> B {
        self.bus
    }

    /// The hardware address set on the E pins.
    pub closed spec fn hw_addr(&self) -> u8 {
        self.e_addr
    }

    /// The scratch buffer in which command headers are built.
    pub closed spec fn scratch(&self) -> Seq<u8> {
        self.cmd_buf@
    }

    /// Well-formedness: the scratch buffer holds exactly 2 header bytes
    /// plus room for a full 32-byte page, and the hardware address fits
    /// in the device's 3 address pins.
    pub open spec fn wf(&self) -> bool {
        &&& self.scratch().len() == 34
        &&& self.hw_addr() < 8
    }

    /// Create a new instance of the M24C64 driver from a bus transport
    /// capability and the address set on the E pins. No bus activity.
    pub fn new(bus: B, e_addr: u8) -> (r: Self)
        requires
            e_addr < 8,
        ensures
            r.wf(),
            r.bus() == bus,
            r.hw_addr() == e_addr,
            r.scratch() == Seq::<u8>::new(34, |i: int| 0u8),
    {
        let mut cmd_buf: Vec<u8> = Vec::new();
        let mut i: usize = 0;
        while i < 34
            invariant
                i <= 34,
                cmd_buf@.len() == i,
                forall|k: int| 0 <= k < i ==> cmd_buf@[k] == 0u8,
            decreases 34 - i,
        {
            cmd_buf.push(0u8);
            i += 1;
        }
        proof {
            assert(cmd_buf@ =~= Seq::<u8>::new(34, |i: int| 0u8));
        }
        M24C64 { bus, e_addr, cmd_buf }
    }

    /// Borrow the bus transport capability held by this handle.
    pub fn bus_ref(&self) -> (r: &B)
        ensures
            *r == self.bus(),
    {
        &self.bus
    }

    /// One byte of the scratch buffer, as the last transaction left it.
    pub fn scratch_byte(&self, i: usize) -> (r: u8)
        requires
            self.wf(),
            i < 34,
        ensures
            r == self.scratch()[i as int],
    {
        self.cmd_buf[i]
    }
}

} // verus!
