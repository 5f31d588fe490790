//! The bus transport capability: the external two-wire bus (and the
//! EEPROM behind it) seen as a byte-addressed memory reached through
//! whole bus transactions, together with the delay capability used
//! between write retries.

use vstd::prelude::*;

verus! {

/// The 16-bit big-endian target address carried in the first two bytes
/// of a command frame.
pub open spec fn frame_address(frame: Seq<u8>) -> int {
    frame[0] * 256 + frame[1]
}

/// Whether a transfer of `len` bytes starting at `addr` stays within
/// one 32-byte page of the device.
pub open spec fn page_fit(addr: int, len: int) -> bool {
    addr % 32 + len <= 32
}

/// `mem` with `data` written over the bytes starting at `at`.
pub open spec fn splice(mem: Seq<u8>, at: int, data: Seq<u8>) -> Seq<u8> {
    mem.subrange(0, at) + data + mem.subrange(at + data.len(), mem.len() as int)
}

/// Writing a range and reading it back returns the data written, and a
/// write never changes the memory's length.
pub proof fn lemma_splice_readback(mem: Seq<u8>, at: int, data: Seq<u8>)
    requires
        0 <= at,
        at + data.len() <= mem.len(),
    ensures
        splice(mem, at, data).len() == mem.len(),
        splice(mem, at, data).subrange(at, at + data.len() as int) == data,
        forall|k: int|
            0 <= k < mem.len() && !(at <= k < at + data.len()) ==> splice(mem, at, data)[k]
                == mem[k],
{
    assert(splice(mem, at, data).subrange(at, at + data.len() as int) =~= data);
}

/// Writing one range and then a second range that starts exactly where
/// the first ended is the same as writing their concatenation at once.
pub proof fn lemma_splice_adjacent(mem: Seq<u8>, at: int, first: Seq<u8>, second: Seq<u8>)
    requires
        0 <= at,
        at + first.len() + second.len() <= mem.len(),
    ensures
        splice(splice(mem, at, first), at + first.len(), second) == splice(
            mem,
            at,
            first + second,
        ),
{
    assert(splice(splice(mem, at, first), at + first.len(), second) =~= splice(
        mem,
        at,
        first + second,
    ));
}

/// Bus transport capability: issues whole bus transactions against the
/// device, blocking until the transport signals completion or failure.
///
/// The device's memory is modelled by [`BusTransport::mem`]. A write
/// transaction either takes effect in full (`Ok`) or — as when the
/// device is internally busy and does not acknowledge — leaves the
/// memory unchanged (`Err`); the error value itself is transport-defined
/// and opaque to the driver. A combined write-then-read transaction
/// never changes the memory.
pub trait BusTransport {
    /// Transport-defined error kind, surfaced verbatim to the caller.
    type Err;

    /// The device memory reachable through this transport. An
    /// implementation written outside the verifier may leave this at
    /// its default, the empty memory, of which the transaction
    /// contracts promise nothing.
    open spec fn mem(&self) -> Seq<u8> {
        Seq::empty()
    }

    /// The target address byte of the most recent transaction issued
    /// through this transport. An implementation written outside the
    /// verifier may leave this at its default.
    open spec fn last_target(&self) -> u8 {
        0
    }

    /// Issue one complete bus write transaction: `frame` holds the
    /// 2-byte big-endian target address followed by the payload.
    fn bus_write(&mut self, target: u8, frame: &[u8]) -> (r: Result<(), Self::Err>)
        requires
            frame@.len() >= 2,
            frame_address(frame@) + frame@.len() - 2 <= old(self).mem().len(),
            page_fit(frame_address(frame@), frame@.len() - 2),
        ensures
            final(self).mem().len() == old(self).mem().len(),
            final(self).last_target() == target,
            r is Ok ==> final(self).mem() == splice(
                old(self).mem(),
                frame_address(frame@),
                frame@.skip(2),
            ),
            r is Err ==> final(self).mem() == old(self).mem(),
    ;

    /// Issue one combined bus transaction: write the 2-byte address
    /// `header`, then re-address and read `len` bytes without releasing
    /// the bus.
    fn bus_write_read(&mut self, target: u8, header: &[u8], len: usize) -> (r: Result<
        Vec<u8>,
        Self::Err,
    >)
        requires
            header@.len() == 2,
            frame_address(header@) + len <= old(self).mem().len(),
        ensures
            final(self).mem() == old(self).mem(),
            final(self).last_target() == target,
            r matches Ok(v) ==> v@ == old(self).mem().subrange(
                frame_address(header@),
                frame_address(header@) + len,
            ),
    ;
}

/// Delay capability: waits approximately `ms` milliseconds, blocking or
/// yielding to a scheduler depending on the execution model. Nothing is
/// promised of it; the driver uses it only to pace write retries.
pub trait DelayProvider {
    /// Wait approximately `ms` milliseconds.
    fn delay_ms(&mut self, ms: u32);
}

} // verus!
