//! A simulated bus transport and delay provider: a byte array stands
//! for the device memory, and a schedule of acknowledgements stands for
//! the device's busy state, so that the paginated operations and the
//! busy-retry protocol can be exercised without hardware. The simulated
//! transport is itself verified against the capability contracts.

use vstd::prelude::*;
use vstd::slice::{slice_index_get, slice_to_vec};
use crate::transport::{BusTransport, DelayProvider, frame_address, splice};

verus! {

/// Error value surfaced by the simulated transport when its schedule
/// makes a transaction fail.
#[derive(Debug, Clone, Copy, PartialEq, Eq)]
pub struct SimError;

/// Simulated bus transport over an in-memory byte array.
pub struct SimTransport {
    /// The simulated device memory.
    storage: Vec<u8>,
    /// Outcome of the k-th transaction, counted over writes and reads
    /// together; transactions past the end of the schedule succeed
    /// exactly when `default_ok` holds.
    responses: Vec<bool>,
    /// Outcome of transactions beyond the schedule.
    default_ok: bool,
    /// Transactions attempted so far, of either kind.
    calls: usize,
    /// Write transactions attempted so far.
    write_calls: usize,
    /// Combined write-then-read transactions attempted so far.
    write_read_calls: usize,
    /// The header-and-payload bytes of the most recent transaction.
    last_frame: Vec<u8>,
    /// The target address byte of the most recent transaction.
    last_target: u8,
}

impl SimTransport {
    /// Transactions attempted so far, of either kind.
    pub closed spec fn spec_calls(&self) -> usize {
        self.calls
    }

    /// Write transactions attempted so far.
    pub closed spec fn spec_write_calls(&self) -> usize {
        self.write_calls
    }

    /// Combined write-then-read transactions attempted so far.
    pub closed spec fn spec_write_read_calls(&self) -> usize {
        self.write_read_calls
    }

    /// The bytes of the most recent transaction's frame or header.
    pub closed spec fn spec_last_frame(&self) -> Seq<u8> {
        self.last_frame@
    }

    /// The acknowledgement schedule.
    pub closed spec fn spec_responses(&self) -> Seq<bool> {
        self.responses@
    }

    /// The outcome of transactions beyond the schedule.
    pub closed spec fn spec_default_ok(&self) -> bool {
        self.default_ok
    }

    /// An always-ready simulated device of `size` zeroed bytes.
    pub fn new(size: usize) -> (r: Self)
        ensures
            r.mem() == Seq::<u8>::new(size as nat, |i: int| 0u8),
            r.spec_responses() == Seq::<bool>::empty(),
            r.spec_default_ok(),
            r.spec_calls() == 0,
            r.spec_write_calls() == 0,
            r.spec_write_read_calls() == 0,
            r.last_target() == 0,
    {
        let mut storage: Vec<u8> = Vec::new();
        let mut i: usize = 0;
        while i < size
            invariant
                i <= size,
                storage@.len() == i,
                forall|k: int| 0 <= k < i ==> storage@[k] == 0u8,
            decreases size - i,
        {
            storage.push(0u8);
            i += 1;
        }
        proof {
            assert(storage@ =~= Seq::<u8>::new(size as nat, |i: int| 0u8));
        }
        SimTransport {
            storage,
            responses: Vec::new(),
            default_ok: true,
            calls: 0,
            write_calls: 0,
            write_read_calls: 0,
            last_frame: Vec::new(),
            last_target: 0,
        }
    }

    /// A simulated device holding `contents`, acknowledging its
    /// transactions as `responses` (then `default_ok`) dictates.
    pub fn with_schedule(contents: Vec<u8>, responses: Vec<bool>, default_ok: bool) -> (r: Self)
        ensures
            r.mem() == contents@,
            r.spec_responses() == responses@,
            r.spec_default_ok() == default_ok,
            r.spec_calls() == 0,
            r.spec_write_calls() == 0,
            r.spec_write_read_calls() == 0,
            r.last_target() == 0,
    {
        SimTransport {
            storage: contents,
            responses,
            default_ok,
            calls: 0,
            write_calls: 0,
            write_read_calls: 0,
            last_frame: Vec::new(),
            last_target: 0,
        }
    }

    /// How many transactions of either kind were attempted.
    pub fn calls(&self) -> (r: usize)
        ensures
            r == self.spec_calls(),
    {
        self.calls
    }

    /// How many write transactions were attempted.
    pub fn write_calls(&self) -> (r: usize)
        ensures
            r == self.spec_write_calls(),
    {
        self.write_calls
    }

    /// How many combined write-then-read transactions were attempted.
    pub fn write_read_calls(&self) -> (r: usize)
        ensures
            r == self.spec_write_read_calls(),
    {
        self.write_read_calls
    }

    /// The header-and-payload bytes of the most recent transaction.
    pub fn last_frame(&self) -> (r: &Vec<u8>)
        ensures
            r@ == self.spec_last_frame(),
    {
        &self.last_frame
    }

    /// The target address byte of the most recent transaction.
    pub fn last_target_byte(&self) -> (r: u8)
        ensures
            r == self.last_target(),
    {
        self.last_target
    }

    /// The simulated memory's size in bytes.
    pub fn mem_len(&self) -> (r: usize)
        ensures
            r == self.mem().len(),
    {
        self.storage.len()
    }

    /// One byte of the simulated memory.
    pub fn mem_byte(&self, i: usize) -> (r: u8)
        requires
            i < self.mem().len(),
        ensures
            r == self.mem()[i as int],
    {
        self.storage[i]
    }

    /// Whether the next transaction is acknowledged — as the schedule,
    /// then `default_ok`, dictates — advancing the transaction counter
    /// past it.
    fn consume_response(&mut self) -> (ok: bool)
        ensures
            ok == (if old(self).calls < old(self).responses@.len() {
                old(self).responses@[old(self).calls as int]
            } else {
                old(self).default_ok
            }),
            final(self).calls as int == (if old(self).calls < usize::MAX {
                old(self).calls + 1
            } else {
                old(self).calls as int
            }),
            final(self).storage@ == old(self).storage@,
            final(self).responses@ == old(self).responses@,
            final(self).default_ok == old(self).default_ok,
            final(self).last_frame@ == old(self).last_frame@,
            final(self).last_target == old(self).last_target,
            final(self).write_calls == old(self).write_calls,
            final(self).write_read_calls == old(self).write_read_calls,
    {
        let ok = if self.calls < self.responses.len() {
            self.responses[self.calls]
        } else {
            self.default_ok
        };
        if self.calls < usize::MAX {
            self.calls = self.calls + 1;
        }
        ok
    }
}

impl BusTransport for SimTransport {
    type Err = SimError;

    closed spec fn mem(&self) -> Seq<u8> {
        self.storage@
    }

    closed spec fn last_target(&self) -> u8 {
        self.last_target
    }

    fn bus_write(&mut self, target: u8, frame: &[u8]) -> (r: Result<(), SimError>)
        ensures
            r is Ok <==> (if old(self).spec_calls() < old(self).spec_responses().len() {
                old(self).spec_responses()[old(self).spec_calls() as int]
            } else {
                old(self).spec_default_ok()
            }),
            final(self).spec_responses() == old(self).spec_responses(),
            final(self).spec_default_ok() == old(self).spec_default_ok(),
            final(self).spec_calls() as int == (if old(self).spec_calls() < usize::MAX {
                old(self).spec_calls() + 1
            } else {
                old(self).spec_calls() as int
            }),
            final(self).spec_write_calls() as int == (if old(self).spec_write_calls()
                < usize::MAX {
                old(self).spec_write_calls() + 1
            } else {
                old(self).spec_write_calls() as int
            }),
            final(self).spec_write_read_calls() == old(self).spec_write_read_calls(),
            final(self).spec_last_frame() == frame@,
    {
        self.last_frame = slice_to_vec(frame);
        self.last_target = target;
        let ok = self.consume_response();
        if self.write_calls < usize::MAX {
            self.write_calls = self.write_calls + 1;
        }
        if !ok {
            return Err(SimError);
        }
        let addr = (*slice_index_get(frame, 0) as usize) * 256 + (*slice_index_get(
            frame,
            1,
        ) as usize);
        proof {
            assert(addr == frame_address(frame@));
        }
        let ghost s0 = self.storage@;
        let ghost mid = *self;
        let cap = self.storage.len();
        let n = frame.len() - 2;
        let mut j: usize = 0;
        while j < n
            invariant
                j <= n,
                n == frame@.len() - 2,
                frame@.len() >= 2,
                addr == frame_address(frame@),
                addr + n <= s0.len(),
                s0.len() == cap,
                n <= usize::MAX - 2,
                self.last_target == target,
                self.calls == mid.calls,
                self.write_calls == mid.write_calls,
                self.write_read_calls == mid.write_read_calls,
                self.responses@ == mid.responses@,
                self.default_ok == mid.default_ok,
                self.last_frame@ == mid.last_frame@,
                self.storage@.len() == s0.len(),
                forall|k: int|
                    addr <= k < addr + j ==> #[trigger] self.storage@[k] == frame@[k - addr + 2],
                forall|k: int|
                    0 <= k < s0.len() && !(addr <= k < addr + j) ==> self.storage@[k] == s0[k],
            decreases n - j,
        {
            self.storage[addr + j] = *slice_index_get(frame, 2 + j);
            j += 1;
        }
        proof {
            assert(self.storage@ =~= splice(s0, addr as int, frame@.skip(2)));
        }
        Ok(())
    }

    fn bus_write_read(&mut self, target: u8, header: &[u8], len: usize) -> (r: Result<
        Vec<u8>,
        SimError,
    >)
        ensures
            r is Ok <==> (if old(self).spec_calls() < old(self).spec_responses().len() {
                old(self).spec_responses()[old(self).spec_calls() as int]
            } else {
                old(self).spec_default_ok()
            }),
            final(self).spec_responses() == old(self).spec_responses(),
            final(self).spec_default_ok() == old(self).spec_default_ok(),
            final(self).spec_calls() as int == (if old(self).spec_calls() < usize::MAX {
                old(self).spec_calls() + 1
            } else {
                old(self).spec_calls() as int
            }),
            final(self).spec_write_read_calls() as int == (if old(self).spec_write_read_calls()
                < usize::MAX {
                old(self).spec_write_read_calls() + 1
            } else {
                old(self).spec_write_read_calls() as int
            }),
            final(self).spec_write_calls() == old(self).spec_write_calls(),
            final(self).spec_last_frame() == header@,
    {
        self.last_frame = slice_to_vec(header);
        self.last_target = target;
        let ok = self.consume_response();
        if self.write_read_calls < usize::MAX {
            self.write_read_calls = self.write_read_calls + 1;
        }
        if !ok {
            return Err(SimError);
        }
        let addr = (*slice_index_get(header, 0) as usize) * 256 + (*slice_index_get(
            header,
            1,
        ) as usize);
        proof {
            assert(addr == frame_address(header@));
        }
        let cap = self.storage.len();
        let mut out: Vec<u8> = Vec::new();
        let mut j: usize = 0;
        while j < len
            invariant
                j <= len,
                addr == frame_address(header@),
                addr + len <= self.storage@.len(),
                self.storage@.len() == cap,
                out@.len() == j,
                forall|k: int| 0 <= k < j ==> out@[k] == self.storage@[addr + k],
            decreases len - j,
        {
            out.push(self.storage[addr + j]);
            j += 1;
        }
        proof {
            assert(out@ =~= self.storage@.subrange(addr as int, addr + len));
        }
        Ok(out)
    }
}

/// Simulated delay provider: counts the waits it was asked for instead
/// of sleeping.
pub struct SimDelay {
    /// How many times a delay was requested.
    ticks: usize,
}

impl SimDelay {
    /// How many times a delay was requested.
    pub closed spec fn spec_ticks(&self) -> usize {
        self.ticks
    }

    /// A fresh delay provider that has not been asked to wait yet.
    pub fn new() -> (r: Self)
        ensures
            r.spec_ticks() == 0,
    {
        SimDelay { ticks: 0 }
    }

    /// How many times a delay was requested.
    pub fn ticks(&self) -> (r: usize)
        ensures
            r == self.spec_ticks(),
    {
        self.ticks
    }
}

impl DelayProvider for SimDelay {
    fn delay_ms(&mut self, ms: u32) {
        if self.ticks < usize::MAX {
            self.ticks = self.ticks + 1;
        }
    }
}

} // verus!
