//! The blocking driver: the transaction executor (one bus transaction
//! per page-bounded chunk, with busy-retry on the write path) and the
//! public paginated read and write operations composed from it.

use vstd::prelude::*;
use vstd::slice::{slice_index_get, slice_subrange};
use crate::M24C64;
use crate::frame::{addr_hi, addr_lo, lemma_header_address};
use crate::paginate::{chunk_span, is_last_chunk_start};
use crate::transport::{
    BusTransport, DelayProvider, frame_address, splice, lemma_splice_adjacent,
};

verus! {

/// Most attempts made for one write chunk before its transport error is
/// surfaced: the device's internal write cycle is expected to end well
/// within this many 1 ms retry intervals.
pub const MAX_WRITE_ATTEMPTS: usize = 10;

impl<B: BusTransport> M24C64<B> {
    /// The device memory reachable through this handle's bus capability.
    pub open spec fn mem(&self) -> Seq<u8> {
        self.bus().mem()
    }

    /// Create a new blocking / synchronous instance of the M24C64
    /// driver from a bus transport capability and the address set on
    /// the E pins.
    pub fn new_blocking(bus: B, e_addr: u8) -> (r: Self)
        requires
            e_addr < 8,
        ensures
            r.wf(),
            r.bus() == bus,
            r.hw_addr() == e_addr,
            r.scratch() == Seq::<u8>::new(34, |i: int| 0u8),
    {
        M24C64::new(bus, e_addr)
    }

    /// Write one page-bounded chunk: build the 2-byte header and the
    /// payload into the scratch buffer, then issue the bus write,
    /// retrying while the device reports busy, approximately 1 ms
    /// between attempts, up to [`MAX_WRITE_ATTEMPTS`] attempts in all.
    /// On success the chunk is committed; on retry exhaustion the final
    /// attempt's transport error is surfaced and the memory is
    /// unchanged.
    pub fn write_raw_blocking<D: DelayProvider>(
        &mut self,
        address: usize,
        bytes: &[u8],
        delay: &mut D,
    ) -> (r: Result<(), B::Err>)
        requires
            old(self).wf(),
            address < 0x10000,
            address % 32 + bytes@.len() <= 32,
            address + bytes@.len() <= old(self).mem().len(),
            old(self).mem().len() <= 0x10000,
        ensures
            final(self).wf(),
            final(self).hw_addr() == old(self).hw_addr(),
            final(self).mem().len() == old(self).mem().len(),
            final(self).scratch()[0] == addr_hi(address as int),
            final(self).scratch()[1] == addr_lo(address as int),
            final(self).scratch().subrange(2, 2 + bytes@.len() as int) == bytes@,
            final(self).scratch().skip(2 + bytes@.len() as int) == old(self).scratch().skip(
                2 + bytes@.len() as int,
            ),
            final(self).bus().last_target() == (old(self).hw_addr() | 0x50u8),
            r is Ok ==> final(self).mem() == splice(old(self).mem(), address as int, bytes@),
            r is Err ==> final(self).mem() == old(self).mem(),
    {
        let hi = (address / 256) as u8;
        let lo = (address % 256) as u8;
        self.cmd_buf[0] = hi;
        self.cmd_buf[1] = lo;
        let mut j: usize = 0;
        while j < bytes.len()
            invariant
                j <= bytes@.len() <= 32,
                self.bus == old(self).bus,
                self.e_addr == old(self).e_addr,
                self.cmd_buf@.len() == 34,
                self.cmd_buf@[0] == hi,
                self.cmd_buf@[1] == lo,
                forall|k: int| 0 <= k < j ==> self.cmd_buf@[k + 2] == bytes@[k],
                forall|k: int|
                    2 + bytes@.len() <= k < 34 ==> self.cmd_buf@[k] == old(self).cmd_buf@[k],
            decreases bytes@.len() - j,
        {
            self.cmd_buf[2 + j] = *slice_index_get(bytes, j);
            j += 1;
        }
        let target = self.e_addr | 0x50;
        let n = bytes.len() + 2;
        proof {
            lemma_header_address(address as int);
            assert(hi == addr_hi(address as int));
            assert(lo == addr_lo(address as int));
        }
        let ghost built = self.cmd_buf@;
        let ghost m0 = self.bus.mem();

        let frame = slice_subrange(self.cmd_buf.as_slice(), 0, n);
        proof {
            assert(frame_address(frame@) == address);
            assert(frame@.skip(2) =~= bytes@);
        }
        let mut result = self.bus.bus_write(target, frame);
        let mut attempts: usize = 1;
        let mut failed = result.is_err();
        while failed && attempts < MAX_WRITE_ATTEMPTS
            invariant
                failed == (result is Err),
                1 <= attempts <= MAX_WRITE_ATTEMPTS,
                n == bytes@.len() + 2,
                bytes@.len() <= 32,
                address + bytes@.len() <= m0.len(),
                address % 32 + bytes@.len() <= 32,
                self.e_addr == old(self).e_addr,
                self.cmd_buf@ == built,
                built.len() == 34,
                built[0] == addr_hi(address as int),
                built[1] == addr_lo(address as int),
                built.subrange(2, n as int) == bytes@,
                addr_hi(address as int) * 256 + addr_lo(address as int) == address,
                target == (old(self).e_addr | 0x50u8),
                self.bus.last_target() == (old(self).e_addr | 0x50u8),
                self.bus.mem().len() == m0.len(),
                result is Ok ==> self.bus.mem() == splice(m0, address as int, bytes@),
                result is Err ==> self.bus.mem() == m0,
            decreases MAX_WRITE_ATTEMPTS - attempts,
        {
            delay.delay_ms(1);
            let frame = slice_subrange(self.cmd_buf.as_slice(), 0, n);
            proof {
                assert(frame_address(frame@) == address);
                assert(frame@.skip(2) =~= bytes@);
            }
            result = self.bus.bus_write(target, frame);
            attempts += 1;
            failed = result.is_err();
        }
        proof {
            assert(self.cmd_buf@.subrange(2, 2 + bytes@.len() as int) == bytes@);
            assert(self.cmd_buf@.skip(2 + bytes@.len() as int) =~= old(self).cmd_buf@.skip(
                2 + bytes@.len() as int,
            ));
        }
        result
    }

    /// Read one chunk of `len` bytes starting at `address`: build the
    /// 2-byte header into the scratch buffer and issue a single
    /// combined write-then-read bus transaction. No retry: any
    /// transport failure is surfaced immediately.
    pub fn read_raw_blocking(&mut self, address: usize, len: usize) -> (r: Result<
        Vec<u8>,
        B::Err,
    >)
        requires
            old(self).wf(),
            address < 0x10000,
            len <= 32,
            address + len <= old(self).mem().len(),
            old(self).mem().len() <= 0x10000,
        ensures
            final(self).wf(),
            final(self).hw_addr() == old(self).hw_addr(),
            final(self).mem() == old(self).mem(),
            final(self).scratch() == old(self).scratch().update(0, addr_hi(address as int)).update(
                1,
                addr_lo(address as int),
            ),
            final(self).bus().last_target() == (old(self).hw_addr() | 0x50u8),
            r matches Ok(v) ==> v@ == old(self).mem().subrange(address as int, address + len),
    {
        let hi = (address / 256) as u8;
        let lo = (address % 256) as u8;
        self.cmd_buf[0] = hi;
        self.cmd_buf[1] = lo;
        let target = self.e_addr | 0x50;
        proof {
            lemma_header_address(address as int);
        }
        let header = slice_subrange(self.cmd_buf.as_slice(), 0, 2);
        proof {
            assert(frame_address(header@) == address);
        }
        self.bus.bus_write_read(target, header, len)
    }

    /// Write an arbitrary number of bytes into the EEPROM, starting at
    /// `address`. The request is split at page boundaries and each
    /// chunk is written with busy-retry; on the first chunk whose
    /// retries are exhausted the operation aborts, surfacing that
    /// chunk's transport error with every earlier chunk already
    /// committed and nothing after it attempted.
    pub fn write_blocking<D: DelayProvider>(
        &mut self,
        address: usize,
        data: &[u8],
        delay: &mut D,
    ) -> (r: Result<(), B::Err>)
        requires
            old(self).wf(),
            address + data@.len() <= old(self).mem().len(),
            old(self).mem().len() <= 0x10000,
        ensures
            final(self).wf(),
            final(self).hw_addr() == old(self).hw_addr(),
            final(self).mem().len() == old(self).mem().len(),
            data@.len() == 0 ==> *final(self) == *old(self),
            data@.len() == 0 ==> *final(delay) == *old(delay),
            data@.len() > 0 ==> final(self).bus().last_target() == (old(self).hw_addr()
                | 0x50u8),
            r is Ok ==> final(self).mem() == splice(old(self).mem(), address as int, data@),
            r is Ok && data@.len() > 0 ==> exists|s: int|
                #[trigger] is_last_chunk_start(address as int, address + data@.len(), s)
                    && final(self).scratch()[0] == addr_hi(s) && final(self).scratch()[1]
                    == addr_lo(s) && final(self).scratch().subrange(
                    2,
                    2 + (address + data@.len() - s),
                ) == data@.subrange(s - address, data@.len() as int),
            r is Err ==> exists|p: int|
                0 <= p < data@.len() && (p == 0 || #[trigger] ((address + p) % 32) == 0)
                    && final(self).mem() == splice(
                    old(self).mem(),
                    address as int,
                    data@.subrange(0, p),
                ) && final(self).scratch()[0] == addr_hi(address + p) && final(self).scratch()[1]
                    == addr_lo(address + p) && final(self).scratch().subrange(
                    2,
                    2 + chunk_span(address + p, address + data@.len()),
                ) == data@.subrange(p, p + chunk_span(address + p, address + data@.len())),
    {
        let ghost m0 = self.bus.mem();
        let end = address + data.len();
        let mut i: usize = address;
        while i < end
            invariant
                self.wf(),
                self.e_addr == old(self).e_addr,
                address <= i <= end,
                end == address + data@.len(),
                m0 == old(self).bus().mem(),
                address + data@.len() <= m0.len(),
                m0.len() <= 0x10000,
                i == address || i % 32 == 0 || i == end,
                i == address ==> *self == *old(self) && *delay == *old(delay),
                i > address ==> self.bus.last_target() == (old(self).e_addr | 0x50u8),
                i > address ==> exists|s: int|
                    #[trigger] is_last_chunk_start(address as int, i as int, s)
                        && self.cmd_buf@[0] == addr_hi(s) && self.cmd_buf@[1] == addr_lo(s)
                        && self.cmd_buf@.subrange(2, 2 + (i - s)) == data@.subrange(
                        s - address,
                        i - address,
                    ),
                self.bus.mem().len() == m0.len(),
                self.bus.mem() == splice(m0, address as int, data@.subrange(0, i - address)),
            decreases end - i,
        {
            let page_offset = i % 32;
            let space = 32 - page_offset;
            let remaining = end - i;
            let chunk = if space < remaining {
                space
            } else {
                remaining
            };
            let part = slice_subrange(data, i - address, i - address + chunk);
            let ghost before = data@.subrange(0, i - address);
            let res = self.write_raw_blocking(i, part, delay);
            match res {
                Ok(()) => {},
                Err(e) => {
                    proof {
                        let p = i - address;
                        assert(0 <= p < data@.len());
                        assert(p == 0 || (address + p) % 32 == 0);
                        assert(self.bus.mem() == splice(m0, address as int, data@.subrange(0, p)));
                        assert(chunk == chunk_span(address + p, address + data@.len()));
                        assert(self.cmd_buf@.subrange(2, 2 + chunk as int) == data@.subrange(
                            p,
                            p + chunk,
                        ));
                    }
                    return Err(e);
                },
            }
            proof {
                lemma_splice_adjacent(m0, address as int, before, part@);
                assert(before + part@ =~= data@.subrange(0, i - address + chunk));
                assert(is_last_chunk_start(address as int, i + chunk, i as int));
                assert(self.cmd_buf@.subrange(2, 2 + chunk as int) == data@.subrange(
                    i - address,
                    i - address + chunk,
                ));
            }
            i += chunk;
        }
        proof {
            assert(data@.subrange(0, data@.len() as int) =~= data@);
            assert(i == end);
        }
        Ok(())
    }

    /// Read an arbitrary number of bytes from the EEPROM, starting at
    /// `address`, into `data`, whose length gives the read length. The
    /// request is split at page boundaries; on the first chunk failure
    /// the operation aborts, surfacing that chunk's transport error
    /// with `data` filled up to the failing chunk and unchanged from
    /// there on.
    pub fn read_blocking(&mut self, address: usize, data: &mut Vec<u8>) -> (r: Result<
        (),
        B::Err,
    >)
        requires
            old(self).wf(),
            address + old(data)@.len() <= old(self).mem().len(),
            old(self).mem().len() <= 0x10000,
        ensures
            final(self).wf(),
            final(self).hw_addr() == old(self).hw_addr(),
            final(self).mem() == old(self).mem(),
            final(data)@.len() == old(data)@.len(),
            old(data)@.len() == 0 ==> *final(self) == *old(self),
            old(data)@.len() > 0 ==> final(self).bus().last_target() == (old(self).hw_addr()
                | 0x50u8),
            r is Ok ==> final(data)@ == old(self).mem().subrange(
                address as int,
                address + old(data)@.len(),
            ),
            r is Ok && old(data)@.len() > 0 ==> exists|s: int|
                #[trigger] is_last_chunk_start(address as int, address + old(data)@.len(), s)
                    && final(self).scratch() == old(self).scratch().update(0, addr_hi(s)).update(
                    1,
                    addr_lo(s),
                ),
            r is Err ==> exists|p: int|
                0 <= p < old(data)@.len() && (p == 0 || #[trigger] ((address + p) % 32) == 0)
                    && final(data)@ == old(self).mem().subrange(address as int, address + p) + old(
                    data,
                )@.skip(p) && final(self).scratch() == old(self).scratch().update(
                    0,
                    addr_hi(address + p),
                ).update(1, addr_lo(address + p)),
    {
        let ghost m0 = self.bus.mem();
        let ghost d0 = data@;
        let len = data.len();
        let end = address + len;
        let mut i: usize = address;
        while i < end
            invariant
                self.wf(),
                self.e_addr == old(self).e_addr,
                address <= i <= end,
                end == address + len,
                len == d0.len(),
                data@.len() == len,
                m0 == old(self).bus().mem(),
                d0 == old(data)@,
                address + len <= m0.len(),
                m0.len() <= 0x10000,
                i == address || i % 32 == 0 || i == end,
                old(self).wf(),
                i == address ==> *self == *old(self),
                i > address ==> self.bus.last_target() == (old(self).e_addr | 0x50u8),
                i > address ==> exists|s: int|
                    #[trigger] is_last_chunk_start(address as int, i as int, s)
                        && self.cmd_buf@ == old(self).cmd_buf@.update(0, addr_hi(s)).update(
                        1,
                        addr_lo(s),
                    ),
                self.bus.mem() == m0,
                data@ == m0.subrange(address as int, i as int) + d0.skip(i - address),
            decreases end - i,
        {
            let page_offset = i % 32;
            let space = 32 - page_offset;
            let remaining = end - i;
            let chunk = if space < remaining {
                space
            } else {
                remaining
            };
            let res = self.read_raw_blocking(i, chunk);
            match res {
                Ok(v) => {
                    let mut j: usize = 0;
                    while j < chunk
                        invariant
                            j <= chunk,
                            address <= i,
                            i + chunk <= end,
                            end == address + len,
                            len == d0.len(),
                            data@.len() == len,
                            address + len <= m0.len(),
                            v@.len() == chunk,
                            v@ == m0.subrange(i as int, i + chunk),
                            data@ == m0.subrange(address as int, i + j) + d0.skip(
                                i - address + j,
                            ),
                        decreases chunk - j,
                    {
                        let ghost dprev = data@;
                        data[i - address + j] = v[j];
                        proof {
                            assert(data@ =~= m0.subrange(address as int, i + j + 1) + d0.skip(
                                i - address + j + 1,
                            ));
                        }
                        j += 1;
                    }
                },
                Err(e) => {
                    proof {
                        let p = i - address;
                        assert(0 <= p < d0.len());
                        assert(p == 0 || (address + p) % 32 == 0);
                        assert(data@ == m0.subrange(address as int, address + p) + d0.skip(p));
                        assert(self.cmd_buf@ =~= old(self).cmd_buf@.update(
                            0,
                            addr_hi(address + p),
                        ).update(1, addr_lo(address + p)));
                    }
                    return Err(e);
                },
            }
            proof {
                assert(is_last_chunk_start(address as int, i + chunk, i as int));
                assert(self.cmd_buf@ =~= old(self).cmd_buf@.update(0, addr_hi(i as int)).update(
                    1,
                    addr_lo(i as int),
                ));
            }
            i += chunk;
        }
        proof {
            assert(data@ =~= m0.subrange(address as int, address + d0.len() as int));
        }
        Ok(())
    }
}

} // verus!
