//! Command-header encoding: every transaction begins with the 2-byte
//! big-endian image of the target address, built into the first two
//! bytes of a command frame. Shared by the blocking driver and by any
//! other execution model that issues the same transactions.

use vstd::prelude::*;
use vstd::slice::slice_index_get;
use crate::transport::frame_address;

verus! {

/// High header byte of a 16-bit target address.
pub open spec fn addr_hi(address: int) -> u8 {
    (address / 256) as u8
}

/// Low header byte of a 16-bit target address.
pub open spec fn addr_lo(address: int) -> u8 {
    (address % 256) as u8
}

/// The 2-byte big-endian header decodes back to the address it encodes.
pub proof fn lemma_header_address(address: int)
    requires
        0 <= address < 0x10000,
    ensures
        addr_hi(address) * 256 + addr_lo(address) == address,
{
}

/// The bus address byte for a device whose E pins are set to `e_addr`:
/// the device family code with the E-pin bits folded in, in the
/// transport's 7-bit addressing convention.
pub fn bus_target(e_addr: u8) -> (r: u8)
    ensures
        r == (e_addr | 0x50u8),
{
    e_addr | 0x50
}

/// Build the command frame for one write transaction: the 2-byte
/// big-endian `address` header immediately followed by `bytes`.
pub fn write_frame(address: usize, bytes: &[u8]) -> (r: Vec<u8>)
    requires
        address < 0x10000,
        bytes@.len() <= 32,
    ensures
        r@.len() == bytes@.len() + 2,
        r@[0] == addr_hi(address as int),
        r@[1] == addr_lo(address as int),
        r@.skip(2) == bytes@,
        frame_address(r@) == address,
{
    let mut r: Vec<u8> = Vec::new();
    r.push((address / 256) as u8);
    r.push((address % 256) as u8);
    let mut j: usize = 0;
    while j < bytes.len()
        invariant
            j <= bytes@.len() <= 32,
            address < 0x10000,
            r@.len() == j + 2,
            r@[0] == addr_hi(address as int),
            r@[1] == addr_lo(address as int),
            forall|k: int| 0 <= k < j ==> r@[k + 2] == bytes@[k],
        decreases bytes@.len() - j,
    {
        r.push(*slice_index_get(bytes, j));
        j += 1;
    }
    proof {
        assert(r@.skip(2) =~= bytes@);
        lemma_header_address(address as int);
    }
    r
}

} // verus!
