//! Cursor-style access to an in-memory byte stream.
//!
//! Every import in this crate walks a byte slice with an explicit position.
//! The helpers here read single bytes and big-endian integers, and skip over
//! tolerated slack, with specifications over the underlying byte sequence.

use vstd::prelude::*;

use crate::error::SMFError;

verus! {

/// True when `n` bytes can be read at position `pos` of the stream `s`.
pub open spec fn can_read(s: Seq<u8>, pos: int, n: int) -> bool {
    0 <= pos && pos + n <= s.len()
}

/// Position after skipping `n` bytes forward, clamped to the end of the
/// stream: a skip never reads, so skipping past the end is tolerated and
/// later reads there fail.
pub open spec fn spec_skip(s: Seq<u8>, pos: int, n: int) -> int
    recommends
        0 <= pos <= s.len(),
        0 <= n,
{
    if pos + n <= s.len() {
        pos + n
    } else {
        s.len() as int
    }
}

/// The big-endian 16-bit value stored at `pos`.
pub open spec fn spec_u16_be(s: Seq<u8>, pos: int) -> u16
    recommends
        can_read(s, pos, 2),
{
    (s[pos] * 0x100 + s[pos + 1]) as u16
}

/// The big-endian 32-bit value stored at `pos`.
pub open spec fn spec_u32_be(s: Seq<u8>, pos: int) -> u32
    recommends
        can_read(s, pos, 4),
{
    (s[pos] * 0x100_0000 + s[pos + 1] * 0x1_0000 + s[pos + 2] * 0x100 + s[pos + 3]) as u32
}

/// The four bytes of `v` in big-endian order.
pub open spec fn spec_u32_be_bytes(v: u32) -> Seq<u8> {
    seq![
        (v / 0x100_0000) as u8,
        ((v / 0x1_0000) % 0x100) as u8,
        ((v / 0x100) % 0x100) as u8,
        (v % 0x100) as u8,
    ]
}

/// Reads one byte at `pos`.
pub(crate) fn read_u8(data: &[u8], pos: usize) -> (res: Result<u8, SMFError>)
    ensures
        match res {
            Ok(b) => can_read(data@, pos as int, 1) && b == data@[pos as int] && pos
                < usize::MAX,
            Err(e) => !can_read(data@, pos as int, 1) && e == SMFError::OutOfData,
        },
{
    if pos < data.len() {
        Ok(data[pos])
    } else {
        Err(SMFError::OutOfData)
    }
}

/// Reads a big-endian 16-bit value at `pos`.
pub(crate) fn read_u16_be(data: &[u8], pos: usize) -> (res: Result<u16, SMFError>)
    ensures
        match res {
            Ok(v) => can_read(data@, pos as int, 2) && v == spec_u16_be(data@, pos as int) && pos
                + 2 <= usize::MAX,
            Err(e) => !can_read(data@, pos as int, 2) && e == SMFError::OutOfData,
        },
{
    if pos < data.len() && data.len() - pos >= 2 {
        Ok((data[pos] as u16) * 0x100 + (data[pos + 1] as u16))
    } else {
        Err(SMFError::OutOfData)
    }
}

/// Reads a big-endian 32-bit value at `pos`.
pub(crate) fn read_u32_be(data: &[u8], pos: usize) -> (res: Result<u32, SMFError>)
    ensures
        match res {
            Ok(v) => can_read(data@, pos as int, 4) && v == spec_u32_be(data@, pos as int) && pos
                + 4 <= usize::MAX,
            Err(e) => !can_read(data@, pos as int, 4) && e == SMFError::OutOfData,
        },
{
    if pos < data.len() && data.len() - pos >= 4 {
        Ok(
            (data[pos] as u32) * 0x100_0000 + (data[pos + 1] as u32) * 0x1_0000 + (data[pos
                + 2] as u32) * 0x100 + (data[pos + 3] as u32),
        )
    } else {
        Err(SMFError::OutOfData)
    }
}

/// Appends every byte of `data` to `out`.
pub(crate) fn push_bytes(out: &mut Vec<u8>, data: &[u8])
    ensures
        final(out)@ == old(out)@ + data@,
{
    let mut i: usize = 0;
    proof {
        assert(out@ =~= old(out)@ + data@.subrange(0, 0));
    }
    while i < data.len()
        invariant
            i <= data@.len(),
            out@ == old(out)@ + data@.subrange(0, i as int),
        decreases data@.len() - i,
    {
        out.push(data[i]);
        proof {
            assert(out@ =~= old(out)@ + data@.subrange(0, i + 1));
        }
        i = i + 1;
    }
    proof {
        assert(out@ =~= old(out)@ + data@);
    }
}

/// Skips `n` bytes forward, clamping at the end of the stream.
pub(crate) fn skip(data: &[u8], pos: usize, n: u32) -> (npos: usize)
    requires
        pos <= data@.len(),
    ensures
        npos == spec_skip(data@, pos as int, n as int),
        pos <= npos <= data@.len(),
{
    if (n as usize) <= data.len() - pos {
        pos + (n as usize)
    } else {
        data.len()
    }
}

} // verus!
