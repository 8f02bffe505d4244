//! Stuff for Reading/Creating VLVs.
//!
//! A variable-length value stores an unsigned integer in 1 to 4 bytes of 7
//! payload bits each, most significant group first; the high bit of a byte
//! says that more bytes follow. Values range from 0 to 2^28 - 1. Encoding
//! always emits the minimal number of bytes; decoding also accepts
//! non-minimal chains of up to 4 bytes.

use vstd::prelude::*;

use crate::error::{SMFError, VLVError};
use crate::stream::can_read;

verus! {

broadcast use vstd::arithmetic::div_mod::lemma_fundamental_div_mod;

/// Number of bytes of the canonical (minimal) encoding of `value`.
pub open spec fn spec_vlv_length(value: u32) -> int
    recommends
        value < 0x1000_0000,
{
    if value < 0x80 {
        1
    } else if value < 0x4000 {
        2
    } else if value < 0x20_0000 {
        3
    } else {
        4
    }
}

/// The canonical encoding of `value`: its 7-bit groups, most significant
/// first, with the continuation bit set on every byte but the last.
pub open spec fn spec_vlv_encode(value: u32) -> Seq<u8>
    recommends
        value < 0x1000_0000,
{
    if value < 0x80 {
        seq![value as u8]
    } else if value < 0x4000 {
        seq![(0x80 + value / 0x80) as u8, (value % 0x80) as u8]
    } else if value < 0x20_0000 {
        seq![
            (0x80 + value / 0x4000) as u8,
            (0x80 + (value / 0x80) % 0x80) as u8,
            (value % 0x80) as u8,
        ]
    } else {
        seq![
            (0x80 + value / 0x20_0000) as u8,
            (0x80 + (value / 0x4000) % 0x80) as u8,
            (0x80 + (value / 0x80) % 0x80) as u8,
            (value % 0x80) as u8,
        ]
    }
}

/// Decoding of a VLV whose first byte `first` has already been consumed and
/// whose remaining bytes start at `pos`. A byte below 0x80 ends the chain
/// and contributes the last 7 bits; a 5th chained byte is refused.
pub open spec fn spec_vlv_partial_import(s: Seq<u8>, pos: int, first: u8) -> Result<
    (u32, int),
    SMFError,
> {
    if first < 0x80 {
        Ok((first as u32, pos))
    } else if !can_read(s, pos, 1) {
        Err(SMFError::OutOfData)
    } else if s[pos] < 0x80 {
        Ok((((first - 0x80) * 0x80 + s[pos]) as u32, pos + 1))
    } else if !can_read(s, pos + 1, 1) {
        Err(SMFError::OutOfData)
    } else if s[pos + 1] < 0x80 {
        Ok((((first - 0x80) * 0x4000 + (s[pos] - 0x80) * 0x80 + s[pos + 1]) as u32, pos + 2))
    } else if !can_read(s, pos + 2, 1) {
        Err(SMFError::OutOfData)
    } else if s[pos + 2] < 0x80 {
        Ok(
            (
                ((first - 0x80) * 0x20_0000 + (s[pos] - 0x80) * 0x4000 + (s[pos + 1] - 0x80) * 0x80
                    + s[pos + 2]) as u32,
                pos + 3,
            ),
        )
    } else {
        Err(SMFError::VLV(VLVError::VLVTooBig))
    }
}

/// Decoding of a VLV that starts at `pos` of the stream.
pub open spec fn spec_vlv_import(s: Seq<u8>, pos: int) -> Result<(u32, int), SMFError> {
    if !can_read(s, pos, 1) {
        Err(SMFError::OutOfData)
    } else {
        spec_vlv_partial_import(s, pos + 1, s[pos])
    }
}

/// Calculates the encoded length of a VLV, or returns an error when the
/// number is too big to fit.
pub fn calc_vlv_length(value: u32) -> (res: Result<u8, SMFError>)
    ensures
        match res {
            Ok(n) => value < 0x1000_0000 && n == spec_vlv_length(value),
            Err(e) => value >= 0x1000_0000 && e == SMFError::VLV(VLVError::NumberTooBig(value)),
        },
{
    if value < 0x80 {
        Ok(1)
    } else if value < 0x4000 {
        Ok(2)
    } else if value < 0x20_0000 {
        Ok(3)
    } else if value < 0x1000_0000 {
        Ok(4)
    } else {
        Err(SMFError::VLV(VLVError::NumberTooBig(value)))
    }
}

/// Represents a Variable Length Value: a number stored in 1 to 4 bytes,
/// depending on how big it is. The minimum value is 0 and the maximum is
/// 2^28 - 1.
#[derive(Copy, Clone, Debug, PartialEq)]
pub struct VLV {
    /// The value represented by this VLV
    pub value: u32,
}

impl VLV {
    /// True of every VLV whose value its encoding can hold.
    pub open spec fn wf(self) -> bool {
        self.value < 0x1000_0000
    }

    /// Creates a new VLV from a user provided value.
    pub fn new(value: u32) -> (res: Result<VLV, SMFError>)
        ensures
            match res {
                Ok(v) => value < 0x1000_0000 && v == (VLV { value }),
                Err(e) => value >= 0x1000_0000 && e == SMFError::VLV(
                    VLVError::NumberTooBig(value),
                ),
            },
    {
        let _ = calc_vlv_length(value)?;
        Ok(VLV { value })
    }

    /// Reads a VLV at position `pos` of the stream.
    pub fn import(data: &[u8], pos: usize) -> (res: Result<(VLV, usize), SMFError>)
        ensures
            match res {
                Ok((v, npos)) => spec_vlv_import(data@, pos as int) == Ok::<_, SMFError>(
                    (v.value, npos as int),
                ) && pos < npos <= data@.len() && v.wf(),
                Err(e) => spec_vlv_import(data@, pos as int) == Err::<(u32, int), _>(e),
            },
    {
        let first = crate::stream::read_u8(data, pos)?;
        Self::partial_import(data, pos + 1, first)
    }

    /// Reads a VLV whose first byte was already consumed: `first` seeds the
    /// chain and the remaining bytes come from position `pos` on.
    pub fn partial_import(data: &[u8], pos: usize, first: u8) -> (res: Result<
        (VLV, usize),
        SMFError,
    >)
        requires
            pos <= data@.len(),
        ensures
            match res {
                Ok((v, npos)) => spec_vlv_partial_import(data@, pos as int, first) == Ok::<
                    _,
                    SMFError,
                >((v.value, npos as int)) && pos <= npos <= data@.len() && v.wf(),
                Err(e) => spec_vlv_partial_import(data@, pos as int, first) == Err::<
                    (u32, int),
                    _,
                >(e),
            },
    {
        if first < 0x80 {
            return Ok((VLV { value: first as u32 }, pos));
        }
        let b1 = crate::stream::read_u8(data, pos)?;
        if b1 < 0x80 {
            let value = (first - 0x80) as u32 * 0x80 + b1 as u32;
            return Ok((VLV { value }, pos + 1));
        }
        let b2 = crate::stream::read_u8(data, pos + 1)?;
        if b2 < 0x80 {
            let value = (first - 0x80) as u32 * 0x4000 + (b1 - 0x80) as u32 * 0x80 + b2 as u32;
            return Ok((VLV { value }, pos + 2));
        }
        let b3 = crate::stream::read_u8(data, pos + 2)?;
        if b3 < 0x80 {
            let value = (first - 0x80) as u32 * 0x20_0000 + (b1 - 0x80) as u32 * 0x4000 + (b2
                - 0x80) as u32 * 0x80 + b3 as u32;
            return Ok((VLV { value }, pos + 3));
        }
        Err(SMFError::VLV(VLVError::VLVTooBig))
    }

    /// Appends the canonical encoding of this VLV to `out`. On an error
    /// nothing is appended.
    pub fn export(self, out: &mut Vec<u8>) -> (res: Result<(), SMFError>)
        ensures
            match res {
                Ok(()) => self.wf() && final(out)@ == old(out)@ + spec_vlv_encode(self.value),
                Err(e) => !self.wf() && e == SMFError::VLV(VLVError::NumberTooBig(self.value))
                    && final(out)@ == old(out)@,
            },
    {
        let real_length = calc_vlv_length(self.value)?;
        let value = self.value;
        if real_length == 1 {
            out.push(value as u8);
        } else if real_length == 2 {
            out.push(0x80 + (value / 0x80) as u8);
            out.push((value % 0x80) as u8);
        } else if real_length == 3 {
            out.push(0x80 + (value / 0x4000) as u8);
            out.push(0x80 + ((value / 0x80) % 0x80) as u8);
            out.push((value % 0x80) as u8);
        } else {
            out.push(0x80 + (value / 0x20_0000) as u8);
            out.push(0x80 + ((value / 0x4000) % 0x80) as u8);
            out.push(0x80 + ((value / 0x80) % 0x80) as u8);
            out.push((value % 0x80) as u8);
        }
        proof {
            assert(final(out)@ =~= old(out)@ + spec_vlv_encode(self.value));
        }
        Ok(())
    }
}

/// Law: decoding a canonical encoding gives the value back, and the
/// encoding has the minimal length of the size table: 1 byte below 2^7,
/// 2 below 2^14, 3 below 2^21, and 4 below 2^28.
pub proof fn lemma_vlv_round_trip(value: u32)
    requires
        value < 0x1000_0000,
    ensures
        spec_vlv_encode(value).len() == spec_vlv_length(value),
        spec_vlv_import(spec_vlv_encode(value), 0) == Ok::<_, SMFError>(
            (value, spec_vlv_length(value)),
        ),
{
    broadcast use vstd::arithmetic::div_mod::lemma_div_denominator;

    let v = value as int;
    if value < 0x80 {
    } else if value < 0x4000 {
        assert(1 <= v / 0x80 < 0x80);
    } else if value < 0x20_0000 {
        assert(1 <= v / 0x4000 < 0x80);
        assert((v / 0x80) / 0x80 == v / 0x4000);
    } else {
        assert(1 <= v / 0x20_0000 < 0x80);
        assert((v / 0x80) / 0x80 == v / 0x4000);
        assert((v / 0x4000) / 0x80 == v / 0x20_0000);
    }
}

/// A successful VLV decode with a consumed first byte never moves the cursor
/// backwards or past the end, and its value always fits a VLV.
pub proof fn lemma_vlv_partial_import_bounds(s: Seq<u8>, pos: int, first: u8)
    requires
        0 <= pos <= s.len(),
    ensures
        spec_vlv_partial_import(s, pos, first) matches Ok(r) ==> pos <= r.1 <= s.len() && r.0
            < 0x1000_0000,
{
}

/// A successful VLV decode consumes at least one byte and stays inside the
/// stream, and its value always fits a VLV.
pub proof fn lemma_vlv_import_bounds(s: Seq<u8>, pos: int)
    ensures
        spec_vlv_import(s, pos) matches Ok(r) ==> 0 <= pos && pos < r.1 <= s.len() && r.0
            < 0x1000_0000,
{
    if can_read(s, pos, 1) {
        lemma_vlv_partial_import_bounds(s, pos + 1, s[pos]);
    }
}

/// Law: any 1 to 4 byte chain whose continuation bits are consistent (every
/// byte but the last has the high bit set, the last does not) decodes
/// successfully and consumes exactly those bytes.
pub proof fn lemma_vlv_accepts_consistent_chain(s: Seq<u8>, pos: int, k: int)
    requires
        1 <= k <= 4,
        can_read(s, pos, k),
        forall|i: int| pos <= i < pos + k - 1 ==> s[i] >= 0x80,
        s[pos + k - 1] < 0x80,
    ensures
        spec_vlv_import(s, pos) matches Ok(r) && r.1 == pos + k,
{
}

/// Law: a chain of four continuation bytes, which would make the VLV reach a
/// fifth byte, is refused with `VLVTooBig`.
pub proof fn lemma_vlv_refuses_fifth_byte(s: Seq<u8>, pos: int)
    requires
        can_read(s, pos, 4),
        forall|i: int| pos <= i < pos + 4 ==> s[i] >= 0x80,
    ensures
        spec_vlv_import(s, pos) == Err::<(u32, int), _>(SMFError::VLV(VLVError::VLVTooBig)),
{
    assert(s[pos] >= 0x80 && s[pos + 1] >= 0x80 && s[pos + 2] >= 0x80 && s[pos + 3] >= 0x80);
}

} // verus!
