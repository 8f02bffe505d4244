//! SMF Header: the 6-byte `MThd` chunk that opens a MIDI file.

use vstd::prelude::*;

use crate::error::SMFError;
use crate::stream::{can_read, read_u16_be, read_u32_be, read_u8, skip, spec_skip, spec_u16_be,
    spec_u32_be};

verus! {

/// Contains the information found in a standard 6-byte MThd Header of a MIDI
/// File.
#[derive(Copy, Clone, Debug, PartialEq)]
pub struct SMFHeader {
    /// Header Length
    pub length: u32,
    /// Format of this MIDI File
    pub format: Format,
    /// Number of tracks after the header
    pub nb_tracks: u16,
    /// Provides information on what the delta times represent
    pub time_division: TimeScale,
}

/// The Format field in a MIDI File Header.
#[derive(Copy, Clone, Debug, PartialEq)]
pub enum Format {
    /// Single Track in the MIDI File.
    SingleTrack,
    /// Multiple Tracks meant to be played together.
    MultipleTrack,
    /// Multiple Tracks meant to be played separately.
    MultipleSong,
}

/// The possible time scales a MIDI File can use.
#[derive(Copy, Clone, Debug, PartialEq)]
pub enum TimeScale {
    TicksPerQuarterNote(u16),
    SMPTECompatible(i8, u8),
}

/// The two-byte value that stands for a Format in the header.
pub open spec fn spec_format_value(f: Format) -> u16 {
    match f {
        Format::SingleTrack => 0,
        Format::MultipleTrack => 1,
        Format::MultipleSong => 2,
    }
}

/// Decoding of the two-byte Format field at `pos`.
pub open spec fn spec_format_import(s: Seq<u8>, pos: int) -> Result<(Format, int), SMFError> {
    if !can_read(s, pos, 2) {
        Err(SMFError::OutOfData)
    } else {
        let x = spec_u16_be(s, pos);
        if x == 0 {
            Ok((Format::SingleTrack, pos + 2))
        } else if x == 1 {
            Ok((Format::MultipleTrack, pos + 2))
        } else if x == 2 {
            Ok((Format::MultipleSong, pos + 2))
        } else {
            Err(SMFError::UnknownFormat(x))
        }
    }
}

/// The two bytes that encode a Format.
pub open spec fn spec_format_encode(f: Format) -> Seq<u8> {
    seq![0u8, spec_format_value(f) as u8]
}

/// Decoding of the two-byte Division field at `pos`: with the top bit set the
/// bytes are an SMPTE frame rate and a tick resolution, otherwise the value
/// counts ticks per quarter note.
pub open spec fn spec_timescale_import(s: Seq<u8>, pos: int) -> Result<(TimeScale, int), SMFError> {
    if !can_read(s, pos, 2) {
        Err(SMFError::OutOfData)
    } else {
        let x = spec_u16_be(s, pos);
        if x >= 0x8000 {
            Ok((TimeScale::SMPTECompatible(s[pos] as i8, s[pos + 1]), pos + 2))
        } else {
            Ok((TimeScale::TicksPerQuarterNote(x), pos + 2))
        }
    }
}

/// The two bytes that encode a TimeScale.
pub open spec fn spec_timescale_encode(t: TimeScale) -> Seq<u8> {
    match t {
        TimeScale::TicksPerQuarterNote(v) => seq![(v / 0x100) as u8, (v % 0x100) as u8],
        TimeScale::SMPTECompatible(v, w) => seq![v as u8, w],
    }
}

/// True of a header that can be written back out: the declared length must be
/// the standard 6 and at least one track must be announced.
pub open spec fn spec_header_encodable(h: SMFHeader) -> bool {
    h.length == 6 && h.nb_tracks != 0
}

/// The 14 bytes that encode a header: the `MThd` tag, the length 6, and the
/// three header fields.
pub open spec fn spec_header_encode(h: SMFHeader) -> Seq<u8>
    recommends
        spec_header_encodable(h),
{
    seq![0x4Du8, 0x54u8, 0x68u8, 0x64u8, 0u8, 0u8, 0u8, 6u8] + spec_format_encode(h.format) + seq![
        (h.nb_tracks / 0x100) as u8,
        (h.nb_tracks % 0x100) as u8,
    ] + spec_timescale_encode(h.time_division)
}

/// Decoding of a whole MThd chunk at `pos`: the `MThd` tag, a declared
/// length that must be at least 6, the three fields, and a skip over
/// whatever an oversized declared length appends to them.
pub open spec fn spec_header_import(s: Seq<u8>, pos: int) -> Result<(SMFHeader, int), SMFError> {
    if !can_read(s, pos, 4) {
        Err(SMFError::OutOfData)
    } else if !(s[pos] == 0x4Du8 && s[pos + 1] == 0x54u8 && s[pos + 2] == 0x68u8 && s[pos + 3] == 0x64u8) {
        Err(SMFError::MagicNumber)
    } else if !can_read(s, pos + 4, 4) {
        Err(SMFError::OutOfData)
    } else {
        let length = spec_u32_be(s, pos + 4);
        if length < 6 {
            Err(SMFError::UnexpectedMThdLength(length))
        } else {
            match spec_format_import(s, pos + 8) {
                Err(e) => Err(e),
                Ok((format, p1)) => if !can_read(s, p1, 2) {
                    Err(SMFError::OutOfData)
                } else {
                    let nb_tracks = spec_u16_be(s, p1);
                    if nb_tracks == 0 {
                        Err(SMFError::NoTracks)
                    } else {
                        match spec_timescale_import(s, p1 + 2) {
                            Err(e) => Err(e),
                            Ok((time_division, p2)) => {
                                let p3 = if length > 6 {
                                    spec_skip(s, p2, length - 6)
                                } else {
                                    p2
                                };
                                Ok((SMFHeader { length, format, nb_tracks, time_division }, p3))
                            },
                        }
                    }
                },
            }
        }
    }
}

impl Format {
    /// Returns the corresponding value for a Format.
    pub fn get_value(self) -> (v: u16)
        ensures
            v == spec_format_value(self),
    {
        match self {
            Format::SingleTrack => 0,
            Format::MultipleTrack => 1,
            Format::MultipleSong => 2,
        }
    }

    /// Reads the u16 format field of the header at `pos`.
    pub fn import(data: &[u8], pos: usize) -> (res: Result<(Format, usize), SMFError>)
        ensures
            match res {
                Ok((f, npos)) => spec_format_import(data@, pos as int) == Ok::<_, SMFError>(
                    (f, npos as int),
                ) && pos + 2 == npos <= data@.len(),
                Err(e) => spec_format_import(data@, pos as int) == Err::<(Format, int), _>(e),
            },
    {
        let x = read_u16_be(data, pos)?;
        match x {
            0 => Ok((Format::SingleTrack, pos + 2)),
            1 => Ok((Format::MultipleTrack, pos + 2)),
            2 => Ok((Format::MultipleSong, pos + 2)),
            _ => Err(SMFError::UnknownFormat(x)),
        }
    }

    /// Appends the u16 Format field of the header to `out`.
    pub fn export(self, out: &mut Vec<u8>) -> (res: Result<(), SMFError>)
        ensures
            res is Ok,
            final(out)@ == old(out)@ + spec_format_encode(self),
    {
        out.push(0);
        out.push(self.get_value() as u8);
        proof {
            assert(final(out)@ =~= old(out)@ + spec_format_encode(self));
        }
        Ok(())
    }
}

impl TimeScale {
    /// Reads the 2-byte Division information of the MThd at `pos`.
    pub fn import(data: &[u8], pos: usize) -> (res: Result<(TimeScale, usize), SMFError>)
        ensures
            match res {
                Ok((t, npos)) => spec_timescale_import(data@, pos as int) == Ok::<_, SMFError>(
                    (t, npos as int),
                ) && pos + 2 == npos <= data@.len(),
                Err(e) => spec_timescale_import(data@, pos as int) == Err::<(TimeScale, int), _>(e),
            },
    {
        let x = read_u16_be(data, pos)?;
        if x >= 0x8000 {
            let hi = read_u8(data, pos)?;
            let lo = read_u8(data, pos + 1)?;
            Ok((TimeScale::SMPTECompatible(hi as i8, lo), pos + 2))
        } else {
            Ok((TimeScale::TicksPerQuarterNote(x), pos + 2))
        }
    }

    /// Appends the 2-byte Division information of the MThd to `out`.
    pub fn export(self, out: &mut Vec<u8>) -> (res: Result<(), SMFError>)
        ensures
            res is Ok,
            final(out)@ == old(out)@ + spec_timescale_encode(self),
    {
        match self {
            TimeScale::TicksPerQuarterNote(v) => {
                out.push((v / 0x100) as u8);
                out.push((v % 0x100) as u8);
            },
            TimeScale::SMPTECompatible(v, w) => {
                out.push(v as u8);
                out.push(w);
            },
        }
        proof {
            assert(final(out)@ =~= old(out)@ + spec_timescale_encode(self));
        }
        Ok(())
    }
}

impl SMFHeader {
    /// Reads an MThd chunk at `pos`.
    pub fn import(data: &[u8], pos: usize) -> (res: Result<(SMFHeader, usize), SMFError>)
        ensures
            match res {
                Ok((h, npos)) => spec_header_import(data@, pos as int) == Ok::<_, SMFError>(
                    (h, npos as int),
                ) && pos < npos <= data@.len(),
                Err(e) => spec_header_import(data@, pos as int) == Err::<(SMFHeader, int), _>(e),
            },
    {
        if pos >= data.len() || data.len() - pos < 4 {
            return Err(SMFError::OutOfData);
        }
        if !(data[pos] == 0x4Du8 && data[pos + 1] == 0x54u8 && data[pos + 2] == 0x68u8 && data[pos + 3]
            == 0x64u8) {
            return Err(SMFError::MagicNumber);
        }
        let length = read_u32_be(data, pos + 4)?;
        if length < 6 {
            return Err(SMFError::UnexpectedMThdLength(length));
        }
        let (format, p1) = Format::import(data, pos + 8)?;
        let nb_tracks = read_u16_be(data, p1)?;
        if nb_tracks == 0 {
            return Err(SMFError::NoTracks);
        }
        let (time_division, p2) = TimeScale::import(data, p1 + 2)?;
        let p3 = if length > 6 {
            // Skip unknown data.
            skip(data, p2, length - 6)
        } else {
            p2
        };
        Ok((SMFHeader { length, format, nb_tracks, time_division }, p3))
    }

    /// Appends the MThd chunk to `out`. On an error nothing is appended.
    pub fn export(&self, out: &mut Vec<u8>) -> (res: Result<(), SMFError>)
        ensures
            match res {
                Ok(()) => spec_header_encodable(*self) && final(out)@ == old(out)@
                    + spec_header_encode(*self),
                Err(e) => !spec_header_encodable(*self) && final(out)@ == old(out)@ && e == (
                if self.length != 6 {
                    SMFError::UnexpectedMThdLength(self.length)
                } else {
                    SMFError::NoTracks
                }),
            },
    {
        if self.length != 6 {
            return Err(SMFError::UnexpectedMThdLength(self.length));
        }
        if self.nb_tracks == 0 {
            return Err(SMFError::NoTracks);
        }
        out.push(0x4Du8);
        out.push(0x54u8);
        out.push(0x68u8);
        out.push(0x64u8);
        out.push(0);
        out.push(0);
        out.push(0);
        out.push(6);
        let res = self.format.export(out);
        if res.is_err() {
            return res;
        }
        out.push((self.nb_tracks / 0x100) as u8);
        out.push((self.nb_tracks % 0x100) as u8);
        let res = self.time_division.export(out);
        if res.is_err() {
            return res;
        }
        proof {
            assert(final(out)@ =~= old(out)@ + spec_header_encode(*self));
        }
        Ok(())
    }
}

} // verus!
