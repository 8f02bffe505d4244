//! Error types for everything that can go wrong while reading or writing a
//! Standard MIDI File.

use vstd::prelude::*;

verus! {

/// Error type returned when something goes wrong.
#[derive(Debug)]
pub enum SMFError {
    /// The byte stream ended before the data that was being read
    OutOfData,
    /// Something went wrong with a VLV
    VLV(VLVError),
    /// An expected magic number was not found
    MagicNumber,
    /// If the header length is different than 6 (lengths bigger than 6 are
    /// tolerated while importing)
    UnexpectedMThdLength(u32),
    /// Unknown Format in MThd
    UnknownFormat(u16),
    /// Header reports 0 tracks
    NoTracks,
    /// Reported number of tracks and real amount of tracks do not match
    VecHeaderTracksMismatch(u16, usize),
    /// Tried to use Running Status on first event
    NoPreviousEvent,
    /// Unknown Event encountered
    UnknownEvent(u8),
    /// Non-standard Meta Event Length
    UnexpectedMetaEventLength(u32),
    /// In a KeySignature Meta Event, if the second byte (major or minor key)
    /// is not set to 0 or 1
    KeySignatureUnknownKey(u8),
}

/// Errors related to VLVs
#[derive(Debug)]
pub enum VLVError {
    /// Number is too big to fit in a VLV
    NumberTooBig(u32),
    /// VLV is bigger than 4 bytes
    VLVTooBig,
}

} // verus!
