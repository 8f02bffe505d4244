//! An Event in a TrackEvent inside a Track of a MIDI File.
//!
//! One leading byte selects between three encoding families: channel voice
//! messages (with the channel in the low nibble), system-exclusive blobs,
//! and meta events (status 0xFF, a sub-type byte, a VLV length and a
//! payload). A leading byte without the high bit is not a status byte at
//! all: the event then reuses the previous status byte (running status) and
//! the byte just read is its first data byte.

use vstd::prelude::*;

use crate::error::{SMFError, VLVError};
use crate::stream::{can_read, push_bytes, read_u16_be, read_u8, skip, spec_skip, spec_u16_be};
use crate::vlv::{
    calc_vlv_length, spec_vlv_encode, spec_vlv_import, spec_vlv_length, spec_vlv_partial_import,
    VLV,
};
use vstd::utf8::encode_utf8;

verus! {

/// An Event in a TrackEvent inside a Track of a MIDI File.
/// This particular implementation puts all the MIDI, SysEx and Meta Events in
/// a single place for convenience.
#[derive(Clone, Debug, PartialEq)]
pub enum Event {
    /// Stops the sound of a currently active note
    NoteOff(NoteChange),
    /// Starts the sound of a note
    NoteOn(NoteChange),
    PolyphonicKeyPressure(PolyphonicKeyPressure),
    /// Changes a specific value in the MIDI Controller.
    ControllerChange(ControllerChange),
    /// Changes the program for this Channel. A Program defines how the
    /// channel will sound.
    ProgramChange(ProgramChange),
    ChannelPressure(ChannelPressure),
    /// Changes the pitch of every note on a MIDI Channel
    PitchBend(PitchBend),
    SystemExclusiveF0(SystemExclusive),
    SystemExclusiveF7(SystemExclusive),
    SequenceNumber(SequenceNumber),
    /// Generic Text within the MIDI File. Some more specific events exist for
    /// better classifying a message.
    Text(TextMessage),
    /// Copyright information on the current song
    Copyright(TextMessage),
    /// Name of the song
    SequenceTrackName(TextMessage),
    /// Human readable name of the instrument playing on this track
    InstrumentName(TextMessage),
    /// Lyrics that follow the song. For better results, each syllable must be
    /// separated into its own event.
    Lyric(TextMessage),
    Marker(TextMessage),
    CuePoint(TextMessage),
    ProgramName(TextMessage),
    DeviceName(TextMessage),
    MIDIChannelPrefix(MIDIChannelPrefix),
    MIDIPort(MIDIPort),
    /// Marks the end of a track, obligatory.
    EndOfTrack(EndOfTrack),
    /// Specifies the Tempo for all tracks in Microseconds per Quarter Note
    Tempo(Tempo),
    SMPTEOffset(SMPTEOffset),
    TimeSignature(TimeSignature),
    KeySignature(KeySignature),
    SequencerSpecificEvent(GenericMetaEvent),
    /// When a Meta Event is present but its meaning is Unknown
    UnknownMetaEvent(GenericMetaEvent),
}

/// The mathematical model of an Event: the same tagged union with sequences
/// in place of the owned payload buffers.
pub enum EventView {
    NoteOff(NoteChange),
    NoteOn(NoteChange),
    PolyphonicKeyPressure(PolyphonicKeyPressure),
    ControllerChange(ControllerChange),
    ProgramChange(ProgramChange),
    ChannelPressure(ChannelPressure),
    PitchBend(PitchBend),
    SystemExclusiveF0(SystemExclusiveView),
    SystemExclusiveF7(SystemExclusiveView),
    SequenceNumber(SequenceNumber),
    Text(TextMessageView),
    Copyright(TextMessageView),
    SequenceTrackName(TextMessageView),
    InstrumentName(TextMessageView),
    Lyric(TextMessageView),
    Marker(TextMessageView),
    CuePoint(TextMessageView),
    ProgramName(TextMessageView),
    DeviceName(TextMessageView),
    MIDIChannelPrefix(MIDIChannelPrefix),
    MIDIPort(MIDIPort),
    EndOfTrack(EndOfTrack),
    Tempo(Tempo),
    SMPTEOffset(SMPTEOffset),
    TimeSignature(TimeSignature),
    KeySignature(KeySignature),
    SequencerSpecificEvent(GenericMetaEventView),
    UnknownMetaEvent(GenericMetaEventView),
}

impl View for Event {
    type V = EventView;

    open spec fn view(&self) -> EventView {
        match self {
            Event::NoteOff(n) => EventView::NoteOff(*n),
            Event::NoteOn(n) => EventView::NoteOn(*n),
            Event::PolyphonicKeyPressure(p) => EventView::PolyphonicKeyPressure(*p),
            Event::ControllerChange(c) => EventView::ControllerChange(*c),
            Event::ProgramChange(p) => EventView::ProgramChange(*p),
            Event::ChannelPressure(c) => EventView::ChannelPressure(*c),
            Event::PitchBend(p) => EventView::PitchBend(*p),
            Event::SystemExclusiveF0(s) => EventView::SystemExclusiveF0(s@),
            Event::SystemExclusiveF7(s) => EventView::SystemExclusiveF7(s@),
            Event::SequenceNumber(s) => EventView::SequenceNumber(*s),
            Event::Text(t) => EventView::Text(t@),
            Event::Copyright(t) => EventView::Copyright(t@),
            Event::SequenceTrackName(t) => EventView::SequenceTrackName(t@),
            Event::InstrumentName(t) => EventView::InstrumentName(t@),
            Event::Lyric(t) => EventView::Lyric(t@),
            Event::Marker(t) => EventView::Marker(t@),
            Event::CuePoint(t) => EventView::CuePoint(t@),
            Event::ProgramName(t) => EventView::ProgramName(t@),
            Event::DeviceName(t) => EventView::DeviceName(t@),
            Event::MIDIChannelPrefix(m) => EventView::MIDIChannelPrefix(*m),
            Event::MIDIPort(m) => EventView::MIDIPort(*m),
            Event::EndOfTrack(e) => EventView::EndOfTrack(*e),
            Event::Tempo(t) => EventView::Tempo(*t),
            Event::SMPTEOffset(s) => EventView::SMPTEOffset(*s),
            Event::TimeSignature(t) => EventView::TimeSignature(*t),
            Event::KeySignature(k) => EventView::KeySignature(*k),
            Event::SequencerSpecificEvent(g) => EventView::SequencerSpecificEvent(g@),
            Event::UnknownMetaEvent(g) => EventView::UnknownMetaEvent(g@),
        }
    }
}

// MIDI Events

#[derive(Copy, Clone, Debug, PartialEq)]
pub struct NoteChange {
    pub channel: u8,
    pub key: u8,
    pub velocity: u8,
}

/// Decoding of the tail of a note event: the status byte and the key were
/// already consumed, the velocity is read at `pos`. The velocity byte is
/// taken as it stands: a NoteOn with velocity 0 stays a NoteOn.
pub open spec fn spec_note_change_import(s: Seq<u8>, pos: int, code_byte: u8, next_byte: u8) -> Result<
    (NoteChange, int),
    SMFError,
> {
    if !can_read(s, pos, 1) {
        Err(SMFError::OutOfData)
    } else {
        Ok(
            (
                NoteChange {
                    channel: (code_byte % 16) as u8,
                    key: next_byte,
                    velocity: s[pos],
                },
                pos + 1,
            ),
        )
    }
}

impl NoteChange {
    pub fn get_length(self) -> (r: u32)
        ensures
            r == 3,
    {
        3
    }

    pub fn import(data: &[u8], pos: usize, code_byte: u8, next_byte: u8) -> (res: Result<
        (NoteChange, usize),
        SMFError,
    >)
        ensures
            match res {
                Ok((n, npos)) => spec_note_change_import(data@, pos as int, code_byte, next_byte)
                    == Ok::<_, SMFError>((n, npos as int)) && pos < npos <= data@.len(),
                Err(e) => spec_note_change_import(data@, pos as int, code_byte, next_byte) == Err::<
                    (NoteChange, int),
                    _,
                >(e),
            },
    {
        let channel = code_byte % 16;
        let key = next_byte;
        let velocity = read_u8(data, pos)?;
        Ok((NoteChange { channel, key, velocity }, pos + 1))
    }
}

#[derive(Copy, Clone, Debug, PartialEq)]
pub struct PolyphonicKeyPressure {
    pub channel: u8,
    pub key: u8,
    pub pressure: u8,
}

/// Decoding of the tail of a polyphonic key pressure event: the pressure is
/// read at `pos`.
pub open spec fn spec_poly_pressure_import(s: Seq<u8>, pos: int, code_byte: u8, next_byte: u8) -> Result<
    (PolyphonicKeyPressure, int),
    SMFError,
> {
    if !can_read(s, pos, 1) {
        Err(SMFError::OutOfData)
    } else {
        Ok(
            (
                PolyphonicKeyPressure {
                    channel: (code_byte % 16) as u8,
                    key: next_byte,
                    pressure: s[pos],
                },
                pos + 1,
            ),
        )
    }
}

impl PolyphonicKeyPressure {
    pub fn get_length(self) -> (r: u32)
        ensures
            r == 3,
    {
        3
    }

    pub fn import(data: &[u8], pos: usize, code_byte: u8, next_byte: u8) -> (res: Result<
        (PolyphonicKeyPressure, usize),
        SMFError,
    >)
        ensures
            match res {
                Ok((p, npos)) => spec_poly_pressure_import(data@, pos as int, code_byte, next_byte)
                    == Ok::<_, SMFError>((p, npos as int)) && pos < npos <= data@.len(),
                Err(e) => spec_poly_pressure_import(data@, pos as int, code_byte, next_byte)
                    == Err::<(PolyphonicKeyPressure, int), _>(e),
            },
    {
        let channel = code_byte % 16;
        let key = next_byte;
        let pressure = read_u8(data, pos)?;
        Ok((PolyphonicKeyPressure { channel, key, pressure }, pos + 1))
    }
}

#[derive(Copy, Clone, Debug, PartialEq)]
pub struct ControllerChange {
    pub channel: u8,
    pub controller_number: u8,
    pub value: u8,
}

/// Decoding of the tail of a controller change event: the new value is read
/// at `pos`.
pub open spec fn spec_controller_change_import(
    s: Seq<u8>,
    pos: int,
    code_byte: u8,
    next_byte: u8,
) -> Result<(ControllerChange, int), SMFError> {
    if !can_read(s, pos, 1) {
        Err(SMFError::OutOfData)
    } else {
        Ok(
            (
                ControllerChange {
                    channel: (code_byte % 16) as u8,
                    controller_number: next_byte,
                    value: s[pos],
                },
                pos + 1,
            ),
        )
    }
}

impl ControllerChange {
    pub fn get_length(self) -> (r: u32)
        ensures
            r == 3,
    {
        3
    }

    pub fn import(data: &[u8], pos: usize, code_byte: u8, next_byte: u8) -> (res: Result<
        (ControllerChange, usize),
        SMFError,
    >)
        ensures
            match res {
                Ok((c, npos)) => spec_controller_change_import(
                    data@,
                    pos as int,
                    code_byte,
                    next_byte,
                ) == Ok::<_, SMFError>((c, npos as int)) && pos < npos <= data@.len(),
                Err(e) => spec_controller_change_import(data@, pos as int, code_byte, next_byte)
                    == Err::<(ControllerChange, int), _>(e),
            },
    {
        let channel = code_byte % 16;
        let controller_number = next_byte;
        let value = read_u8(data, pos)?;
        Ok((ControllerChange { channel, controller_number, value }, pos + 1))
    }
}

#[derive(Copy, Clone, Debug, PartialEq)]
pub struct ProgramChange {
    pub channel: u8,
    pub program: u8,
}

/// Decoding of a program change event: both of its bytes were already
/// consumed, so nothing further is read.
pub open spec fn spec_program_change_import(code_byte: u8, next_byte: u8) -> ProgramChange {
    ProgramChange { channel: (code_byte % 16) as u8, program: next_byte }
}

impl ProgramChange {
    pub fn get_length(self) -> (r: u32)
        ensures
            r == 2,
    {
        2
    }

    pub fn import(code_byte: u8, next_byte: u8) -> (res: ProgramChange)
        ensures
            res == spec_program_change_import(code_byte, next_byte),
    {
        let channel = code_byte % 16;
        let program = next_byte;
        ProgramChange { channel, program }
    }
}

#[derive(Copy, Clone, Debug, PartialEq)]
pub struct ChannelPressure {
    pub channel: u8,
    pub pressure: u8,
}

/// Decoding of a channel pressure event: both of its bytes were already
/// consumed, so nothing further is read.
pub open spec fn spec_channel_pressure_import(code_byte: u8, next_byte: u8) -> ChannelPressure {
    ChannelPressure { channel: (code_byte % 16) as u8, pressure: next_byte }
}

impl ChannelPressure {
    pub fn get_length(self) -> (r: u32)
        ensures
            r == 2,
    {
        2
    }

    pub fn import(code_byte: u8, next_byte: u8) -> (res: ChannelPressure)
        ensures
            res == spec_channel_pressure_import(code_byte, next_byte),
    {
        let channel = code_byte % 16;
        let pressure = next_byte;
        ChannelPressure { channel, pressure }
    }
}

#[derive(Copy, Clone, Debug, PartialEq)]
pub struct PitchBend {
    pub channel: u8,
    pub value: u16,
}

/// Decoding of the tail of a pitch bend event. The byte read at `pos` is the
/// most significant byte and the data byte that came before it the least
/// significant one: an inversion relative to the format's usual ordering,
/// preserved exactly.
pub open spec fn spec_pitch_bend_import(s: Seq<u8>, pos: int, code_byte: u8, next_byte: u8) -> Result<
    (PitchBend, int),
    SMFError,
> {
    if !can_read(s, pos, 1) {
        Err(SMFError::OutOfData)
    } else {
        Ok(
            (
                PitchBend {
                    channel: (code_byte % 16) as u8,
                    value: (s[pos] * 0x100 + next_byte) as u16,
                },
                pos + 1,
            ),
        )
    }
}

impl PitchBend {
    pub fn get_length(self) -> (r: u32)
        ensures
            r == 3,
    {
        3
    }

    pub fn import(data: &[u8], pos: usize, code_byte: u8, next_byte: u8) -> (res: Result<
        (PitchBend, usize),
        SMFError,
    >)
        ensures
            match res {
                Ok((p, npos)) => spec_pitch_bend_import(data@, pos as int, code_byte, next_byte)
                    == Ok::<_, SMFError>((p, npos as int)) && pos < npos <= data@.len(),
                Err(e) => spec_pitch_bend_import(data@, pos as int, code_byte, next_byte) == Err::<
                    (PitchBend, int),
                    _,
                >(e),
            },
    {
        let channel = code_byte % 16;
        let msb = read_u8(data, pos)?;
        let value = (msb as u16) * 0x100 + (next_byte as u16);
        Ok((PitchBend { channel, value }, pos + 1))
    }
}

// System Exclusive

#[derive(Clone, Debug, PartialEq)]
pub struct SystemExclusive {
    pub length: VLV,
    pub data: Vec<u8>,
}

/// The mathematical model of a system-exclusive blob.
pub struct SystemExclusiveView {
    pub length: VLV,
    pub data: Seq<u8>,
}

impl View for SystemExclusive {
    type V = SystemExclusiveView;

    open spec fn view(&self) -> SystemExclusiveView {
        SystemExclusiveView { length: self.length, data: self.data@ }
    }
}

/// Decoding of a system-exclusive blob: a VLV length seeded with the already
/// consumed data byte, then that many raw payload bytes.
pub open spec fn spec_sysex_import(s: Seq<u8>, pos: int, next_byte: u8) -> Result<
    (SystemExclusiveView, int),
    SMFError,
> {
    match spec_vlv_partial_import(s, pos, next_byte) {
        Err(e) => Err(e),
        Ok((len, p1)) => if !can_read(s, p1, len as int) {
            Err(SMFError::OutOfData)
        } else {
            Ok(
                (
                    SystemExclusiveView {
                        length: VLV { value: len },
                        data: s.subrange(p1, p1 + len),
                    },
                    p1 + len,
                ),
            )
        },
    }
}

impl SystemExclusive {
    pub fn import(data: &[u8], pos: usize, next_byte: u8) -> (res: Result<
        (SystemExclusive, usize),
        SMFError,
    >)
        requires
            pos <= data@.len(),
        ensures
            match res {
                Ok((x, npos)) => spec_sysex_import(data@, pos as int, next_byte) == Ok::<
                    _,
                    SMFError,
                >((x@, npos as int)) && pos <= npos <= data@.len(),
                Err(e) => spec_sysex_import(data@, pos as int, next_byte) == Err::<
                    (SystemExclusiveView, int),
                    _,
                >(e),
            },
    {
        let (length, p1) = VLV::partial_import(data, pos, next_byte)?;
        let n = length.value as usize;
        if n > data.len() - p1 {
            return Err(SMFError::OutOfData);
        }
        let payload = vstd::slice::slice_subrange(data, p1, p1 + n);
        let contents = vstd::slice::slice_to_vec(payload);
        Ok((SystemExclusive { length, data: contents }, p1 + n))
    }
}

// Meta Event

#[derive(Copy, Clone, Debug, PartialEq)]
pub struct SequenceNumber {
    pub sequence_number: u16,
}

/// Decoding of a SequenceNumber meta event: a declared length of at least 2,
/// a big-endian 16-bit number, and a skip over any surplus bytes.
pub open spec fn spec_sequence_number_import(s: Seq<u8>, pos: int) -> Result<
    (SequenceNumber, int),
    SMFError,
> {
    match spec_vlv_import(s, pos) {
        Err(e) => Err(e),
        Ok((len, p1)) => if len < 2 {
            Err(SMFError::UnexpectedMetaEventLength(len))
        } else if !can_read(s, p1, 2) {
            Err(SMFError::OutOfData)
        } else {
            Ok(
                (
                    SequenceNumber { sequence_number: spec_u16_be(s, p1) },
                    spec_skip(s, p1 + 2, len - 2),
                ),
            )
        },
    }
}

impl SequenceNumber {
    pub fn get_length(self) -> (r: u32)
        ensures
            r == 5,
    {
        5
    }

    pub fn import(data: &[u8], pos: usize) -> (res: Result<(SequenceNumber, usize), SMFError>)
        ensures
            match res {
                Ok((x, npos)) => spec_sequence_number_import(data@, pos as int) == Ok::<
                    _,
                    SMFError,
                >((x, npos as int)) && pos < npos <= data@.len(),
                Err(e) => spec_sequence_number_import(data@, pos as int) == Err::<
                    (SequenceNumber, int),
                    _,
                >(e),
            },
    {
        let (length, p1) = VLV::import(data, pos)?;
        if length.value < 2 {
            return Err(SMFError::UnexpectedMetaEventLength(length.value));
        }
        let sequence_number = read_u16_be(data, p1)?;
        let npos = skip(data, p1 + 2, length.value - 2);
        Ok((SequenceNumber { sequence_number }, npos))
    }
}

#[derive(Clone, Debug, PartialEq)]
pub struct TextMessage {
    pub length: VLV,
    pub text: String,
}

/// The mathematical model of a free-text meta event.
pub struct TextMessageView {
    pub length: VLV,
    pub text: Seq<char>,
}

impl View for TextMessage {
    type V = TextMessageView;

    open spec fn view(&self) -> TextMessageView {
        TextMessageView { length: self.length, text: self.text@ }
    }
}

/// The characters that lossy UTF-8 conversion makes of a payload: invalid
/// sequences become replacement characters, valid ones stay as they are.
pub uninterp spec fn lossy_text_of(bytes: Seq<u8>) -> Seq<char>;

/// Relies on String::from_utf8_lossy: the characters produced are a function
/// of the payload bytes alone.
#[verifier::external_body]
fn bytes_to_text(data: &[u8]) -> (r: String)
    ensures
        r@ == lossy_text_of(data@),
{
    String::from_utf8_lossy(data).into_owned()
}

/// Decoding of a free-text meta event: a VLV length, then that many payload
/// bytes, read as text through lossy UTF-8 conversion.
pub open spec fn spec_text_import(s: Seq<u8>, pos: int) -> Result<(TextMessageView, int), SMFError> {
    match spec_vlv_import(s, pos) {
        Err(e) => Err(e),
        Ok((len, p1)) => if !can_read(s, p1, len as int) {
            Err(SMFError::OutOfData)
        } else {
            Ok(
                (
                    TextMessageView {
                        length: VLV { value: len },
                        text: lossy_text_of(s.subrange(p1, p1 + len)),
                    },
                    p1 + len,
                ),
            )
        },
    }
}

impl TextMessage {
    pub fn import(data: &[u8], pos: usize) -> (res: Result<(TextMessage, usize), SMFError>)
        ensures
            match res {
                Ok((t, npos)) => spec_text_import(data@, pos as int) == Ok::<_, SMFError>(
                    (t@, npos as int),
                ) && pos < npos <= data@.len(),
                Err(e) => spec_text_import(data@, pos as int) == Err::<(TextMessageView, int), _>(
                    e,
                ),
            },
    {
        let (length, p1) = VLV::import(data, pos)?;
        let n = length.value as usize;
        if n > data.len() - p1 {
            return Err(SMFError::OutOfData);
        }
        let payload = vstd::slice::slice_subrange(data, p1, p1 + n);
        let text = bytes_to_text(payload);
        Ok((TextMessage { length, text }, p1 + n))
    }
}

#[derive(Copy, Clone, Debug, PartialEq)]
pub struct MIDIChannelPrefix {
    pub channel: u8,
}

/// Decoding of a MIDIChannelPrefix meta event: a declared length of at least
/// 1, the channel byte, and a skip over any surplus bytes.
pub open spec fn spec_channel_prefix_import(s: Seq<u8>, pos: int) -> Result<
    (MIDIChannelPrefix, int),
    SMFError,
> {
    match spec_vlv_import(s, pos) {
        Err(e) => Err(e),
        Ok((len, p1)) => if len < 1 {
            Err(SMFError::UnexpectedMetaEventLength(len))
        } else if !can_read(s, p1, 1) {
            Err(SMFError::OutOfData)
        } else {
            Ok((MIDIChannelPrefix { channel: s[p1] }, spec_skip(s, p1 + 1, len - 1)))
        },
    }
}

impl MIDIChannelPrefix {
    pub fn get_length(self) -> (r: u32)
        ensures
            r == 4,
    {
        4
    }

    pub fn import(data: &[u8], pos: usize) -> (res: Result<(MIDIChannelPrefix, usize), SMFError>)
        ensures
            match res {
                Ok((x, npos)) => spec_channel_prefix_import(data@, pos as int) == Ok::<
                    _,
                    SMFError,
                >((x, npos as int)) && pos < npos <= data@.len(),
                Err(e) => spec_channel_prefix_import(data@, pos as int) == Err::<
                    (MIDIChannelPrefix, int),
                    _,
                >(e),
            },
    {
        let (length, p1) = VLV::import(data, pos)?;
        if length.value < 1 {
            return Err(SMFError::UnexpectedMetaEventLength(length.value));
        }
        let channel = read_u8(data, p1)?;
        let npos = skip(data, p1 + 1, length.value - 1);
        Ok((MIDIChannelPrefix { channel }, npos))
    }
}

#[derive(Copy, Clone, Debug, PartialEq)]
pub struct MIDIPort {
    pub port: u8,
}

/// Decoding of a MIDIPort meta event: a declared length of at least 1, the
/// port byte, and a skip over any surplus bytes.
pub open spec fn spec_port_import(s: Seq<u8>, pos: int) -> Result<(MIDIPort, int), SMFError> {
    match spec_vlv_import(s, pos) {
        Err(e) => Err(e),
        Ok((len, p1)) => if len < 1 {
            Err(SMFError::UnexpectedMetaEventLength(len))
        } else if !can_read(s, p1, 1) {
            Err(SMFError::OutOfData)
        } else {
            Ok((MIDIPort { port: s[p1] }, spec_skip(s, p1 + 1, len - 1)))
        },
    }
}

impl MIDIPort {
    pub fn get_length(self) -> (r: u32)
        ensures
            r == 4,
    {
        4
    }

    pub fn import(data: &[u8], pos: usize) -> (res: Result<(MIDIPort, usize), SMFError>)
        ensures
            match res {
                Ok((x, npos)) => spec_port_import(data@, pos as int) == Ok::<_, SMFError>(
                    (x, npos as int),
                ) && pos < npos <= data@.len(),
                Err(e) => spec_port_import(data@, pos as int) == Err::<(MIDIPort, int), _>(e),
            },
    {
        let (length, p1) = VLV::import(data, pos)?;
        if length.value < 1 {
            return Err(SMFError::UnexpectedMetaEventLength(length.value));
        }
        let port = read_u8(data, p1)?;
        let npos = skip(data, p1 + 1, length.value - 1);
        Ok((MIDIPort { port }, npos))
    }
}

#[derive(Copy, Clone, Debug, PartialEq)]
pub struct EndOfTrack {}

/// Decoding of an EndOfTrack meta event: its declared length is normally 0;
/// a longer one only skips that many bytes.
pub open spec fn spec_end_of_track_import(s: Seq<u8>, pos: int) -> Result<
    (EndOfTrack, int),
    SMFError,
> {
    match spec_vlv_import(s, pos) {
        Err(e) => Err(e),
        Ok((len, p1)) => Ok((EndOfTrack {  }, spec_skip(s, p1, len as int))),
    }
}

impl EndOfTrack {
    pub fn get_length(self) -> (r: u32)
        ensures
            r == 3,
    {
        3
    }

    pub fn import(data: &[u8], pos: usize) -> (res: Result<(EndOfTrack, usize), SMFError>)
        ensures
            match res {
                Ok((x, npos)) => spec_end_of_track_import(data@, pos as int) == Ok::<_, SMFError>(
                    (x, npos as int),
                ) && pos < npos <= data@.len(),
                Err(e) => spec_end_of_track_import(data@, pos as int) == Err::<
                    (EndOfTrack, int),
                    _,
                >(e),
            },
    {
        let (length, p1) = VLV::import(data, pos)?;
        let npos = skip(data, p1, length.value);
        Ok((EndOfTrack {  }, npos))
    }
}

#[derive(Copy, Clone, Debug, PartialEq)]
pub struct Tempo {
    pub value: u32,
}

/// Decoding of a Tempo meta event: a declared length of at least 3, a
/// big-endian 24-bit value, and a skip over any surplus bytes.
pub open spec fn spec_tempo_import(s: Seq<u8>, pos: int) -> Result<(Tempo, int), SMFError> {
    match spec_vlv_import(s, pos) {
        Err(e) => Err(e),
        Ok((len, p1)) => if len < 3 {
            Err(SMFError::UnexpectedMetaEventLength(len))
        } else if !can_read(s, p1, 3) {
            Err(SMFError::OutOfData)
        } else {
            Ok(
                (
                    Tempo { value: (s[p1] * 0x1_0000 + s[p1 + 1] * 0x100 + s[p1 + 2]) as u32 },
                    spec_skip(s, p1 + 3, len - 3),
                ),
            )
        },
    }
}

impl Tempo {
    pub fn get_length(self) -> (r: u32)
        ensures
            r == 6,
    {
        6
    }

    pub fn import(data: &[u8], pos: usize) -> (res: Result<(Tempo, usize), SMFError>)
        ensures
            match res {
                Ok((x, npos)) => spec_tempo_import(data@, pos as int) == Ok::<_, SMFError>(
                    (x, npos as int),
                ) && pos < npos <= data@.len(),
                Err(e) => spec_tempo_import(data@, pos as int) == Err::<(Tempo, int), _>(e),
            },
    {
        let (length, p1) = VLV::import(data, pos)?;
        if length.value < 3 {
            return Err(SMFError::UnexpectedMetaEventLength(length.value));
        }
        let b0 = read_u8(data, p1)?;
        let b1 = read_u8(data, p1 + 1)?;
        let b2 = read_u8(data, p1 + 2)?;
        let value = (b0 as u32) * 0x1_0000 + (b1 as u32) * 0x100 + (b2 as u32);
        let npos = skip(data, p1 + 3, length.value - 3);
        Ok((Tempo { value }, npos))
    }
}

#[derive(Copy, Clone, Debug, PartialEq)]
pub struct SMPTEOffset {
    pub hours: u8,
    pub minutes: u8,
    pub seconds: u8,
    pub frames: u8,
    pub fractional_frames: u8,
}

/// Decoding of an SMPTEOffset meta event: a declared length of at least 5,
/// the five time bytes, and a skip over any surplus bytes.
pub open spec fn spec_smpte_offset_import(s: Seq<u8>, pos: int) -> Result<
    (SMPTEOffset, int),
    SMFError,
> {
    match spec_vlv_import(s, pos) {
        Err(e) => Err(e),
        Ok((len, p1)) => if len < 5 {
            Err(SMFError::UnexpectedMetaEventLength(len))
        } else if !can_read(s, p1, 5) {
            Err(SMFError::OutOfData)
        } else {
            Ok(
                (
                    SMPTEOffset {
                        hours: s[p1],
                        minutes: s[p1 + 1],
                        seconds: s[p1 + 2],
                        frames: s[p1 + 3],
                        fractional_frames: s[p1 + 4],
                    },
                    spec_skip(s, p1 + 5, len - 5),
                ),
            )
        },
    }
}

impl SMPTEOffset {
    pub fn get_length(self) -> (r: u32)
        ensures
            r == 8,
    {
        8
    }

    pub fn import(data: &[u8], pos: usize) -> (res: Result<(SMPTEOffset, usize), SMFError>)
        ensures
            match res {
                Ok((x, npos)) => spec_smpte_offset_import(data@, pos as int) == Ok::<_, SMFError>(
                    (x, npos as int),
                ) && pos < npos <= data@.len(),
                Err(e) => spec_smpte_offset_import(data@, pos as int) == Err::<
                    (SMPTEOffset, int),
                    _,
                >(e),
            },
    {
        let (length, p1) = VLV::import(data, pos)?;
        if length.value < 5 {
            return Err(SMFError::UnexpectedMetaEventLength(length.value));
        }
        let hours = read_u8(data, p1)?;
        let minutes = read_u8(data, p1 + 1)?;
        let seconds = read_u8(data, p1 + 2)?;
        let frames = read_u8(data, p1 + 3)?;
        let fractional_frames = read_u8(data, p1 + 4)?;
        let npos = skip(data, p1 + 5, length.value - 5);
        Ok((SMPTEOffset { hours, minutes, seconds, frames, fractional_frames }, npos))
    }
}

#[derive(Copy, Clone, Debug, PartialEq)]
pub struct TimeSignature {
    pub numerator: u8,
    pub denominator: u8,
    pub clocks_between_metronome_clicks: u8,
    pub yes: u8,
}

/// Decoding of a TimeSignature meta event: a declared length of at least 4,
/// the four signature bytes, and a skip over any surplus bytes.
pub open spec fn spec_time_signature_import(s: Seq<u8>, pos: int) -> Result<
    (TimeSignature, int),
    SMFError,
> {
    match spec_vlv_import(s, pos) {
        Err(e) => Err(e),
        Ok((len, p1)) => if len < 4 {
            Err(SMFError::UnexpectedMetaEventLength(len))
        } else if !can_read(s, p1, 4) {
            Err(SMFError::OutOfData)
        } else {
            Ok(
                (
                    TimeSignature {
                        numerator: s[p1],
                        denominator: s[p1 + 1],
                        clocks_between_metronome_clicks: s[p1 + 2],
                        yes: s[p1 + 3],
                    },
                    spec_skip(s, p1 + 4, len - 4),
                ),
            )
        },
    }
}

impl TimeSignature {
    pub fn get_length(self) -> (r: u32)
        ensures
            r == 7,
    {
        7
    }

    pub fn import(data: &[u8], pos: usize) -> (res: Result<(TimeSignature, usize), SMFError>)
        ensures
            match res {
                Ok((x, npos)) => spec_time_signature_import(data@, pos as int) == Ok::<
                    _,
                    SMFError,
                >((x, npos as int)) && pos < npos <= data@.len(),
                Err(e) => spec_time_signature_import(data@, pos as int) == Err::<
                    (TimeSignature, int),
                    _,
                >(e),
            },
    {
        let (length, p1) = VLV::import(data, pos)?;
        if length.value < 4 {
            return Err(SMFError::UnexpectedMetaEventLength(length.value));
        }
        let numerator = read_u8(data, p1)?;
        let denominator = read_u8(data, p1 + 1)?;
        let clocks_between_metronome_clicks = read_u8(data, p1 + 2)?;
        let yes = read_u8(data, p1 + 3)?;
        let npos = skip(data, p1 + 4, length.value - 4);
        Ok((TimeSignature { numerator, denominator, clocks_between_metronome_clicks, yes }, npos))
    }
}

#[derive(Copy, Clone, Debug, PartialEq)]
pub struct KeySignature {
    pub flats_sharps: i8,
    pub key: Key,
}

/// Decoding of a KeySignature meta event: a declared length of at least 2,
/// the count of flats or sharps, the major or minor key byte, and a skip
/// over any surplus bytes.
pub open spec fn spec_key_signature_import(s: Seq<u8>, pos: int) -> Result<
    (KeySignature, int),
    SMFError,
> {
    match spec_vlv_import(s, pos) {
        Err(e) => Err(e),
        Ok((len, p1)) => if len < 2 {
            Err(SMFError::UnexpectedMetaEventLength(len))
        } else if !can_read(s, p1, 1) {
            Err(SMFError::OutOfData)
        } else {
            match spec_key_import(s, p1 + 1) {
                Err(e) => Err(e),
                Ok((key, _)) => Ok(
                    (
                        KeySignature { flats_sharps: s[p1] as i8, key },
                        spec_skip(s, p1 + 2, len - 2),
                    ),
                ),
            }
        },
    }
}

impl KeySignature {
    pub fn get_length(self) -> (r: u32)
        ensures
            r == 5,
    {
        5
    }

    pub fn import(data: &[u8], pos: usize) -> (res: Result<(KeySignature, usize), SMFError>)
        ensures
            match res {
                Ok((x, npos)) => spec_key_signature_import(data@, pos as int) == Ok::<_, SMFError>(
                    (x, npos as int),
                ) && pos < npos <= data@.len(),
                Err(e) => spec_key_signature_import(data@, pos as int) == Err::<
                    (KeySignature, int),
                    _,
                >(e),
            },
    {
        let (length, p1) = VLV::import(data, pos)?;
        if length.value < 2 {
            return Err(SMFError::UnexpectedMetaEventLength(length.value));
        }
        let flats_sharps = read_u8(data, p1)? as i8;
        let (key, _) = Key::import(data, p1 + 1)?;
        let npos = skip(data, p1 + 2, length.value - 2);
        Ok((KeySignature { flats_sharps, key }, npos))
    }
}

// Not an event !
#[derive(Copy, Clone, Debug, PartialEq)]
pub enum Key {
    Major,
    Minor,
}

/// The byte that encodes a Key.
pub open spec fn spec_key_value(k: Key) -> u8 {
    match k {
        Key::Major => 0,
        Key::Minor => 1,
    }
}

/// Decoding of the key byte of a KeySignature: 0 is major, 1 is minor, and
/// anything else is refused.
pub open spec fn spec_key_import(s: Seq<u8>, pos: int) -> Result<(Key, int), SMFError> {
    if !can_read(s, pos, 1) {
        Err(SMFError::OutOfData)
    } else if s[pos] == 0 {
        Ok((Key::Major, pos + 1))
    } else if s[pos] == 1 {
        Ok((Key::Minor, pos + 1))
    } else {
        Err(SMFError::KeySignatureUnknownKey(s[pos]))
    }
}

impl Key {
    pub fn import(data: &[u8], pos: usize) -> (res: Result<(Key, usize), SMFError>)
        ensures
            match res {
                Ok((k, npos)) => spec_key_import(data@, pos as int) == Ok::<_, SMFError>(
                    (k, npos as int),
                ) && pos < npos <= data@.len(),
                Err(e) => spec_key_import(data@, pos as int) == Err::<(Key, int), _>(e),
            },
    {
        let key = read_u8(data, pos)?;
        match key {
            0 => Ok((Key::Major, pos + 1)),
            1 => Ok((Key::Minor, pos + 1)),
            x => Err(SMFError::KeySignatureUnknownKey(x)),
        }
    }

    /// Appends the byte that encodes this Key to `out`.
    pub fn export(self, out: &mut Vec<u8>) -> (res: Result<(), SMFError>)
        ensures
            res is Ok,
            final(out)@ == old(out)@ + seq![spec_key_value(self)],
    {
        out.push(
            match self {
                Key::Major => 0,
                Key::Minor => 1,
            },
        );
        proof {
            assert(final(out)@ =~= old(out)@ + seq![spec_key_value(self)]);
        }
        Ok(())
    }
}

#[derive(Clone, Debug, PartialEq)]
pub struct GenericMetaEvent {
    pub length: VLV,
    pub data: Vec<u8>,
}

/// The mathematical model of a meta event kept opaquely.
pub struct GenericMetaEventView {
    pub length: VLV,
    pub data: Seq<u8>,
}

impl View for GenericMetaEvent {
    type V = GenericMetaEventView;

    open spec fn view(&self) -> GenericMetaEventView {
        GenericMetaEventView { length: self.length, data: self.data@ }
    }
}

/// Decoding of a meta event whose sub-type carries no recognized structure:
/// a VLV length, then that many raw payload bytes kept as they are.
pub open spec fn spec_generic_meta_import(s: Seq<u8>, pos: int) -> Result<
    (GenericMetaEventView, int),
    SMFError,
> {
    match spec_vlv_import(s, pos) {
        Err(e) => Err(e),
        Ok((len, p1)) => if !can_read(s, p1, len as int) {
            Err(SMFError::OutOfData)
        } else {
            Ok(
                (
                    GenericMetaEventView {
                        length: VLV { value: len },
                        data: s.subrange(p1, p1 + len),
                    },
                    p1 + len,
                ),
            )
        },
    }
}

impl GenericMetaEvent {
    pub fn import(data: &[u8], pos: usize) -> (res: Result<(GenericMetaEvent, usize), SMFError>)
        ensures
            match res {
                Ok((g, npos)) => spec_generic_meta_import(data@, pos as int) == Ok::<_, SMFError>(
                    (g@, npos as int),
                ) && pos < npos <= data@.len(),
                Err(e) => spec_generic_meta_import(data@, pos as int) == Err::<
                    (GenericMetaEventView, int),
                    _,
                >(e),
            },
    {
        let (length, p1) = VLV::import(data, pos)?;
        let n = length.value as usize;
        if n > data.len() - p1 {
            return Err(SMFError::OutOfData);
        }
        let payload = vstd::slice::slice_subrange(data, p1, p1 + n);
        let contents = vstd::slice::slice_to_vec(payload);
        Ok((GenericMetaEvent { length, data: contents }, p1 + n))
    }
}

// Decoding of a whole event

/// The free-text event that a meta sub-type between 1 and 9 selects.
pub open spec fn spec_text_event_view(sub_type: u8, t: TextMessageView) -> EventView
    recommends
        1 <= sub_type <= 9,
{
    if sub_type == 1 {
        EventView::Text(t)
    } else if sub_type == 2 {
        EventView::Copyright(t)
    } else if sub_type == 3 {
        EventView::SequenceTrackName(t)
    } else if sub_type == 4 {
        EventView::InstrumentName(t)
    } else if sub_type == 5 {
        EventView::Lyric(t)
    } else if sub_type == 6 {
        EventView::Marker(t)
    } else if sub_type == 7 {
        EventView::CuePoint(t)
    } else if sub_type == 8 {
        EventView::ProgramName(t)
    } else {
        EventView::DeviceName(t)
    }
}

/// Decoding of the body of a meta event at `pos`, given its already consumed
/// sub-type byte. Recognized sub-types decode their fixed or text structure;
/// any other sub-type keeps its payload opaquely.
pub open spec fn spec_meta_import(s: Seq<u8>, pos: int, sub_type: u8) -> Result<
    (EventView, int),
    SMFError,
> {
    if sub_type == 0 {
        match spec_sequence_number_import(s, pos) {
            Ok((x, p)) => Ok((EventView::SequenceNumber(x), p)),
            Err(e) => Err(e),
        }
    } else if 1 <= sub_type && sub_type <= 9 {
        match spec_text_import(s, pos) {
            Ok((t, p)) => Ok((spec_text_event_view(sub_type, t), p)),
            Err(e) => Err(e),
        }
    } else if sub_type == 0x20 {
        match spec_channel_prefix_import(s, pos) {
            Ok((x, p)) => Ok((EventView::MIDIChannelPrefix(x), p)),
            Err(e) => Err(e),
        }
    } else if sub_type == 0x21 {
        match spec_port_import(s, pos) {
            Ok((x, p)) => Ok((EventView::MIDIPort(x), p)),
            Err(e) => Err(e),
        }
    } else if sub_type == 0x2F {
        match spec_end_of_track_import(s, pos) {
            Ok((x, p)) => Ok((EventView::EndOfTrack(x), p)),
            Err(e) => Err(e),
        }
    } else if sub_type == 0x51 {
        match spec_tempo_import(s, pos) {
            Ok((x, p)) => Ok((EventView::Tempo(x), p)),
            Err(e) => Err(e),
        }
    } else if sub_type == 0x54 {
        match spec_smpte_offset_import(s, pos) {
            Ok((x, p)) => Ok((EventView::SMPTEOffset(x), p)),
            Err(e) => Err(e),
        }
    } else if sub_type == 0x58 {
        match spec_time_signature_import(s, pos) {
            Ok((x, p)) => Ok((EventView::TimeSignature(x), p)),
            Err(e) => Err(e),
        }
    } else if sub_type == 0x59 {
        match spec_key_signature_import(s, pos) {
            Ok((x, p)) => Ok((EventView::KeySignature(x), p)),
            Err(e) => Err(e),
        }
    } else {
        match spec_generic_meta_import(s, pos) {
            Ok((g, p)) => Ok((EventView::UnknownMetaEvent(g), p)),
            Err(e) => Err(e),
        }
    }
}

/// Decoding of an event whose status byte `code_byte` and first data byte
/// `next_byte` were already consumed: the high nibble of the status selects
/// the family, and a status outside the three families is refused.
pub open spec fn spec_event_dispatch(s: Seq<u8>, pos: int, code_byte: u8, next_byte: u8) -> Result<
    ((EventView, u8), int),
    SMFError,
> {
    let kind = code_byte / 16;
    if kind == 0x8 {
        match spec_note_change_import(s, pos, code_byte, next_byte) {
            Ok((n, p)) => Ok(((EventView::NoteOff(n), code_byte), p)),
            Err(e) => Err(e),
        }
    } else if kind == 0x9 {
        match spec_note_change_import(s, pos, code_byte, next_byte) {
            Ok((n, p)) => Ok(((EventView::NoteOn(n), code_byte), p)),
            Err(e) => Err(e),
        }
    } else if kind == 0xA {
        match spec_poly_pressure_import(s, pos, code_byte, next_byte) {
            Ok((x, p)) => Ok(((EventView::PolyphonicKeyPressure(x), code_byte), p)),
            Err(e) => Err(e),
        }
    } else if kind == 0xB {
        match spec_controller_change_import(s, pos, code_byte, next_byte) {
            Ok((x, p)) => Ok(((EventView::ControllerChange(x), code_byte), p)),
            Err(e) => Err(e),
        }
    } else if kind == 0xC {
        Ok(
            (
                (EventView::ProgramChange(spec_program_change_import(code_byte, next_byte)),
                code_byte),
                pos,
            ),
        )
    } else if kind == 0xD {
        Ok(
            (
                (EventView::ChannelPressure(spec_channel_pressure_import(code_byte, next_byte)),
                code_byte),
                pos,
            ),
        )
    } else if kind == 0xE {
        match spec_pitch_bend_import(s, pos, code_byte, next_byte) {
            Ok((x, p)) => Ok(((EventView::PitchBend(x), code_byte), p)),
            Err(e) => Err(e),
        }
    } else if kind == 0xF {
        let low = code_byte % 16;
        if low == 0x0 {
            match spec_sysex_import(s, pos, next_byte) {
                Ok((x, p)) => Ok(((EventView::SystemExclusiveF0(x), code_byte), p)),
                Err(e) => Err(e),
            }
        } else if low == 0x7 {
            match spec_sysex_import(s, pos, next_byte) {
                Ok((x, p)) => Ok(((EventView::SystemExclusiveF7(x), code_byte), p)),
                Err(e) => Err(e),
            }
        } else if low == 0xF {
            match spec_meta_import(s, pos, next_byte) {
                Ok((ev, p)) => Ok(((ev, code_byte), p)),
                Err(e) => Err(e),
            }
        } else {
            Err(SMFError::UnknownEvent(code_byte))
        }
    } else {
        Err(SMFError::UnknownEvent(code_byte))
    }
}

/// Decoding of one event at `pos`. A first byte without the high bit is the
/// first data byte of an event that reuses the previous status byte, which
/// must then be present; otherwise the first byte is the status byte itself
/// and the data byte after it is read. The decoded event comes with the
/// status byte that later events may reuse.
pub open spec fn spec_event_import(s: Seq<u8>, pos: int, previous_code_byte: Option<u8>) -> Result<
    ((EventView, u8), int),
    SMFError,
> {
    if !can_read(s, pos, 1) {
        Err(SMFError::OutOfData)
    } else if s[pos] < 0x80 {
        // Running Status
        match previous_code_byte {
            Some(p) => spec_event_dispatch(s, pos + 1, p, s[pos]),
            None => Err(SMFError::NoPreviousEvent),
        }
    } else if !can_read(s, pos + 1, 1) {
        Err(SMFError::OutOfData)
    } else {
        spec_event_dispatch(s, pos + 2, s[pos], s[pos + 1])
    }
}

/// Builds the free-text event that a meta sub-type between 1 and 9 selects.
fn text_event(sub_type: u8, t: TextMessage) -> (e: Event)
    requires
        1 <= sub_type <= 9,
    ensures
        e@ == spec_text_event_view(sub_type, t@),
{
    if sub_type == 1 {
        Event::Text(t)
    } else if sub_type == 2 {
        Event::Copyright(t)
    } else if sub_type == 3 {
        Event::SequenceTrackName(t)
    } else if sub_type == 4 {
        Event::InstrumentName(t)
    } else if sub_type == 5 {
        Event::Lyric(t)
    } else if sub_type == 6 {
        Event::Marker(t)
    } else if sub_type == 7 {
        Event::CuePoint(t)
    } else if sub_type == 8 {
        Event::ProgramName(t)
    } else {
        Event::DeviceName(t)
    }
}

/// Reads the body of a meta event at `pos`, given its sub-type byte.
fn import_meta(data: &[u8], pos: usize, sub_type: u8) -> (res: Result<(Event, usize), SMFError>)
    ensures
        match res {
            Ok((ev, npos)) => spec_meta_import(data@, pos as int, sub_type) == Ok::<_, SMFError>(
                (ev@, npos as int),
            ) && pos < npos <= data@.len(),
            Err(e) => spec_meta_import(data@, pos as int, sub_type) == Err::<(EventView, int), _>(
                e,
            ),
        },
{
    if sub_type == 0 {
        let (x, p) = SequenceNumber::import(data, pos)?;
        Ok((Event::SequenceNumber(x), p))
    } else if 1 <= sub_type && sub_type <= 9 {
        let (t, p) = TextMessage::import(data, pos)?;
        Ok((text_event(sub_type, t), p))
    } else if sub_type == 0x20 {
        let (x, p) = MIDIChannelPrefix::import(data, pos)?;
        Ok((Event::MIDIChannelPrefix(x), p))
    } else if sub_type == 0x21 {
        let (x, p) = MIDIPort::import(data, pos)?;
        Ok((Event::MIDIPort(x), p))
    } else if sub_type == 0x2F {
        let (x, p) = EndOfTrack::import(data, pos)?;
        Ok((Event::EndOfTrack(x), p))
    } else if sub_type == 0x51 {
        let (x, p) = Tempo::import(data, pos)?;
        Ok((Event::Tempo(x), p))
    } else if sub_type == 0x54 {
        let (x, p) = SMPTEOffset::import(data, pos)?;
        Ok((Event::SMPTEOffset(x), p))
    } else if sub_type == 0x58 {
        let (x, p) = TimeSignature::import(data, pos)?;
        Ok((Event::TimeSignature(x), p))
    } else if sub_type == 0x59 {
        let (x, p) = KeySignature::import(data, pos)?;
        Ok((Event::KeySignature(x), p))
    } else {
        let (g, p) = GenericMetaEvent::import(data, pos)?;
        Ok((Event::UnknownMetaEvent(g), p))
    }
}

/// Reads an event whose status byte and first data byte were already
/// consumed.
fn import_resolved(data: &[u8], pos: usize, code_byte: u8, next_byte: u8) -> (res: Result<
    ((Event, u8), usize),
    SMFError,
>)
    requires
        pos <= data@.len(),
    ensures
        match res {
            Ok(((ev, code), npos)) => spec_event_dispatch(
                data@,
                pos as int,
                code_byte,
                next_byte,
            ) == Ok::<_, SMFError>(((ev@, code), npos as int)) && pos <= npos <= data@.len(),
            Err(e) => spec_event_dispatch(data@, pos as int, code_byte, next_byte) == Err::<
                ((EventView, u8), int),
                _,
            >(e),
        },
{
    let kind = code_byte / 16;
    if kind == 0x8 {
        let (n, p) = NoteChange::import(data, pos, code_byte, next_byte)?;
        Ok(((Event::NoteOff(n), code_byte), p))
    } else if kind == 0x9 {
        let (n, p) = NoteChange::import(data, pos, code_byte, next_byte)?;
        Ok(((Event::NoteOn(n), code_byte), p))
    } else if kind == 0xA {
        let (x, p) = PolyphonicKeyPressure::import(data, pos, code_byte, next_byte)?;
        Ok(((Event::PolyphonicKeyPressure(x), code_byte), p))
    } else if kind == 0xB {
        let (x, p) = ControllerChange::import(data, pos, code_byte, next_byte)?;
        Ok(((Event::ControllerChange(x), code_byte), p))
    } else if kind == 0xC {
        Ok(((Event::ProgramChange(ProgramChange::import(code_byte, next_byte)), code_byte), pos))
    } else if kind == 0xD {
        Ok(((Event::ChannelPressure(ChannelPressure::import(code_byte, next_byte)), code_byte), pos))
    } else if kind == 0xE {
        let (x, p) = PitchBend::import(data, pos, code_byte, next_byte)?;
        Ok(((Event::PitchBend(x), code_byte), p))
    } else if kind == 0xF {
        let low = code_byte % 16;
        if low == 0x0 {
            let (x, p) = SystemExclusive::import(data, pos, next_byte)?;
            Ok(((Event::SystemExclusiveF0(x), code_byte), p))
        } else if low == 0x7 {
            let (x, p) = SystemExclusive::import(data, pos, next_byte)?;
            Ok(((Event::SystemExclusiveF7(x), code_byte), p))
        } else if low == 0xF {
            let (ev, p) = import_meta(data, pos, next_byte)?;
            Ok(((ev, code_byte), p))
        } else {
            Err(SMFError::UnknownEvent(code_byte))
        }
    } else {
        Err(SMFError::UnknownEvent(code_byte))
    }
}

impl Event {
    /// Reads an event at `pos`, resolving running status against
    /// `previous_code_byte`, and returns it with the status byte to carry
    /// forward.
    pub fn import(data: &[u8], pos: usize, previous_code_byte: Option<u8>) -> (res: Result<
        ((Event, u8), usize),
        SMFError,
    >)
        ensures
            match res {
                Ok(((ev, code), npos)) => spec_event_import(
                    data@,
                    pos as int,
                    previous_code_byte,
                ) == Ok::<_, SMFError>(((ev@, code), npos as int)) && pos < npos <= data@.len(),
                Err(e) => spec_event_import(data@, pos as int, previous_code_byte) == Err::<
                    ((EventView, u8), int),
                    _,
                >(e),
            },
    {
        let first = read_u8(data, pos)?;
        if first < 0x80 {
            // Running Status
            match previous_code_byte {
                Some(p) => import_resolved(data, pos + 1, p, first),
                None => Err(SMFError::NoPreviousEvent),
            }
        } else {
            let next_byte = read_u8(data, pos + 1)?;
            import_resolved(data, pos + 2, first, next_byte)
        }
    }
}

// Encoding of a whole event

/// True of an event that can be written back out: every stored VLV length
/// must fit its encoding, and a meta event of unknown sub-type cannot be
/// written at all, because its sub-type byte is not retained.
pub open spec fn spec_event_encodable(e: EventView) -> bool {
    match e {
        EventView::SystemExclusiveF0(x) => x.length.wf(),
        EventView::SystemExclusiveF7(x) => x.length.wf(),
        EventView::Text(t) => t.length.wf(),
        EventView::Copyright(t) => t.length.wf(),
        EventView::SequenceTrackName(t) => t.length.wf(),
        EventView::InstrumentName(t) => t.length.wf(),
        EventView::Lyric(t) => t.length.wf(),
        EventView::Marker(t) => t.length.wf(),
        EventView::CuePoint(t) => t.length.wf(),
        EventView::ProgramName(t) => t.length.wf(),
        EventView::DeviceName(t) => t.length.wf(),
        EventView::SequencerSpecificEvent(g) => g.length.wf(),
        EventView::UnknownMetaEvent(_) => false,
        _ => true,
    }
}

/// The bytes of a free-text meta event: status 0xFF, the sub-type, the
/// stored VLV length, and the text as UTF-8.
pub open spec fn spec_meta_text_encode(sub_type: u8, t: TextMessageView) -> Seq<u8>
    recommends
        t.length.wf(),
{
    seq![0xFFu8, sub_type] + spec_vlv_encode(t.length.value) + encode_utf8(t.text)
}

/// The bytes that encode an event. Channel voice messages put their channel
/// in the low nibble of the status byte; fixed meta events carry their
/// standard declared length; pitch bend writes its least significant byte
/// first, preserving the format's inverted ordering.
pub open spec fn spec_event_encode(e: EventView) -> Seq<u8>
    recommends
        spec_event_encodable(e),
{
    match e {
        EventView::NoteOff(n) => seq![(0x80 + n.channel % 16) as u8, n.key, n.velocity],
        EventView::NoteOn(n) => seq![(0x90 + n.channel % 16) as u8, n.key, n.velocity],
        EventView::PolyphonicKeyPressure(p) => seq![
            (0xA0 + p.channel % 16) as u8,
            p.key,
            p.pressure,
        ],
        EventView::ControllerChange(c) => seq![
            (0xB0 + c.channel % 16) as u8,
            c.controller_number,
            c.value,
        ],
        EventView::ProgramChange(p) => seq![(0xC0 + p.channel % 16) as u8, p.program],
        EventView::ChannelPressure(c) => seq![(0xD0 + c.channel % 16) as u8, c.pressure],
        EventView::PitchBend(p) => seq![
            (0xE0 + p.channel % 16) as u8,
            (p.value % 0x100) as u8,
            (p.value / 0x100) as u8,
        ],
        EventView::SystemExclusiveF0(x) => seq![0xF0u8] + spec_vlv_encode(x.length.value) + x.data,
        EventView::SystemExclusiveF7(x) => seq![0xF7u8] + spec_vlv_encode(x.length.value) + x.data,
        EventView::SequenceNumber(sn) => seq![
            0xFFu8,
            0x00u8,
            0x02u8,
            (sn.sequence_number / 0x100) as u8,
            (sn.sequence_number % 0x100) as u8,
        ],
        EventView::Text(t) => spec_meta_text_encode(1, t),
        EventView::Copyright(t) => spec_meta_text_encode(2, t),
        EventView::SequenceTrackName(t) => spec_meta_text_encode(3, t),
        EventView::InstrumentName(t) => spec_meta_text_encode(4, t),
        EventView::Lyric(t) => spec_meta_text_encode(5, t),
        EventView::Marker(t) => spec_meta_text_encode(6, t),
        EventView::CuePoint(t) => spec_meta_text_encode(7, t),
        EventView::ProgramName(t) => spec_meta_text_encode(8, t),
        EventView::DeviceName(t) => spec_meta_text_encode(9, t),
        EventView::MIDIChannelPrefix(m) => seq![0xFFu8, 0x20u8, 0x01u8, m.channel],
        EventView::MIDIPort(m) => seq![0xFFu8, 0x21u8, 0x01u8, m.port],
        EventView::EndOfTrack(_) => seq![0xFFu8, 0x2Fu8, 0x00u8],
        EventView::Tempo(t) => seq![
            0xFFu8,
            0x51u8,
            0x03u8,
            ((t.value / 0x1_0000) % 0x100) as u8,
            ((t.value / 0x100) % 0x100) as u8,
            (t.value % 0x100) as u8,
        ],
        EventView::SMPTEOffset(o) => seq![
            0xFFu8,
            0x54u8,
            0x05u8,
            o.hours,
            o.minutes,
            o.seconds,
            o.frames,
            o.fractional_frames,
        ],
        EventView::TimeSignature(ts) => seq![
            0xFFu8,
            0x58u8,
            0x04u8,
            ts.numerator,
            ts.denominator,
            ts.clocks_between_metronome_clicks,
            ts.yes,
        ],
        EventView::KeySignature(k) => seq![
            0xFFu8,
            0x59u8,
            0x02u8,
            k.flats_sharps as u8,
            spec_key_value(k.key),
        ],
        EventView::SequencerSpecificEvent(g) => seq![0xFFu8, 0x7Fu8] + spec_vlv_encode(
            g.length.value,
        ) + g.data,
        EventView::UnknownMetaEvent(_) => Seq::<u8>::empty(),
    }
}

/// The error with which export refuses an event it cannot write: an
/// oversized stored VLV length, or a meta event whose sub-type was not
/// retained.
pub open spec fn spec_event_export_err(e: EventView) -> SMFError
    recommends
        !spec_event_encodable(e),
{
    match e {
        EventView::SystemExclusiveF0(x) => SMFError::VLV(VLVError::NumberTooBig(x.length.value)),
        EventView::SystemExclusiveF7(x) => SMFError::VLV(VLVError::NumberTooBig(x.length.value)),
        EventView::Text(t) => SMFError::VLV(VLVError::NumberTooBig(t.length.value)),
        EventView::Copyright(t) => SMFError::VLV(VLVError::NumberTooBig(t.length.value)),
        EventView::SequenceTrackName(t) => SMFError::VLV(VLVError::NumberTooBig(t.length.value)),
        EventView::InstrumentName(t) => SMFError::VLV(VLVError::NumberTooBig(t.length.value)),
        EventView::Lyric(t) => SMFError::VLV(VLVError::NumberTooBig(t.length.value)),
        EventView::Marker(t) => SMFError::VLV(VLVError::NumberTooBig(t.length.value)),
        EventView::CuePoint(t) => SMFError::VLV(VLVError::NumberTooBig(t.length.value)),
        EventView::ProgramName(t) => SMFError::VLV(VLVError::NumberTooBig(t.length.value)),
        EventView::DeviceName(t) => SMFError::VLV(VLVError::NumberTooBig(t.length.value)),
        EventView::SequencerSpecificEvent(g) => SMFError::VLV(
            VLVError::NumberTooBig(g.length.value),
        ),
        _ => SMFError::UnknownEvent(0xFF),
    }
}

/// Appends a free-text meta event to `out`. On an error nothing is
/// appended.
fn export_text_event(t: &TextMessage, sub_type: u8, out: &mut Vec<u8>) -> (res: Result<
    (),
    SMFError,
>)
    ensures
        match res {
            Ok(()) => t.length.wf() && final(out)@ == old(out)@ + spec_meta_text_encode(
                sub_type,
                t@,
            ),
            Err(e) => !t.length.wf() && final(out)@ == old(out)@ && e == SMFError::VLV(
                VLVError::NumberTooBig(t.length.value),
            ),
        },
{
    let _ = calc_vlv_length(t.length.value)?;
    out.push(0xFF);
    out.push(sub_type);
    let r = t.length.export(out);
    if r.is_err() {
        return r;
    }
    push_bytes(out, t.text.as_str().as_bytes());
    proof {
        assert(final(out)@ =~= old(out)@ + spec_meta_text_encode(sub_type, t@));
    }
    Ok(())
}

// Length bookkeeping

/// True when every VLV length stored inside an event fits its encoding, so
/// that the event's size can be computed.
pub open spec fn spec_stored_length_wf(e: EventView) -> bool {
    match e {
        EventView::SystemExclusiveF0(x) => x.length.wf(),
        EventView::SystemExclusiveF7(x) => x.length.wf(),
        EventView::Text(t) => t.length.wf(),
        EventView::Copyright(t) => t.length.wf(),
        EventView::SequenceTrackName(t) => t.length.wf(),
        EventView::InstrumentName(t) => t.length.wf(),
        EventView::Lyric(t) => t.length.wf(),
        EventView::Marker(t) => t.length.wf(),
        EventView::CuePoint(t) => t.length.wf(),
        EventView::ProgramName(t) => t.length.wf(),
        EventView::DeviceName(t) => t.length.wf(),
        EventView::SequencerSpecificEvent(g) => g.length.wf(),
        EventView::UnknownMetaEvent(g) => g.length.wf(),
        _ => true,
    }
}

/// The error with which a length computation refuses an oversized stored
/// VLV length.
pub open spec fn spec_stored_length_err(e: EventView) -> SMFError
    recommends
        !spec_stored_length_wf(e),
{
    match e {
        EventView::SystemExclusiveF0(x) => SMFError::VLV(VLVError::NumberTooBig(x.length.value)),
        EventView::SystemExclusiveF7(x) => SMFError::VLV(VLVError::NumberTooBig(x.length.value)),
        EventView::Text(t) => SMFError::VLV(VLVError::NumberTooBig(t.length.value)),
        EventView::Copyright(t) => SMFError::VLV(VLVError::NumberTooBig(t.length.value)),
        EventView::SequenceTrackName(t) => SMFError::VLV(VLVError::NumberTooBig(t.length.value)),
        EventView::InstrumentName(t) => SMFError::VLV(VLVError::NumberTooBig(t.length.value)),
        EventView::Lyric(t) => SMFError::VLV(VLVError::NumberTooBig(t.length.value)),
        EventView::Marker(t) => SMFError::VLV(VLVError::NumberTooBig(t.length.value)),
        EventView::CuePoint(t) => SMFError::VLV(VLVError::NumberTooBig(t.length.value)),
        EventView::ProgramName(t) => SMFError::VLV(VLVError::NumberTooBig(t.length.value)),
        EventView::DeviceName(t) => SMFError::VLV(VLVError::NumberTooBig(t.length.value)),
        EventView::SequencerSpecificEvent(g) => SMFError::VLV(
            VLVError::NumberTooBig(g.length.value),
        ),
        EventView::UnknownMetaEvent(g) => SMFError::VLV(VLVError::NumberTooBig(g.length.value)),
        _ => SMFError::UnknownEvent(0xFF),
    }
}

/// The length in bytes of an event as it stands in a track, everything
/// taken into account: the status byte, for meta events the sub-type and
/// the declared length, and the payload.
pub open spec fn spec_event_length(e: EventView) -> int
    recommends
        spec_stored_length_wf(e),
{
    match e {
        EventView::NoteOff(_) => 3,
        EventView::NoteOn(_) => 3,
        EventView::PolyphonicKeyPressure(_) => 3,
        EventView::ControllerChange(_) => 3,
        EventView::ProgramChange(_) => 2,
        EventView::ChannelPressure(_) => 2,
        EventView::PitchBend(_) => 3,
        EventView::SystemExclusiveF0(x) => 1 + spec_vlv_length(x.length.value) + x.data.len(),
        EventView::SystemExclusiveF7(x) => 1 + spec_vlv_length(x.length.value) + x.data.len(),
        EventView::SequenceNumber(_) => 5,
        EventView::Text(t) => 2 + spec_vlv_length(t.length.value) + encode_utf8(t.text).len(),
        EventView::Copyright(t) => 2 + spec_vlv_length(t.length.value) + encode_utf8(t.text).len(),
        EventView::SequenceTrackName(t) => 2 + spec_vlv_length(t.length.value) + encode_utf8(
            t.text,
        ).len(),
        EventView::InstrumentName(t) => 2 + spec_vlv_length(t.length.value) + encode_utf8(
            t.text,
        ).len(),
        EventView::Lyric(t) => 2 + spec_vlv_length(t.length.value) + encode_utf8(t.text).len(),
        EventView::Marker(t) => 2 + spec_vlv_length(t.length.value) + encode_utf8(t.text).len(),
        EventView::CuePoint(t) => 2 + spec_vlv_length(t.length.value) + encode_utf8(t.text).len(),
        EventView::ProgramName(t) => 2 + spec_vlv_length(t.length.value) + encode_utf8(
            t.text,
        ).len(),
        EventView::DeviceName(t) => 2 + spec_vlv_length(t.length.value) + encode_utf8(
            t.text,
        ).len(),
        EventView::MIDIChannelPrefix(_) => 4,
        EventView::MIDIPort(_) => 4,
        EventView::EndOfTrack(_) => 3,
        EventView::Tempo(_) => 6,
        EventView::SMPTEOffset(_) => 8,
        EventView::TimeSignature(_) => 7,
        EventView::KeySignature(_) => 5,
        EventView::SequencerSpecificEvent(g) => 2 + spec_vlv_length(g.length.value) + g.data.len(),
        EventView::UnknownMetaEvent(g) => 2 + spec_vlv_length(g.length.value) + g.data.len(),
    }
}

/// True when an event's length computation cannot overflow a `u32`: a
/// machine limit on the size of the payload it holds.
pub open spec fn spec_event_length_fits(e: EventView) -> bool {
    match e {
        EventView::SystemExclusiveF0(x) => x.data.len() + 5 <= u32::MAX,
        EventView::SystemExclusiveF7(x) => x.data.len() + 5 <= u32::MAX,
        EventView::Text(t) => encode_utf8(t.text).len() + 6 <= u32::MAX,
        EventView::Copyright(t) => encode_utf8(t.text).len() + 6 <= u32::MAX,
        EventView::SequenceTrackName(t) => encode_utf8(t.text).len() + 6 <= u32::MAX,
        EventView::InstrumentName(t) => encode_utf8(t.text).len() + 6 <= u32::MAX,
        EventView::Lyric(t) => encode_utf8(t.text).len() + 6 <= u32::MAX,
        EventView::Marker(t) => encode_utf8(t.text).len() + 6 <= u32::MAX,
        EventView::CuePoint(t) => encode_utf8(t.text).len() + 6 <= u32::MAX,
        EventView::ProgramName(t) => encode_utf8(t.text).len() + 6 <= u32::MAX,
        EventView::DeviceName(t) => encode_utf8(t.text).len() + 6 <= u32::MAX,
        EventView::SequencerSpecificEvent(g) => g.data.len() + 6 <= u32::MAX,
        EventView::UnknownMetaEvent(g) => g.data.len() + 6 <= u32::MAX,
        _ => true,
    }
}

impl SystemExclusive {
    /// The length in bytes of this blob as it stands in a track.
    pub fn get_length(&self) -> (res: Result<u32, SMFError>)
        requires
            self.data@.len() + 5 <= u32::MAX,
        ensures
            match res {
                Ok(n) => self.length.wf() && n == 1 + spec_vlv_length(self.length.value)
                    + self.data@.len(),
                Err(e) => !self.length.wf() && e == SMFError::VLV(
                    VLVError::NumberTooBig(self.length.value),
                ),
            },
    {
        let l = calc_vlv_length(self.length.value)?;
        Ok(1 + l as u32 + self.data.len() as u32)
    }
}

impl TextMessage {
    /// The length in bytes of this text event as it stands in a track.
    pub fn get_length(&self) -> (res: Result<u32, SMFError>)
        requires
            encode_utf8(self.text@).len() + 6 <= u32::MAX,
        ensures
            match res {
                Ok(n) => self.length.wf() && n == 2 + spec_vlv_length(self.length.value)
                    + encode_utf8(self.text@).len(),
                Err(e) => !self.length.wf() && e == SMFError::VLV(
                    VLVError::NumberTooBig(self.length.value),
                ),
            },
    {
        let l = calc_vlv_length(self.length.value)?;
        Ok(2 + l as u32 + self.text.as_str().len() as u32)
    }
}

impl GenericMetaEvent {
    /// The length in bytes of this meta event as it stands in a track.
    pub fn get_length(&self) -> (res: Result<u32, SMFError>)
        requires
            self.data@.len() + 6 <= u32::MAX,
        ensures
            match res {
                Ok(n) => self.length.wf() && n == 2 + spec_vlv_length(self.length.value)
                    + self.data@.len(),
                Err(e) => !self.length.wf() && e == SMFError::VLV(
                    VLVError::NumberTooBig(self.length.value),
                ),
            },
    {
        let l = calc_vlv_length(self.length.value)?;
        Ok(2 + l as u32 + self.data.len() as u32)
    }
}

impl Event {
    /// Returns the length in bytes of this event, everything taken into
    /// account.
    pub fn get_length(&self) -> (res: Result<u32, SMFError>)
        requires
            spec_event_length_fits(self@),
        ensures
            match res {
                Ok(n) => spec_stored_length_wf(self@) && n == spec_event_length(self@),
                Err(e) => !spec_stored_length_wf(self@) && e == spec_stored_length_err(self@),
            },
    {
        match self {
            Event::NoteOff(n) => Ok(n.get_length()),
            Event::NoteOn(n) => Ok(n.get_length()),
            Event::PolyphonicKeyPressure(p) => Ok(p.get_length()),
            Event::ControllerChange(c) => Ok(c.get_length()),
            Event::ProgramChange(p) => Ok(p.get_length()),
            Event::ChannelPressure(c) => Ok(c.get_length()),
            Event::PitchBend(p) => Ok(p.get_length()),
            Event::SystemExclusiveF0(s) => s.get_length(),
            Event::SystemExclusiveF7(s) => s.get_length(),
            Event::SequenceNumber(s) => Ok(s.get_length()),
            Event::Text(t) => t.get_length(),
            Event::Copyright(c) => c.get_length(),
            Event::SequenceTrackName(s) => s.get_length(),
            Event::InstrumentName(i) => i.get_length(),
            Event::Lyric(l) => l.get_length(),
            Event::Marker(m) => m.get_length(),
            Event::CuePoint(c) => c.get_length(),
            Event::ProgramName(p) => p.get_length(),
            Event::DeviceName(d) => d.get_length(),
            Event::MIDIChannelPrefix(m) => Ok(m.get_length()),
            Event::MIDIPort(m) => Ok(m.get_length()),
            Event::EndOfTrack(e) => Ok(e.get_length()),
            Event::Tempo(t) => Ok(t.get_length()),
            Event::SMPTEOffset(s) => Ok(s.get_length()),
            Event::TimeSignature(t) => Ok(t.get_length()),
            Event::KeySignature(k) => Ok(k.get_length()),
            Event::SequencerSpecificEvent(s) => s.get_length(),
            Event::UnknownMetaEvent(u) => u.get_length(),
        }
    }

    /// Appends the event in its binary form to `out`. On an error nothing
    /// is appended: a stored VLV length that does not fit cannot be
    /// written, and neither can a meta event of unknown sub-type, whose
    /// sub-type byte was not retained at decode time.
    pub fn export(&self, out: &mut Vec<u8>) -> (res: Result<(), SMFError>)
        ensures
            match res {
                Ok(()) => spec_event_encodable(self@) && final(out)@ == old(out)@
                    + spec_event_encode(self@),
                Err(e) => !spec_event_encodable(self@) && final(out)@ == old(out)@ && e
                    == spec_event_export_err(self@),
            },
    {
        match self {
            Event::NoteOff(n) => {
                out.push(0x80 + n.channel % 16);
                out.push(n.key);
                out.push(n.velocity);
                proof {
                    assert(final(out)@ =~= old(out)@ + spec_event_encode(self@));
                }
                Ok(())
            },
            Event::NoteOn(n) => {
                out.push(0x90 + n.channel % 16);
                out.push(n.key);
                out.push(n.velocity);
                proof {
                    assert(final(out)@ =~= old(out)@ + spec_event_encode(self@));
                }
                Ok(())
            },
            Event::PolyphonicKeyPressure(p) => {
                out.push(0xA0 + p.channel % 16);
                out.push(p.key);
                out.push(p.pressure);
                proof {
                    assert(final(out)@ =~= old(out)@ + spec_event_encode(self@));
                }
                Ok(())
            },
            Event::ControllerChange(c) => {
                out.push(0xB0 + c.channel % 16);
                out.push(c.controller_number);
                out.push(c.value);
                proof {
                    assert(final(out)@ =~= old(out)@ + spec_event_encode(self@));
                }
                Ok(())
            },
            Event::ProgramChange(p) => {
                out.push(0xC0 + p.channel % 16);
                out.push(p.program);
                proof {
                    assert(final(out)@ =~= old(out)@ + spec_event_encode(self@));
                }
                Ok(())
            },
            Event::ChannelPressure(c) => {
                out.push(0xD0 + c.channel % 16);
                out.push(c.pressure);
                proof {
                    assert(final(out)@ =~= old(out)@ + spec_event_encode(self@));
                }
                Ok(())
            },
            Event::PitchBend(p) => {
                out.push(0xE0 + p.channel % 16);
                out.push((p.value % 0x100) as u8);
                out.push((p.value / 0x100) as u8);
                proof {
                    assert(final(out)@ =~= old(out)@ + spec_event_encode(self@));
                }
                Ok(())
            },
            Event::SystemExclusiveF0(x) => {
                let _ = calc_vlv_length(x.length.value)?;
                out.push(0xF0);
                let r = x.length.export(out);
                if r.is_err() {
                    return r;
                }
                push_bytes(out, x.data.as_slice());
                proof {
                    assert(final(out)@ =~= old(out)@ + spec_event_encode(self@));
                }
                Ok(())
            },
            Event::SystemExclusiveF7(x) => {
                let _ = calc_vlv_length(x.length.value)?;
                out.push(0xF7);
                let r = x.length.export(out);
                if r.is_err() {
                    return r;
                }
                push_bytes(out, x.data.as_slice());
                proof {
                    assert(final(out)@ =~= old(out)@ + spec_event_encode(self@));
                }
                Ok(())
            },
            Event::SequenceNumber(sn) => {
                out.push(0xFF);
                out.push(0x00);
                out.push(0x02);
                out.push((sn.sequence_number / 0x100) as u8);
                out.push((sn.sequence_number % 0x100) as u8);
                proof {
                    assert(final(out)@ =~= old(out)@ + spec_event_encode(self@));
                }
                Ok(())
            },
            Event::Text(t) => export_text_event(t, 1, out),
            Event::Copyright(t) => export_text_event(t, 2, out),
            Event::SequenceTrackName(t) => export_text_event(t, 3, out),
            Event::InstrumentName(t) => export_text_event(t, 4, out),
            Event::Lyric(t) => export_text_event(t, 5, out),
            Event::Marker(t) => export_text_event(t, 6, out),
            Event::CuePoint(t) => export_text_event(t, 7, out),
            Event::ProgramName(t) => export_text_event(t, 8, out),
            Event::DeviceName(t) => export_text_event(t, 9, out),
            Event::MIDIChannelPrefix(m) => {
                out.push(0xFF);
                out.push(0x20);
                out.push(0x01);
                out.push(m.channel);
                proof {
                    assert(final(out)@ =~= old(out)@ + spec_event_encode(self@));
                }
                Ok(())
            },
            Event::MIDIPort(m) => {
                out.push(0xFF);
                out.push(0x21);
                out.push(0x01);
                out.push(m.port);
                proof {
                    assert(final(out)@ =~= old(out)@ + spec_event_encode(self@));
                }
                Ok(())
            },
            Event::EndOfTrack(_) => {
                out.push(0xFF);
                out.push(0x2F);
                out.push(0x00);
                proof {
                    assert(final(out)@ =~= old(out)@ + spec_event_encode(self@));
                }
                Ok(())
            },
            Event::Tempo(t) => {
                out.push(0xFF);
                out.push(0x51);
                out.push(0x03);
                out.push(((t.value / 0x1_0000) % 0x100) as u8);
                out.push(((t.value / 0x100) % 0x100) as u8);
                out.push((t.value % 0x100) as u8);
                proof {
                    assert(final(out)@ =~= old(out)@ + spec_event_encode(self@));
                }
                Ok(())
            },
            Event::SMPTEOffset(o) => {
                out.push(0xFF);
                out.push(0x54);
                out.push(0x05);
                out.push(o.hours);
                out.push(o.minutes);
                out.push(o.seconds);
                out.push(o.frames);
                out.push(o.fractional_frames);
                proof {
                    assert(final(out)@ =~= old(out)@ + spec_event_encode(self@));
                }
                Ok(())
            },
            Event::TimeSignature(ts) => {
                out.push(0xFF);
                out.push(0x58);
                out.push(0x04);
                out.push(ts.numerator);
                out.push(ts.denominator);
                out.push(ts.clocks_between_metronome_clicks);
                out.push(ts.yes);
                proof {
                    assert(final(out)@ =~= old(out)@ + spec_event_encode(self@));
                }
                Ok(())
            },
            Event::KeySignature(k) => {
                out.push(0xFF);
                out.push(0x59);
                out.push(0x02);
                out.push(k.flats_sharps as u8);
                let r = k.key.export(out);
                if r.is_err() {
                    return r;
                }
                proof {
                    assert(final(out)@ =~= old(out)@ + spec_event_encode(self@));
                }
                Ok(())
            },
            Event::SequencerSpecificEvent(g) => {
                let _ = calc_vlv_length(g.length.value)?;
                out.push(0xFF);
                out.push(0x7F);
                let r = g.length.export(out);
                if r.is_err() {
                    return r;
                }
                push_bytes(out, g.data.as_slice());
                proof {
                    assert(final(out)@ =~= old(out)@ + spec_event_encode(self@));
                }
                Ok(())
            },
            Event::UnknownMetaEvent(_) => Err(SMFError::UnknownEvent(0xFF)),
        }
    }
}

// How far a successful decode moves the cursor

/// A successfully decoded meta event body consumes at least one byte and
/// stays inside the stream.
pub proof fn lemma_meta_import_bounds(s: Seq<u8>, pos: int, sub_type: u8)
    requires
        0 <= pos <= s.len(),
    ensures
        spec_meta_import(s, pos, sub_type) matches Ok(r) ==> pos < r.1 <= s.len(),
{
    crate::vlv::lemma_vlv_import_bounds(s, pos);
}

/// A successfully decoded event body never moves the cursor backwards and
/// stays inside the stream.
pub proof fn lemma_event_dispatch_bounds(s: Seq<u8>, pos: int, code_byte: u8, next_byte: u8)
    requires
        0 <= pos <= s.len(),
    ensures
        spec_event_dispatch(s, pos, code_byte, next_byte) matches Ok(r) ==> pos <= r.1 <= s.len(),
{
    crate::vlv::lemma_vlv_partial_import_bounds(s, pos, next_byte);
    lemma_meta_import_bounds(s, pos, next_byte);
}

// Laws of the event decoder

/// Law: a leading byte without the high bit relies on running status, so
/// without a previous event the decode fails with `NoPreviousEvent`,
/// whatever the rest of the stream holds.
pub proof fn lemma_no_previous_event(s: Seq<u8>, pos: int)
    requires
        can_read(s, pos, 1),
        s[pos] < 0x80,
    ensures
        spec_event_import(s, pos, None) == Err::<((EventView, u8), int), _>(
            SMFError::NoPreviousEvent,
        ),
{
}

/// Law: a NoteOn whose velocity byte is 0 decodes to a NoteOn with velocity
/// 0; it is never rewritten as a NoteOff.
pub proof fn lemma_note_on_zero_velocity_kept(
    s: Seq<u8>,
    pos: int,
    previous_code_byte: Option<u8>,
)
    requires
        can_read(s, pos, 3),
        0x90 <= s[pos] < 0xA0,
        s[pos + 2] == 0,
    ensures
        spec_event_import(s, pos, previous_code_byte) == Ok::<_, SMFError>(
            (
                (
                    EventView::NoteOn(
                        NoteChange { channel: (s[pos] % 16) as u8, key: s[pos + 1], velocity: 0 },
                    ),
                    s[pos],
                ),
                pos + 3,
            ),
        ),
{
}

/// Law: a Tempo meta event whose declared length is below 3 fails with
/// `UnexpectedMetaEventLength` carrying that declared length; one with
/// declared length 5 succeeds, takes its value from the 3 bytes after the
/// length, and skips the 2 trailing bytes unexamined.
pub proof fn lemma_tempo_declared_length(s: Seq<u8>, pos: int, len: u32, p1: int)
    requires
        spec_vlv_import(s, pos) == Ok::<_, SMFError>((len, p1)),
    ensures
        len < 3 ==> spec_tempo_import(s, pos) == Err::<(Tempo, int), _>(
            SMFError::UnexpectedMetaEventLength(len),
        ),
        len == 5 && can_read(s, p1, 5) ==> spec_tempo_import(s, pos) == Ok::<_, SMFError>(
            (Tempo { value: (s[p1] * 0x1_0000 + s[p1 + 1] * 0x100 + s[p1 + 2]) as u32 }, p1 + 5),
        ),
{
    crate::vlv::lemma_vlv_import_bounds(s, pos);
}

/// Law: an event decoded through running status is the same event, carrying
/// the same status forward, as one decoded from a stream that re-sends the
/// status byte explicitly before the same data bytes. Stated for NoteOn,
/// the event that running status is most used for.
pub proof fn lemma_running_status_note_on(
    s1: Seq<u8>,
    pos1: int,
    s2: Seq<u8>,
    pos2: int,
    previous_code_byte: Option<u8>,
)
    requires
        can_read(s1, pos1, 3),
        0x90 <= s1[pos1] < 0xA0,
        can_read(s2, pos2, 2),
        s2[pos2] == s1[pos1 + 1],
        s2[pos2 + 1] == s1[pos1 + 2],
        s2[pos2] < 0x80,
    ensures
        spec_event_import(s1, pos1, previous_code_byte) matches Ok(((ev1, code1), _)) &&
        spec_event_import(s2, pos2, Some(s1[pos1])) matches Ok(((ev2, code2), _)) && ev1 == ev2
            && code1 == code2 && code1 == s1[pos1],
{
}

/// Law: a KeySignature meta event whose key byte is neither 0 nor 1 fails
/// with `KeySignatureUnknownKey` carrying that byte.
pub proof fn lemma_key_signature_unknown_key(s: Seq<u8>, pos: int, len: u32, p1: int)
    requires
        spec_vlv_import(s, pos) == Ok::<_, SMFError>((len, p1)),
        len >= 2,
        can_read(s, p1, 2),
        s[p1 + 1] != 0,
        s[p1 + 1] != 1,
    ensures
        spec_key_signature_import(s, pos) == Err::<(KeySignature, int), _>(
            SMFError::KeySignatureUnknownKey(s[p1 + 1]),
        ),
{
    crate::vlv::lemma_vlv_import_bounds(s, pos);
}

/// A successfully decoded event consumes at least one byte and stays inside
/// the stream.
pub proof fn lemma_event_import_bounds(s: Seq<u8>, pos: int, previous_code_byte: Option<u8>)
    ensures
        spec_event_import(s, pos, previous_code_byte) matches Ok(r) ==> 0 <= pos && pos < r.1
            <= s.len(),
{
    if can_read(s, pos, 1) {
        if s[pos] < 0x80 {
            match previous_code_byte {
                Some(p) => lemma_event_dispatch_bounds(s, pos + 1, p, s[pos]),
                None => {},
            }
        } else if can_read(s, pos + 1, 1) {
            lemma_event_dispatch_bounds(s, pos + 2, s[pos], s[pos + 1]);
        }
    }
}

} // verus!
