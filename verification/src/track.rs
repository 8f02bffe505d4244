//! SMF Track: the `MTrk` chunk holding one track's delta-time-tagged events.
//!
//! The chunk declares its byte length up front, and that declared length is
//! the only termination signal of the event loop: events are read until at
//! least that many bytes were consumed. Running status is threaded through
//! the loop as the status byte returned by each decoded event.

pub mod event;

use vstd::prelude::*;

use crate::error::{SMFError, VLVError};
use crate::stream::{can_read, read_u32_be, spec_u32_be, spec_u32_be_bytes};
use crate::track::event::{
    lemma_event_import_bounds, spec_event_encodable, spec_event_encode, spec_event_export_err,
    spec_event_import, Event, EventView,
};
use crate::vlv::{lemma_vlv_import_bounds, spec_vlv_encode, spec_vlv_import, VLV};

verus! {

/// A MTrk Track inside a MIDI File. This contains TrackEvents containing a
/// Delta Time and an Event.
#[derive(Clone, Debug, PartialEq)]
pub struct SMFTrack {
    /// Size in bytes of this track
    pub length: u32,
    /// The Track Events contained inside this track
    pub track_events: Vec<TrackEvent>,
}

/// The data inside of a MIDI Track.
#[derive(Clone, Debug, PartialEq)]
pub struct TrackEvent {
    /// A Delta-Time indicates how much time this event should take place
    /// after the previous one, in ticks.
    pub delta_time: VLV,
    /// The actual event, i.e. what happens at this moment
    pub event: Event,
}

/// The mathematical model of a track event.
pub struct TrackEventView {
    pub delta_time: VLV,
    pub event: EventView,
}

impl View for TrackEvent {
    type V = TrackEventView;

    open spec fn view(&self) -> TrackEventView {
        TrackEventView { delta_time: self.delta_time, event: self.event@ }
    }
}

/// The mathematical model of a track chunk.
pub struct SMFTrackView {
    pub length: u32,
    pub track_events: Seq<TrackEventView>,
}

impl View for SMFTrack {
    type V = SMFTrackView;

    open spec fn view(&self) -> SMFTrackView {
        SMFTrackView {
            length: self.length,
            track_events: self.track_events@.map_values(|te: TrackEvent| te@),
        }
    }
}

/// Decoding of one track event at `pos`: a delta-time VLV, then one event
/// decoded against the running status `previous_code_byte`.
pub open spec fn spec_track_event_import(
    s: Seq<u8>,
    pos: int,
    previous_code_byte: Option<u8>,
) -> Result<((TrackEventView, u8), int), SMFError> {
    match spec_vlv_import(s, pos) {
        Err(e) => Err(e),
        Ok((delta, p1)) => match spec_event_import(s, p1, previous_code_byte) {
            Err(e) => Err(e),
            Ok(((ev, code), p2)) => Ok(
                (
                    (TrackEventView { delta_time: VLV { value: delta }, event: ev }, code),
                    p2,
                ),
            ),
        },
    }
}

/// A successfully decoded track event consumes at least one byte and stays
/// inside the stream.
pub proof fn lemma_track_event_import_bounds(s: Seq<u8>, pos: int, previous_code_byte: Option<u8>)
    ensures
        spec_track_event_import(s, pos, previous_code_byte) matches Ok(r) ==> 0 <= pos && pos < r.1
            <= s.len(),
{
    lemma_vlv_import_bounds(s, pos);
    match spec_vlv_import(s, pos) {
        Ok((delta, p1)) => {
            lemma_event_import_bounds(s, p1, previous_code_byte);
        },
        Err(_) => {},
    }
}

/// Decoding of the event stream of a track: track events follow one another,
/// each feeding its status byte to the next as running status, until at
/// least `remaining` bytes were consumed. The declared length only bounds
/// the loop between events, never the bytes read inside one event, so the
/// last event may run past it.
pub open spec fn spec_track_events_import(
    s: Seq<u8>,
    pos: int,
    remaining: int,
    previous_code_byte: Option<u8>,
) -> Result<(Seq<TrackEventView>, int), SMFError>
    decreases (if remaining <= 0 {
        0int
    } else {
        remaining
    })
    via spec_track_events_import_decreases
{
    if remaining <= 0 {
        Ok((Seq::<TrackEventView>::empty(), pos))
    } else {
        match spec_track_event_import(s, pos, previous_code_byte) {
            Err(e) => Err(e),
            Ok(((te, code), npos)) => match spec_track_events_import(
                s,
                npos,
                remaining - (npos - pos),
                Some(code),
            ) {
                Err(e) => Err(e),
                Ok((rest, end)) => Ok((seq![te] + rest, end)),
            },
        }
    }
}

#[via_fn]
proof fn spec_track_events_import_decreases(
    s: Seq<u8>,
    pos: int,
    remaining: int,
    previous_code_byte: Option<u8>,
) {
    lemma_track_event_import_bounds(s, pos, previous_code_byte);
}

/// Prefixes already decoded track events onto the outcome of the rest of the
/// stream.
pub open spec fn spec_track_events_prepend(
    prefix: Seq<TrackEventView>,
    r: Result<(Seq<TrackEventView>, int), SMFError>,
) -> Result<(Seq<TrackEventView>, int), SMFError> {
    match r {
        Ok((rest, end)) => Ok((prefix + rest, end)),
        Err(e) => Err(e),
    }
}

/// Decoding of a whole MTrk chunk at `pos`: the `MTrk` tag, the declared
/// 32-bit byte length of the event stream, and the events themselves.
pub open spec fn spec_track_import(s: Seq<u8>, pos: int) -> Result<
    ((u32, Seq<TrackEventView>), int),
    SMFError,
> {
    if !can_read(s, pos, 4) {
        Err(SMFError::OutOfData)
    } else if !(s[pos] == 0x4Du8 && s[pos + 1] == 0x54u8 && s[pos + 2] == 0x72u8 && s[pos + 3]
        == 0x6Bu8) {
        Err(SMFError::MagicNumber)
    } else if !can_read(s, pos + 4, 4) {
        Err(SMFError::OutOfData)
    } else {
        let length = spec_u32_be(s, pos + 4);
        match spec_track_events_import(s, pos + 8, length as int, None) {
            Err(e) => Err(e),
            Ok((track_events, end)) => Ok(((length, track_events), end)),
        }
    }
}

impl TrackEvent {
    /// Reads the Delta Time and the associated event at `pos`, and returns
    /// them with the status byte to carry forward.
    pub fn import(data: &[u8], pos: usize, previous_code_byte: Option<u8>) -> (res: Result<
        ((TrackEvent, u8), usize),
        SMFError,
    >)
        ensures
            match res {
                Ok(((te, code), npos)) => spec_track_event_import(
                    data@,
                    pos as int,
                    previous_code_byte,
                ) == Ok::<_, SMFError>(((te@, code), npos as int)) && pos < npos <= data@.len(),
                Err(e) => spec_track_event_import(data@, pos as int, previous_code_byte) == Err::<
                    ((TrackEventView, u8), int),
                    _,
                >(e),
            },
    {
        let (delta_time, p1) = VLV::import(data, pos)?;
        let ((event, code), p2) = Event::import(data, p1, previous_code_byte)?;
        Ok(((TrackEvent { delta_time, event }, code), p2))
    }
}

impl SMFTrack {
    /// Reads an MTrk chunk at `pos`.
    #[verifier::rlimit(50)]
    #[verifier::loop_isolation(false)]
    pub fn import(data: &[u8], pos: usize) -> (res: Result<(SMFTrack, usize), SMFError>)
        ensures
            match res {
                Ok((t, npos)) => spec_track_import(data@, pos as int) == Ok::<_, SMFError>(
                    ((t@.length, t@.track_events), npos as int),
                ) && pos < npos <= data@.len(),
                Err(e) => spec_track_import(data@, pos as int) == Err::<
                    ((u32, Seq<TrackEventView>), int),
                    _,
                >(e),
            },
    {
        if pos >= data.len() || data.len() - pos < 4 {
            return Err(SMFError::OutOfData);
        }
        if !(data[pos] == 0x4D && data[pos + 1] == 0x54 && data[pos + 2] == 0x72 && data[pos + 3]
            == 0x6B) {
            return Err(SMFError::MagicNumber);
        }
        let length = read_u32_be(data, pos + 4)?;
        // Where the event stream starts; the declared length counts from here
        let events_start = pos + 8;
        // Current position in the track
        let mut p = events_start;
        // All the track events in this track
        let mut track_events: Vec<TrackEvent> = Vec::new();
        // Previous code byte used for Running Status
        let mut previous_code_byte: Option<u8> = None;
        // While there are still some bytes to read
        while p - events_start < length as usize
            invariant
                events_start == pos + 8,
                events_start <= p <= data@.len(),
                spec_track_events_import(data@, events_start as int, length as int, None)
                    == spec_track_events_prepend(
                    track_events@.map_values(|te: TrackEvent| te@),
                    spec_track_events_import(
                        data@,
                        p as int,
                        length as int - (p - events_start),
                        previous_code_byte,
                    ),
                ),
            decreases data@.len() - p,
        {
            let ghost prefix = track_events@.map_values(|te: TrackEvent| te@);
            let ghost remaining = length as int - (p - events_start);
            let res = TrackEvent::import(data, p, previous_code_byte);
            let ((te, code), npos) = match res {
                Ok(r) => r,
                Err(e) => {
                    proof {
                        assert(spec_track_events_import(
                            data@,
                            p as int,
                            remaining,
                            previous_code_byte,
                        ) == Err::<(Seq<TrackEventView>, int), SMFError>(e));
                    }
                    return Err(e);
                },
            };
            track_events.push(te);
            proof {
                let rest = spec_track_events_import(
                    data@,
                    npos as int,
                    remaining - (npos - p),
                    Some(code),
                );
                match rest {
                    Ok((rest_events, end)) => {
                        assert((prefix + seq![te@]) + rest_events =~= prefix + (seq![te@]
                            + rest_events));
                    },
                    Err(_) => {},
                }
                assert(track_events@.map_values(|t: TrackEvent| t@) =~= prefix + seq![te@]);
            }
            previous_code_byte = Some(code);
            p = npos;
        }
        proof {
            assert(track_events@.map_values(|t: TrackEvent| t@) + Seq::<TrackEventView>::empty()
                =~= track_events@.map_values(|t: TrackEvent| t@));
        }
        Ok((SMFTrack { length, track_events }, p))
    }
}

// Encoding of track events and whole tracks

/// True of a track event that can be written back out.
pub open spec fn spec_track_event_encodable(te: TrackEventView) -> bool {
    te.delta_time.wf() && spec_event_encodable(te.event)
}

/// The bytes that encode a track event: the delta-time VLV, then the event.
pub open spec fn spec_track_event_encode(te: TrackEventView) -> Seq<u8>
    recommends
        spec_track_event_encodable(te),
{
    spec_vlv_encode(te.delta_time.value) + spec_event_encode(te.event)
}

/// The error with which export refuses a track event it cannot write.
pub open spec fn spec_track_event_export_err(te: TrackEventView) -> SMFError
    recommends
        !spec_track_event_encodable(te),
{
    if !te.delta_time.wf() {
        SMFError::VLV(VLVError::NumberTooBig(te.delta_time.value))
    } else {
        spec_event_export_err(te.event)
    }
}

/// True of an event sequence every element of which can be written back
/// out.
pub open spec fn spec_track_events_encodable(evs: Seq<TrackEventView>) -> bool {
    forall|i: int| 0 <= i < evs.len() ==> spec_track_event_encodable(#[trigger] evs[i])
}

/// The bytes that encode an event sequence, one track event after another.
pub open spec fn spec_track_events_encode(evs: Seq<TrackEventView>) -> Seq<u8>
    recommends
        spec_track_events_encodable(evs),
    decreases evs.len(),
{
    if evs.len() == 0 {
        Seq::<u8>::empty()
    } else {
        spec_track_event_encode(evs[0]) + spec_track_events_encode(evs.drop_first())
    }
}

/// The error with which export refuses an event sequence: that of the first
/// event that cannot be written.
pub open spec fn spec_track_events_export_err(evs: Seq<TrackEventView>) -> SMFError
    recommends
        !spec_track_events_encodable(evs),
    decreases evs.len(),
{
    if evs.len() == 0 {
        arbitrary()
    } else if !spec_track_event_encodable(evs[0]) {
        spec_track_event_export_err(evs[0])
    } else {
        spec_track_events_export_err(evs.drop_first())
    }
}

/// When the events before index `i` can all be written and the one at `i`
/// cannot, the sequence's export error is that event's error.
pub proof fn lemma_track_events_export_err_at(evs: Seq<TrackEventView>, i: int)
    requires
        0 <= i < evs.len(),
        forall|j: int| 0 <= j < i ==> spec_track_event_encodable(#[trigger] evs[j]),
        !spec_track_event_encodable(evs[i]),
    ensures
        !spec_track_events_encodable(evs),
        spec_track_events_export_err(evs) == spec_track_event_export_err(evs[i]),
    decreases i,
{
    if i > 0 {
        lemma_track_events_export_err_at(evs.drop_first(), i - 1);
    }
}

/// True of a track that can be written back out.
pub open spec fn spec_track_encodable(t: SMFTrackView) -> bool {
    spec_track_events_encodable(t.track_events)
}

/// The bytes that encode a track: the `MTrk` tag, the stored declared
/// length, and the events.
pub open spec fn spec_track_encode(t: SMFTrackView) -> Seq<u8>
    recommends
        spec_track_encodable(t),
{
    seq![0x4Du8, 0x54u8, 0x72u8, 0x6Bu8] + spec_u32_be_bytes(t.length) + spec_track_events_encode(
        t.track_events,
    )
}

/// The error with which export refuses a track it cannot write.
pub open spec fn spec_track_export_err(t: SMFTrackView) -> SMFError
    recommends
        !spec_track_encodable(t),
{
    spec_track_events_export_err(t.track_events)
}

impl TrackEvent {
    /// Appends the Track Event to `out`. On an error nothing is appended.
    pub fn export(&self, out: &mut Vec<u8>) -> (res: Result<(), SMFError>)
        ensures
            match res {
                Ok(()) => spec_track_event_encodable(self@) && final(out)@ == old(out)@
                    + spec_track_event_encode(self@),
                Err(e) => !spec_track_event_encodable(self@) && final(out)@ == old(out)@ && e
                    == spec_track_event_export_err(self@),
            },
    {
        let mut tmp: Vec<u8> = Vec::new();
        self.delta_time.export(&mut tmp)?;
        self.event.export(&mut tmp)?;
        out.append(&mut tmp);
        proof {
            assert(final(out)@ =~= old(out)@ + spec_track_event_encode(self@));
        }
        Ok(())
    }
}

impl SMFTrack {
    /// Appends the MTrk chunk to `out`, with the stored declared length as
    /// it stands. On an error nothing is appended.
    #[verifier::loop_isolation(false)]
    pub fn export(&self, out: &mut Vec<u8>) -> (res: Result<(), SMFError>)
        ensures
            match res {
                Ok(()) => spec_track_encodable(self@) && final(out)@ == old(out)@
                    + spec_track_encode(self@),
                Err(e) => !spec_track_encodable(self@) && final(out)@ == old(out)@ && e
                    == spec_track_export_err(self@),
            },
    {
        let mut tmp: Vec<u8> = Vec::new();
        tmp.push(0x4D);
        tmp.push(0x54);
        tmp.push(0x72);
        tmp.push(0x6B);
        tmp.push((self.length / 0x100_0000) as u8);
        tmp.push(((self.length / 0x1_0000) % 0x100) as u8);
        tmp.push(((self.length / 0x100) % 0x100) as u8);
        tmp.push((self.length % 0x100) as u8);
        let ghost chunk_head = tmp@;
        proof {
            assert(chunk_head =~= seq![0x4Du8, 0x54u8, 0x72u8, 0x6Bu8] + spec_u32_be_bytes(
                self.length,
            ));
            assert(self@.track_events.skip(0) =~= self@.track_events);
        }
        let mut i: usize = 0;
        while i < self.track_events.len()
            invariant
                i <= self.track_events@.len(),
                tmp@ + spec_track_events_encode(self@.track_events.skip(i as int)) == chunk_head
                    + spec_track_events_encode(self@.track_events),
                forall|j: int|
                    0 <= j < i ==> spec_track_event_encodable(#[trigger] self@.track_events[j]),
            decreases self.track_events@.len() - i,
        {
            let ghost tmp_before = tmp@;
            let res = self.track_events[i].export(&mut tmp);
            match res {
                Ok(()) => {},
                Err(e) => {
                    proof {
                        lemma_track_events_export_err_at(self@.track_events, i as int);
                    }
                    return Err(e);
                },
            }
            proof {
                let evs = self@.track_events;
                assert(evs.skip(i as int).drop_first() =~= evs.skip(i as int + 1));
                assert(evs.skip(i as int)[0] == evs[i as int]);
                assert(tmp@ + spec_track_events_encode(evs.skip(i as int + 1)) =~= tmp_before + (
                spec_track_event_encode(evs[i as int]) + spec_track_events_encode(
                    evs.skip(i as int + 1),
                )));
            }
            i = i + 1;
        }
        proof {
            let evs = self@.track_events;
            assert(evs.skip(evs.len() as int) =~= Seq::<TrackEventView>::empty());
            assert(tmp@ + spec_track_events_encode(evs.skip(evs.len() as int)) =~= tmp@);
            assert(tmp@ =~= chunk_head + spec_track_events_encode(evs));
        }
        out.append(&mut tmp);
        proof {
            assert(final(out)@ =~= old(out)@ + spec_track_encode(self@));
        }
        Ok(())
    }
}

} // verus!
