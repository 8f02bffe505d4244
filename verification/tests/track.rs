use standard_midi_file::error::SMFError;
use standard_midi_file::header::{Format, SMFHeader, TimeScale};
use standard_midi_file::track::event::{EndOfTrack, Event};
use standard_midi_file::track::{SMFTrack, TrackEvent};
use standard_midi_file::vlv::VLV;
use standard_midi_file::SMF;

#[test]
fn end_of_track_event_encodes_exactly() {
    // A delta-time VLV of 0 followed by an EndOfTrack meta event becomes
    // the exact byte sequence 00 FF 2F 00, and decodes back to itself.
    let te = TrackEvent {
        delta_time: VLV { value: 0 },
        event: Event::EndOfTrack(EndOfTrack {}),
    };
    let mut out = Vec::new();
    te.export(&mut out).unwrap();
    assert_eq!(out, vec![0x00, 0xFF, 0x2F, 0x00]);
    let ((back, code), used) = TrackEvent::import(&out, 0, None).unwrap();
    assert_eq!(back, te);
    assert_eq!(code, 0xFF);
    assert_eq!(used, 4);
}

#[test]
fn track_import_with_running_status() {
    // Two NoteOn events, the second relying on running status.
    let data = [
        b'M', b'T', b'r', b'k', 0, 0, 0, 7, // declared length 7
        0x00, 0x93, 0x40, 0x60, // delta 0, NoteOn channel 3
        0x10, 0x41, 0x61, // delta 16, running status NoteOn
    ];
    let (track, used) = SMFTrack::import(&data, 0).unwrap();
    assert_eq!(used, 15);
    assert_eq!(track.length, 7);
    assert_eq!(track.track_events.len(), 2);
    assert_eq!(track.track_events[1].delta_time.value, 0x10);
    match (&track.track_events[0].event, &track.track_events[1].event) {
        (Event::NoteOn(first), Event::NoteOn(second)) => {
            assert_eq!(first.channel, second.channel);
            assert_eq!(second.key, 0x41);
            assert_eq!(second.velocity, 0x61);
        }
        _ => panic!("expected two NoteOn events"),
    }
}

#[test]
fn track_magic_mismatch() {
    let data = [b'M', b'T', b'r', b'x', 0, 0, 0, 0];
    match SMFTrack::import(&data, 0) {
        Err(SMFError::MagicNumber) => {}
        _ => panic!("expected MagicNumber"),
    }
}

#[test]
fn track_inner_error_propagates() {
    // The first malformed event aborts the whole track decode.
    let data = [
        b'M', b'T', b'r', b'k', 0, 0, 0, 3, //
        0x00, 0xF4, 0x00,
    ];
    match SMFTrack::import(&data, 0) {
        Err(SMFError::UnknownEvent(0xF4)) => {}
        _ => panic!("expected UnknownEvent(0xF4)"),
    }
}

#[test]
fn track_event_may_overrun_declared_length() {
    // The declared length only bounds the loop between events: the last
    // event reads past it rather than being truncated.
    let data = [
        b'M', b'T', b'r', b'k', 0, 0, 0, 2, // declared length 2
        0x00, 0x93, 0x40, 0x60, // a 4-byte event
    ];
    let (track, used) = SMFTrack::import(&data, 0).unwrap();
    assert_eq!(track.track_events.len(), 1);
    assert_eq!(used, 12);
}

#[test]
fn track_out_of_data() {
    let data = [
        b'M', b'T', b'r', b'k', 0, 0, 0, 9, //
        0x00, 0x93, 0x40,
    ];
    match SMFTrack::import(&data, 0) {
        Err(SMFError::OutOfData) => {}
        _ => panic!("expected OutOfData"),
    }
}

#[test]
fn smf_import_then_export_round_trips() {
    let data = [
        b'M', b'T', b'h', b'd', 0, 0, 0, 6, 0, 0, 0, 1, 0, 96, // header
        b'M', b'T', b'r', b'k', 0, 0, 0, 12, // one 12-byte track
        0x00, 0x90, 0x40, 0x60, // NoteOn
        0x10, 0x80, 0x40, 0x00, // NoteOff
        0x00, 0xFF, 0x2F, 0x00, // EndOfTrack
    ];
    let (smf, used) = SMF::import(&data, 0).unwrap();
    assert_eq!(used, data.len());
    assert_eq!(smf.header.nb_tracks, 1);
    assert_eq!(smf.tracks.len(), 1);
    assert_eq!(smf.tracks[0].track_events.len(), 3);
    let mut out = Vec::new();
    smf.export(&mut out).unwrap();
    assert_eq!(out, data.to_vec());
}

#[test]
fn smf_import_two_tracks() {
    let data = [
        b'M', b'T', b'h', b'd', 0, 0, 0, 6, 0, 1, 0, 2, 0x80, 0x50, // SMPTE division
        b'M', b'T', b'r', b'k', 0, 0, 0, 4, 0x00, 0xFF, 0x2F, 0x00, //
        b'M', b'T', b'r', b'k', 0, 0, 0, 4, 0x00, 0xFF, 0x2F, 0x00,
    ];
    let (smf, used) = SMF::import(&data, 0).unwrap();
    assert_eq!(used, data.len());
    assert_eq!(smf.tracks.len(), 2);
    match smf.header.time_division {
        TimeScale::SMPTECompatible(rate, ticks) => {
            assert_eq!(rate, -128);
            assert_eq!(ticks, 0x50);
        }
        _ => panic!("expected SMPTECompatible"),
    }
}

#[test]
fn smf_export_track_count_mismatch() {
    let smf = SMF {
        header: SMFHeader {
            length: 6,
            format: Format::SingleTrack,
            nb_tracks: 2,
            time_division: TimeScale::TicksPerQuarterNote(96),
        },
        tracks: Vec::new(),
    };
    let mut out = Vec::new();
    match smf.export(&mut out) {
        Err(SMFError::VecHeaderTracksMismatch(2, 0)) => {}
        _ => panic!("expected VecHeaderTracksMismatch"),
    }
    assert!(out.is_empty());
}

#[test]
fn header_error_cases() {
    match SMFHeader::import(&[b'X', b'T', b'h', b'd', 0, 0, 0, 6, 0, 0, 0, 1, 0, 96], 0) {
        Err(SMFError::MagicNumber) => {}
        _ => panic!("expected MagicNumber"),
    }
    match SMFHeader::import(&[b'M', b'T', b'h', b'd', 0, 0, 0, 5, 0, 0, 0, 1, 0, 96], 0) {
        Err(SMFError::UnexpectedMThdLength(5)) => {}
        _ => panic!("expected UnexpectedMThdLength(5)"),
    }
    match SMFHeader::import(&[b'M', b'T', b'h', b'd', 0, 0, 0, 6, 0, 3, 0, 1, 0, 96], 0) {
        Err(SMFError::UnknownFormat(3)) => {}
        _ => panic!("expected UnknownFormat(3)"),
    }
    match SMFHeader::import(&[b'M', b'T', b'h', b'd', 0, 0, 0, 6, 0, 0, 0, 0, 0, 96], 0) {
        Err(SMFError::NoTracks) => {}
        _ => panic!("expected NoTracks"),
    }
    match SMFHeader::import(&[b'M', b'T', b'h'], 0) {
        Err(SMFError::OutOfData) => {}
        _ => panic!("expected OutOfData"),
    }
}

#[test]
fn header_surplus_length_skipped() {
    // A declared header length above 6 is tolerated: the surplus bytes are
    // skipped before the first track.
    let data = [
        b'M', b'T', b'h', b'd', 0, 0, 0, 8, 0, 0, 0, 1, 0, 96, 0xAA, 0xBB, //
        b'M', b'T', b'r', b'k', 0, 0, 0, 4, 0x00, 0xFF, 0x2F, 0x00,
    ];
    let (smf, used) = SMF::import(&data, 0).unwrap();
    assert_eq!(used, data.len());
    assert_eq!(smf.header.length, 8);
    assert_eq!(smf.tracks[0].track_events.len(), 1);
}
