use standard_midi_file::error::{SMFError, VLVError};
use standard_midi_file::track::event::{Event, Key, NoteChange, SequenceNumber, TextMessage};
use standard_midi_file::vlv::VLV;

#[test]
fn note_on_velocity_zero_is_kept() {
    // A NoteOn whose velocity byte is 0 stays a NoteOn, never a NoteOff.
    let ((event, code), used) = Event::import(&[0x95, 0x3C, 0x00], 0, None).unwrap();
    assert_eq!(code, 0x95);
    assert_eq!(used, 3);
    match event {
        Event::NoteOn(n) => {
            assert_eq!(n.channel, 5);
            assert_eq!(n.key, 0x3C);
            assert_eq!(n.velocity, 0);
        }
        _ => panic!("NoteOn with velocity 0 was decoded as something else"),
    }
}

#[test]
fn running_status_without_previous_event() {
    // A data byte in status position with no previous event to lean on.
    match Event::import(&[0x40, 0x40], 0, None) {
        Err(SMFError::NoPreviousEvent) => {}
        _ => panic!("expected NoPreviousEvent"),
    }
}

#[test]
fn running_status_matches_explicit_status() {
    let explicit = [0x93u8, 0x40, 0x60];
    let running = [0x40u8, 0x60];
    let ((event1, code1), used1) = Event::import(&explicit, 0, None).unwrap();
    let ((event2, code2), used2) = Event::import(&running, 0, Some(0x93)).unwrap();
    assert_eq!(event1, event2);
    assert_eq!(code1, code2);
    assert_eq!(used1, 3);
    assert_eq!(used2, 2);
}

#[test]
fn tempo_short_declared_length_fails() {
    match Event::import(&[0xFF, 0x51, 0x02, 0x07, 0xA1], 0, None) {
        Err(SMFError::UnexpectedMetaEventLength(2)) => {}
        _ => panic!("expected UnexpectedMetaEventLength(2)"),
    }
}

#[test]
fn tempo_long_declared_length_skips_surplus() {
    // Declared length 5: three value bytes are read, two trailing bytes are
    // skipped unexamined.
    let data = [0xFFu8, 0x51, 0x05, 0x07, 0xA1, 0x20, 0xAA, 0xBB];
    let ((event, _), used) = Event::import(&data, 0, None).unwrap();
    assert_eq!(used, 8);
    match event {
        Event::Tempo(t) => assert_eq!(t.value, 500_000),
        _ => panic!("expected Tempo"),
    }
}

#[test]
fn key_signature_unknown_key() {
    match Event::import(&[0xFF, 0x59, 0x02, 0x03, 0x02], 0, None) {
        Err(SMFError::KeySignatureUnknownKey(2)) => {}
        _ => panic!("expected KeySignatureUnknownKey(2)"),
    }
}

#[test]
fn key_signature_surplus_skipped() {
    let data = [0xFFu8, 0x59, 0x04, 0x03, 0x01, 0xAA, 0xBB];
    let ((event, _), used) = Event::import(&data, 0, None).unwrap();
    assert_eq!(used, 7);
    match event {
        Event::KeySignature(k) => {
            assert_eq!(k.flats_sharps, 3);
            assert!(matches!(k.key, standard_midi_file::track::event::Key::Minor));
        }
        _ => panic!("expected KeySignature"),
    }
}

#[test]
fn unknown_status_byte() {
    match Event::import(&[0xF4, 0x00], 0, None) {
        Err(SMFError::UnknownEvent(0xF4)) => {}
        _ => panic!("expected UnknownEvent(0xF4)"),
    }
}

#[test]
fn unknown_meta_kept_opaquely() {
    let data = [0xFFu8, 0x60, 0x02, 0xAA, 0xBB];
    let ((event, _), used) = Event::import(&data, 0, None).unwrap();
    assert_eq!(used, 5);
    match &event {
        Event::UnknownMetaEvent(g) => {
            assert_eq!(g.length.value, 2);
            assert_eq!(g.data, vec![0xAA, 0xBB]);
        }
        _ => panic!("expected UnknownMetaEvent"),
    }
    // Its sub-type byte was not retained, so it cannot be written back.
    let mut out = Vec::new();
    match event.export(&mut out) {
        Err(SMFError::UnknownEvent(0xFF)) => {}
        _ => panic!("expected the unknown meta event to be refused"),
    }
    assert!(out.is_empty());
}

#[test]
fn sysex_f0_reads_declared_payload() {
    let data = [0xF0u8, 0x03, 0x01, 0x02, 0x03];
    let ((event, code), used) = Event::import(&data, 0, None).unwrap();
    assert_eq!(code, 0xF0);
    assert_eq!(used, 5);
    match event {
        Event::SystemExclusiveF0(x) => {
            assert_eq!(x.length.value, 3);
            assert_eq!(x.data, vec![0x01, 0x02, 0x03]);
        }
        _ => panic!("expected SystemExclusiveF0"),
    }
}

#[test]
fn pitch_bend_inverted_byte_order() {
    // The byte read second is the most significant one.
    let ((event, _), used) = Event::import(&[0xE2, 0x01, 0x02], 0, None).unwrap();
    assert_eq!(used, 3);
    match event {
        Event::PitchBend(p) => {
            assert_eq!(p.channel, 2);
            assert_eq!(p.value, 0x0201);
        }
        _ => panic!("expected PitchBend"),
    }
    // Export writes the bytes back in the same inverted order.
    let mut out = Vec::new();
    event.export(&mut out).unwrap();
    assert_eq!(out, vec![0xE2, 0x01, 0x02]);
}

#[test]
fn program_change_reads_no_further_byte() {
    let ((event, _), used) = Event::import(&[0xC3, 0x10], 0, None).unwrap();
    assert_eq!(used, 2);
    match event {
        Event::ProgramChange(p) => {
            assert_eq!(p.channel, 3);
            assert_eq!(p.program, 0x10);
        }
        _ => panic!("expected ProgramChange"),
    }
}

#[test]
fn sequence_number_big_endian() {
    let ((event, _), used) = Event::import(&[0xFF, 0x00, 0x02, 0x12, 0x34], 0, None).unwrap();
    assert_eq!(used, 5);
    match event {
        Event::SequenceNumber(s) => assert_eq!(s.sequence_number, 0x1234),
        _ => panic!("expected SequenceNumber"),
    }
}

#[test]
fn text_message_lossy_conversion() {
    // Invalid UTF-8 payload bytes become replacement characters instead of
    // coming back unchanged.
    let (t, used) = TextMessage::import(&[0x02, 0xFF, 0xFE], 0).unwrap();
    assert_eq!(used, 3);
    assert_eq!(t.length.value, 2);
    assert_eq!(t.text, "\u{FFFD}\u{FFFD}");
    let (t, used) = TextMessage::import(&[0x02, 0x41, 0x42], 0).unwrap();
    assert_eq!(used, 3);
    assert_eq!(t.text, "AB");
}

#[test]
fn track_name_event() {
    let data = [0xFFu8, 0x03, 0x04, b'L', b'e', b'a', b'd'];
    let ((event, _), used) = Event::import(&data, 0, None).unwrap();
    assert_eq!(used, 7);
    match event {
        Event::SequenceTrackName(t) => assert_eq!(t.text, "Lead"),
        _ => panic!("expected SequenceTrackName"),
    }
}

#[test]
fn key_import_export() {
    let (key, used) = Key::import(&[0x01], 0).unwrap();
    assert!(matches!(key, Key::Minor));
    assert_eq!(used, 1);
    let mut out = Vec::new();
    key.export(&mut out).unwrap();
    Key::Major.export(&mut out).unwrap();
    assert_eq!(out, vec![1, 0]);
    match Key::import(&[0x05], 0) {
        Err(SMFError::KeySignatureUnknownKey(5)) => {}
        _ => panic!("expected KeySignatureUnknownKey(5)"),
    }
}

#[test]
fn event_lengths() {
    let note = Event::NoteOn(NoteChange { channel: 0, key: 60, velocity: 100 });
    assert_eq!(note.get_length().unwrap(), 3);
    let ((tempo, _), _) =
        Event::import(&[0xFF, 0x51, 0x03, 0x07, 0xA1, 0x20], 0, None).unwrap();
    assert_eq!(tempo.get_length().unwrap(), 6);
    let text = Event::Text(TextMessage { length: VLV { value: 5 }, text: "hello".to_string() });
    assert_eq!(text.get_length().unwrap(), 8);
    assert_eq!(
        Event::SequenceNumber(SequenceNumber { sequence_number: 7 }).get_length().unwrap(),
        5
    );
}

#[test]
fn variable_event_lengths() {
    let data = [0xF0u8, 0x03, 0x01, 0x02, 0x03];
    let ((event, _), _) = Event::import(&data, 0, None).unwrap();
    // Status byte, 1-byte length VLV, 3 payload bytes.
    assert_eq!(event.get_length().unwrap(), 5);
    let data = [0xFFu8, 0x60, 0x02, 0xAA, 0xBB];
    let ((event, _), _) = Event::import(&data, 0, None).unwrap();
    // Status and sub-type bytes, 1-byte length VLV, 2 payload bytes.
    assert_eq!(event.get_length().unwrap(), 5);
}

#[test]
fn oversized_stored_length_refused() {
    let text = Event::Text(TextMessage { length: VLV { value: 0x1000_0000 }, text: String::new() });
    match text.get_length() {
        Err(SMFError::VLV(VLVError::NumberTooBig(0x1000_0000))) => {}
        _ => panic!("expected NumberTooBig"),
    }
    let mut out = Vec::new();
    match text.export(&mut out) {
        Err(SMFError::VLV(VLVError::NumberTooBig(0x1000_0000))) => {}
        _ => panic!("expected NumberTooBig"),
    }
    assert!(out.is_empty());
}

#[test]
fn key_signature_length() {
    let ((event, _), _) = Event::import(&[0xFF, 0x59, 0x02, 0x00, 0x01], 0, None).unwrap();
    match event {
        Event::KeySignature(k) => assert_eq!(k.get_length(), 5),
        _ => panic!("expected KeySignature"),
    }
}
