use standard_midi_file::header::{Format, SMFHeader, TimeScale};

#[test]
fn import() {
    let header = &[b'M', b'T', b'h', b'd', 0, 0, 0, 6, 0, 0, 0, 1, 1, 0x80];
    let (my_header, _) = SMFHeader::import(header, 0).unwrap();
    assert_eq!(my_header.length, 6);
    match my_header.format {
        Format::SingleTrack => {}
        _ => panic!("Unexpected Format"),
    }
    assert_eq!(my_header.nb_tracks, 1);
    match my_header.time_division {
        TimeScale::TicksPerQuarterNote(v) => assert_eq!(v, 384),
        _ => panic!("Incorrect TimeScale"),
    }
}

#[test]
fn format_values() {
    assert_eq!(Format::SingleTrack.get_value(), 0);
    assert_eq!(Format::MultipleTrack.get_value(), 1);
    assert_eq!(Format::MultipleSong.get_value(), 2);
}

#[test]
fn smpte_time_division_round_trips() {
    let (ts, used) = TimeScale::import(&[0xE8, 0x50], 0).unwrap();
    assert_eq!(used, 2);
    match ts {
        TimeScale::SMPTECompatible(rate, ticks) => {
            assert_eq!(rate, -24);
            assert_eq!(ticks, 0x50);
        }
        _ => panic!("expected SMPTECompatible"),
    }
    let mut out = Vec::new();
    ts.export(&mut out).unwrap();
    assert_eq!(out, vec![0xE8, 0x50]);
}

#[test]
fn export() {
    let my_header = SMFHeader {
        length: 6,
        format: Format::MultipleTrack,
        nb_tracks: 5,
        time_division: TimeScale::TicksPerQuarterNote(96),
    };
    let mut writer = Vec::new();
    my_header.export(&mut writer).unwrap();
    assert_eq!(writer, vec![b'M', b'T', b'h', b'd', 0, 0, 0, 6, 0, 1, 0, 5, 0, 96]);
}
