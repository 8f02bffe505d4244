use standard_midi_file::error::{SMFError, VLVError};
use standard_midi_file::vlv::VLV;

const TEST_VALUES: [([u8; 4], u32); 12] = [
    ([0, 0, 0, 0], 0),
    ([0x40, 0, 0, 0], 0x40),
    ([0x7F, 0, 0, 0], 0x7F),
    ([0x81, 0, 0, 0], 0x80),
    ([0x81, 0x7F, 0, 0], 0xFF),
    ([0xC0, 0, 0, 0], 0x2000),
    ([0xFF, 0x7F, 0, 0], 0x3FFF),
    ([0x82, 0x80, 0, 0], 0x8000),
    ([0xFF, 0xFF, 0x7F, 0], 0x1FFFFF),
    ([0x81, 0x80, 0x80, 0x00], 0x200000),
    ([0xC0, 0x80, 0x80, 0x00], 0x8000000),
    ([0xFF, 0xFF, 0xFF, 0x7F], 0xFFFFFFF),
];

/// Writes a VLV into a 4-byte zeroed buffer, as the encoding sits in the
/// test vectors above.
fn export_padded(vlv: VLV) -> Vec<u8> {
    let mut data = Vec::new();
    vlv.export(&mut data).unwrap();
    while data.len() < 4 {
        data.push(0);
    }
    data
}

#[test]
fn imports() {
    for (input, value) in TEST_VALUES.iter() {
        let (my_vlv, _) = VLV::import(input, 0).unwrap();
        assert_eq!(my_vlv.value, *value);
    }
}

#[test]
fn exports() {
    for (output, value) in TEST_VALUES.iter() {
        let my_vlv = VLV::new(*value).unwrap();
        assert_eq!(export_padded(my_vlv), output.to_vec());
    }
}

#[test]
fn import_then_export() {
    for (input, _) in TEST_VALUES.iter() {
        let (my_vlv, _) = VLV::import(input, 0).unwrap();
        let other_vlv = VLV::new(my_vlv.value).unwrap();
        assert_eq!(input.to_vec(), export_padded(other_vlv));
    }
}

#[test]
fn export_then_import() {
    for (_, value) in TEST_VALUES.iter() {
        let my_vlv = VLV::new(*value).unwrap();
        let mut data = Vec::new();
        my_vlv.export(&mut data).unwrap();
        let (other_vlv, _) = VLV::import(&data, 0).unwrap();
        assert_eq!(my_vlv.value, other_vlv.value);
    }
}

#[test]
fn too_big() {
    let vlv_result = VLV::new(2u32.pow(31));
    match vlv_result {
        Ok(v) => panic!(
            "VLV successfully created with impossible value. Result: {}",
            v.value
        ),
        Err(e) => match e {
            SMFError::VLV(f) => match f {
                VLVError::NumberTooBig(_) => return (),
                _ => panic!("Other VLV error occurred"),
            },
            _ => panic!("Other SMF error occurred"),
        },
    }
}

#[test]
fn too_long() {
    let in_data = vec![
        0b1101_0010,
        0b1001_0001,
        0b1000_0000,
        0b1110_0010,
        0b0110_1001,
    ];
    let vlv_result = VLV::import(&in_data, 0);
    match vlv_result {
        Ok((v, _)) => panic!(
            "5-byte VLV successfully read where it should not. Result: {}",
            v.value
        ),
        Err(e) => match e {
            SMFError::VLV(f) => match f {
                VLVError::VLVTooBig => return (),
                _ => panic!("Other VLV error occurred"),
            },
            _ => panic!("Other SMF error occurred"),
        },
    }
}

#[test]
fn non_minimal_encodings_accepted() {
    // The same value in 2, 3 and 4 bytes: decoding accepts all of them.
    let (v, used) = VLV::import(&[0x80, 0x01], 0).unwrap();
    assert_eq!(v.value, 1);
    assert_eq!(used, 2);
    let (v, used) = VLV::import(&[0x80, 0x80, 0x01], 0).unwrap();
    assert_eq!(v.value, 1);
    assert_eq!(used, 3);
    let (v, used) = VLV::import(&[0x80, 0x80, 0x80, 0x01], 0).unwrap();
    assert_eq!(v.value, 1);
    assert_eq!(used, 4);
}

#[test]
fn minimal_lengths() {
    // One byte up to 2^7 - 1, two up to 2^14 - 1, three up to 2^21 - 1,
    // four up to 2^28 - 1.
    let cases: [(u32, usize); 8] = [
        (0x7F, 1),
        (0x80, 2),
        (0x3FFF, 2),
        (0x4000, 3),
        (0x1F_FFFF, 3),
        (0x20_0000, 4),
        (0xFFF_FFFF, 4),
        (0, 1),
    ];
    for (value, len) in cases.iter() {
        let mut data = Vec::new();
        VLV::new(*value).unwrap().export(&mut data).unwrap();
        assert_eq!(data.len(), *len);
        let (back, used) = VLV::import(&data, 0).unwrap();
        assert_eq!(back.value, *value);
        assert_eq!(used, *len);
    }
}

#[test]
fn partial_import_seeded() {
    // The first byte was already consumed to disambiguate a sysex start
    // marker; the rest of the chain comes from the stream.
    let (v, npos) = VLV::partial_import(&[0x7F], 0, 0x81).unwrap();
    assert_eq!(v.value, 0xFF);
    assert_eq!(npos, 1);
    let (v, npos) = VLV::partial_import(&[], 0, 0x05).unwrap();
    assert_eq!(v.value, 5);
    assert_eq!(npos, 0);
}
