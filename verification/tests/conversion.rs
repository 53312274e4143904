use avc_nalu::{Nalu, NaluConfig, NaluError};

fn unit(ref_idc: u8, unit_type: u8, data: &[u8]) -> Nalu {
    Nalu { ref_idc, unit_type, data: data.to_vec() }
}

#[test]
fn parse_config_basic() {
    let bytes = [0x01, 0x64, 0x00, 0x1e, 0xff, 0xe1, 0x00, 0x02, 0x67, 0xaa, 0x01, 0x00, 0x01, 0x68];
    let cfg = NaluConfig::parse(&bytes).unwrap();
    assert_eq!(cfg.version, 1);
    assert_eq!(cfg.profile_indication, 0x64);
    assert_eq!(cfg.profile_compatability, 0x00);
    assert_eq!(cfg.level_indication, 0x1e);
    assert_eq!(cfg.nalu_size, 4);
    assert_eq!(cfg.sps.len(), 1);
    assert_eq!(cfg.sps[0].ref_idc, 3);
    assert_eq!(cfg.sps[0].unit_type, 7);
    assert_eq!(cfg.sps[0].data, vec![0xaa]);
    assert_eq!(cfg.pps.len(), 1);
    assert_eq!(cfg.pps[0].ref_idc, 3);
    assert_eq!(cfg.pps[0].unit_type, 8);
    assert_eq!(cfg.pps[0].data, Vec::<u8>::new());
}

#[test]
fn parse_config_length_field_size_range() {
    // The low 2 bits of byte 4, plus one, give the width: always in 1..=4.
    for (size_byte, want) in [(0xfcu8, 1u8), (0xfd, 2), (0xfe, 3), (0xff, 4)] {
        let bytes = [0x01, 0x42, 0xc0, 0x1e, size_byte, 0xe0, 0x00];
        let cfg = NaluConfig::parse(&bytes).unwrap();
        assert_eq!(cfg.nalu_size, want);
        assert!(1 <= cfg.nalu_size && cfg.nalu_size <= 4);
        assert_eq!(cfg.sps.len(), 0);
        assert_eq!(cfg.pps.len(), 0);
    }
}

#[test]
fn parse_config_ignores_trailing_bytes() {
    let bytes = [0x01, 0x64, 0x00, 0x1e, 0xff, 0xe1, 0x00, 0x01, 0x67, 0x01, 0x00, 0x01, 0x68, 0x55, 0x66];
    let cfg = NaluConfig::parse(&bytes).unwrap();
    assert_eq!(cfg.sps.len(), 1);
    assert_eq!(cfg.pps.len(), 1);
}

#[test]
fn parse_config_header_truncated() {
    let bytes = [0x01, 0x64, 0x00, 0x1e, 0xff];
    match NaluConfig::parse(&bytes) {
        Err(e) => assert_eq!(e, NaluError::TruncatedConfig),
        Ok(_) => panic!("truncated record parsed"),
    }
}

#[test]
fn parse_config_truncated_mid_sps_length() {
    // One SPS declared, but the buffer ends inside its 2-byte length field.
    let bytes = [0x01, 0x64, 0x00, 0x1e, 0xff, 0xe1, 0x00];
    match NaluConfig::parse(&bytes) {
        Err(e) => assert_eq!(e, NaluError::TruncatedConfig),
        Ok(_) => panic!("truncated record parsed"),
    }
}

#[test]
fn parse_config_truncated_sps_body() {
    // SPS length says 4 bytes but only 2 follow.
    let bytes = [0x01, 0x64, 0x00, 0x1e, 0xff, 0xe1, 0x00, 0x04, 0x67, 0xaa];
    match NaluConfig::parse(&bytes) {
        Err(e) => assert_eq!(e, NaluError::TruncatedConfig),
        Ok(_) => panic!("truncated record parsed"),
    }
}

#[test]
fn parse_config_missing_pps_count() {
    // SPS section complete, but the buffer ends before the PPS count byte.
    let bytes = [0x01, 0x64, 0x00, 0x1e, 0xff, 0xe1, 0x00, 0x01, 0x67];
    match NaluConfig::parse(&bytes) {
        Err(e) => assert_eq!(e, NaluError::TruncatedConfig),
        Ok(_) => panic!("truncated record parsed"),
    }
}

#[test]
fn parse_config_empty_sps_entry() {
    // A declared SPS with length zero has no header byte to decode.
    let bytes = [0x01, 0x64, 0x00, 0x1e, 0xff, 0xe1, 0x00, 0x00, 0x01, 0x00, 0x01, 0x68];
    match NaluConfig::parse(&bytes) {
        Err(e) => assert_eq!(e, NaluError::TruncatedUnit),
        Ok(_) => panic!("empty parameter set decoded"),
    }
}

#[test]
fn set_replaces_wholesale_and_keeps_old_value_on_error() {
    let mut cfg = NaluConfig::new();
    assert_eq!(cfg.nalu_size, 0);
    assert_eq!(cfg.sps.len(), 0);

    let good = [0x01, 0x64, 0x00, 0x1e, 0xff, 0xe1, 0x00, 0x02, 0x67, 0xaa, 0x01, 0x00, 0x01, 0x68];
    assert_eq!(cfg.set(&good), Ok(()));
    assert_eq!(cfg.nalu_size, 4);
    assert_eq!(cfg.sps.len(), 1);

    let bad = [0x01, 0x64, 0x00];
    assert_eq!(cfg.set(&bad), Err(NaluError::TruncatedConfig));
    // The previous configuration is still there, untouched.
    assert_eq!(cfg.version, 1);
    assert_eq!(cfg.nalu_size, 4);
    assert_eq!(cfg.sps.len(), 1);
    assert_eq!(cfg.sps[0].data, vec![0xaa]);
}

#[test]
fn read_unit_basic() {
    let n = Nalu::read_unit(&[0x67, 0x01, 0x02]).unwrap();
    assert_eq!(n.ref_idc, 3);
    assert_eq!(n.unit_type, 7);
    assert_eq!(n.data, vec![0x01, 0x02]);
}

#[test]
fn read_unit_ignores_forbidden_bit() {
    let n = Nalu::read_unit(&[0xe5, 0x10]).unwrap();
    assert_eq!(n.ref_idc, 3);
    assert_eq!(n.unit_type, 5);
    let m = Nalu::read_unit(&[0x65, 0x10]).unwrap();
    assert_eq!(m.ref_idc, 3);
    assert_eq!(m.unit_type, 5);
}

#[test]
fn read_unit_empty() {
    match Nalu::read_unit(&[]) {
        Err(e) => assert_eq!(e, NaluError::TruncatedUnit),
        Ok(_) => panic!("empty span decoded"),
    }
}

#[test]
fn read_splits_in_order() {
    let frame = [0x00, 0x03, 0x41, 0xbe, 0xef, 0x00, 0x01, 0x06];
    let units = Nalu::read(&frame, 2).unwrap();
    assert_eq!(units.len(), 2);
    assert_eq!(units[0].ref_idc, 2);
    assert_eq!(units[0].unit_type, 1);
    assert_eq!(units[0].data, vec![0xbe, 0xef]);
    assert_eq!(units[1].ref_idc, 0);
    assert_eq!(units[1].unit_type, 6);
    assert_eq!(units[1].data, Vec::<u8>::new());
}

#[test]
fn read_round_trip_reconstructs_buffer() {
    // Re-encoding each unit behind a length field of the same width gives the
    // original buffer back.
    let frame = [0x00, 0x03, 0x41, 0xbe, 0xef, 0x00, 0x01, 0x06, 0x00, 0x02, 0x65, 0x77];
    let units = Nalu::read(&frame, 2).unwrap();
    let mut rebuilt: Vec<u8> = Vec::new();
    for u in &units {
        let span_len = u.data.len() + 1;
        rebuilt.push((span_len >> 8) as u8);
        rebuilt.push(span_len as u8);
        rebuilt.push((u.ref_idc << 5) | u.unit_type);
        rebuilt.extend_from_slice(&u.data);
    }
    assert_eq!(rebuilt, frame.to_vec());
}

#[test]
fn read_one_byte_length_fields() {
    let frame = [0x01, 0x65, 0x02, 0x41, 0x99];
    let units = Nalu::read(&frame, 1).unwrap();
    assert_eq!(units.len(), 2);
    assert_eq!(units[0].unit_type, 5);
    assert_eq!(units[0].data, Vec::<u8>::new());
    assert_eq!(units[1].unit_type, 1);
    assert_eq!(units[1].data, vec![0x99]);
}

#[test]
fn read_four_byte_length_fields() {
    let frame = [0x00, 0x00, 0x00, 0x02, 0x41, 0x11];
    let units = Nalu::read(&frame, 4).unwrap();
    assert_eq!(units.len(), 1);
    assert_eq!(units[0].unit_type, 1);
    assert_eq!(units[0].data, vec![0x11]);
}

#[test]
fn read_truncated_length_field() {
    match Nalu::read(&[0x00], 2) {
        Err(e) => assert_eq!(e, NaluError::TruncatedLength),
        Ok(_) => panic!("short length field accepted"),
    }
}

#[test]
fn read_truncated_payload() {
    match Nalu::read(&[0x00, 0x05, 0x41], 2) {
        Err(e) => assert_eq!(e, NaluError::TruncatedPayload),
        Ok(_) => panic!("short payload accepted"),
    }
}

#[test]
fn read_zero_length_unit() {
    match Nalu::read(&[0x00, 0x00], 2) {
        Err(e) => assert_eq!(e, NaluError::TruncatedUnit),
        Ok(_) => panic!("empty unit accepted"),
    }
}

#[test]
fn read_empty_buffer_gives_no_units() {
    let units = Nalu::read(&[], 2).unwrap();
    assert_eq!(units.len(), 0);
}

fn config_with_params() -> NaluConfig {
    let mut cfg = NaluConfig::new();
    cfg.sps.push(unit(3, 7, &[0x64]));
    cfg.pps.push(unit(3, 8, &[0xca]));
    cfg
}

#[test]
fn assemble_single_non_idr_unit() {
    let cfg = NaluConfig::new();
    let es = Nalu::to_es_layer(&cfg, vec![unit(2, 1, &[0xab])]).unwrap();
    assert_eq!(
        es,
        vec![0x00, 0x00, 0x00, 0x01, 0x09, 0x00, 0x00, 0x00, 0x01, 0x41, 0xab]
    );
}

#[test]
fn assemble_keyframe_injects_parameter_sets_first() {
    let cfg = config_with_params();
    let es = Nalu::to_es_layer(&cfg, vec![unit(3, 5, &[0x99])]).unwrap();
    let want = vec![
        0x00, 0x00, 0x00, 0x01, 0x09, 0x00, // access-unit delimiter
        0x00, 0x00, 0x00, 0x01, 0x67, 0x64, // SPS
        0x00, 0x00, 0x00, 0x01, 0x68, 0xca, // PPS
        0x00, 0x00, 0x01, 0x65, 0x99, // the keyframe unit itself
    ];
    assert_eq!(es, want);
}

#[test]
fn assemble_parameter_sets_injected_once() {
    let cfg = config_with_params();
    let es = Nalu::to_es_layer(&cfg, vec![unit(3, 5, &[0x99]), unit(3, 5, &[0x9a])]).unwrap();
    let want = vec![
        0x00, 0x00, 0x00, 0x01, 0x09, 0x00, // delimiter, once
        0x00, 0x00, 0x00, 0x01, 0x67, 0x64, // SPS, once
        0x00, 0x00, 0x00, 0x01, 0x68, 0xca, // PPS, once
        0x00, 0x00, 0x01, 0x65, 0x99, // first keyframe unit
        0x00, 0x00, 0x01, 0x65, 0x9a, // second keyframe unit, no reinjection
    ];
    assert_eq!(es, want);
}

#[test]
fn assemble_delimiter_emitted_once() {
    let cfg = NaluConfig::new();
    let es = Nalu::to_es_layer(&cfg, vec![unit(2, 1, &[0x11]), unit(0, 6, &[0x22])]).unwrap();
    let want = vec![
        0x00, 0x00, 0x00, 0x01, 0x09, 0x00, // delimiter, once
        0x00, 0x00, 0x01, 0x41, 0x11, // non-IDR slice
        0x00, 0x00, 0x01, 0x06, 0x22, // SEI
    ];
    assert_eq!(es, want);
}

#[test]
fn assemble_skipped_types_give_empty_output() {
    let cfg = config_with_params();
    let es = Nalu::to_es_layer(&cfg, vec![unit(0, 2, &[0x55]), unit(0, 2, &[0x66])]).unwrap();
    assert_eq!(es, Vec::<u8>::new());
}

#[test]
fn assemble_skipped_types_around_slice() {
    let cfg = NaluConfig::new();
    let es = Nalu::to_es_layer(&cfg, vec![unit(0, 9, &[]), unit(2, 1, &[0xab])]).unwrap();
    assert_eq!(
        es,
        vec![0x00, 0x00, 0x00, 0x01, 0x09, 0x00, 0x00, 0x00, 0x01, 0x41, 0xab]
    );
}

#[test]
fn assemble_keyframe_without_sps_fails() {
    let mut cfg = NaluConfig::new();
    cfg.pps.push(unit(3, 8, &[0xca]));
    match Nalu::to_es_layer(&cfg, vec![unit(3, 5, &[0x99])]) {
        Err(e) => assert_eq!(e, NaluError::MissingParameterSet),
        Ok(_) => panic!("keyframe assembled without an SPS"),
    }
}

#[test]
fn assemble_keyframe_without_pps_fails() {
    let mut cfg = NaluConfig::new();
    cfg.sps.push(unit(3, 7, &[0x64]));
    match Nalu::to_es_layer(&cfg, vec![unit(3, 5, &[0x99])]) {
        Err(e) => assert_eq!(e, NaluError::MissingParameterSet),
        Ok(_) => panic!("keyframe assembled without a PPS"),
    }
}

#[test]
fn assemble_twice_gives_identical_output() {
    let cfg = config_with_params();
    let frame1 = vec![unit(3, 5, &[0x99]), unit(2, 1, &[0x11]), unit(0, 12, &[0x33])];
    let frame2 = vec![unit(3, 5, &[0x99]), unit(2, 1, &[0x11]), unit(0, 12, &[0x33])];
    let es1 = Nalu::to_es_layer(&cfg, frame1).unwrap();
    let es2 = Nalu::to_es_layer(&cfg, frame2).unwrap();
    assert_eq!(es1, es2);
}

#[test]
fn end_to_end_config_split_assemble() {
    let config_bytes = [
        0x01, 0x42, 0xc0, 0x1e, 0xfd, // header; width byte low bits 01 -> 2-byte lengths
        0xe1, 0x00, 0x02, 0x67, 0x11, // one SPS
        0x01, 0x00, 0x02, 0x68, 0x22, // one PPS
    ];
    let mut cfg = NaluConfig::new();
    cfg.set(&config_bytes).unwrap();
    assert_eq!(cfg.nalu_size, 2);

    let frame = [0x00, 0x02, 0x65, 0x33, 0x00, 0x02, 0x41, 0x44];
    let units = Nalu::read(&frame, cfg.nalu_size).unwrap();
    let es = Nalu::to_es_layer(&cfg, units).unwrap();
    let want = vec![
        0x00, 0x00, 0x00, 0x01, 0x09, 0x00, // access-unit delimiter
        0x00, 0x00, 0x00, 0x01, 0x67, 0x11, // SPS
        0x00, 0x00, 0x00, 0x01, 0x68, 0x22, // PPS
        0x00, 0x00, 0x01, 0x65, 0x33, // keyframe unit
        0x00, 0x00, 0x01, 0x41, 0x44, // following slice
    ];
    assert_eq!(es, want);
}
