use scanproto::compact::{CompactMessage, CompactModule, Measurement};
use scanproto::{DecodeError, ValueKind};

/// Builds one module's bytes. The grid is written beam-major: for each beam,
/// one measurement per line, where measurement number `w` (in write order)
/// carries distance `100 + w`, signal strength `9000 + w`, one
/// beam-properties byte `0x50 + w` and azimuth `0x600 + w`.
fn module_bytes(
    lines: u32,
    beams: u32,
    echoes: u32,
    dce: u8,
    dcb: u8,
    next: u32,
    phi: &[u32],
) -> Vec<u8> {
    assert_eq!(phi.len() as u32, lines);
    let mut out: Vec<u8> = Vec::new();
    out.extend_from_slice(&77u64.to_le_bytes()); // segment_counter
    out.extend_from_slice(&88u64.to_le_bytes()); // frame_number
    out.extend_from_slice(&5u32.to_le_bytes()); // sender_id
    out.extend_from_slice(&lines.to_le_bytes());
    out.extend_from_slice(&beams.to_le_bytes());
    out.extend_from_slice(&echoes.to_le_bytes());
    for j in 0..lines as u64 {
        out.extend_from_slice(&(1000 + j).to_le_bytes()); // time_stamp_start
    }
    for j in 0..lines as u64 {
        out.extend_from_slice(&(2000 + j).to_le_bytes()); // time_stamp_end
    }
    for p in phi {
        out.extend_from_slice(&p.to_le_bytes());
    }
    for j in 0..lines {
        out.extend_from_slice(&(7000 + j).to_le_bytes()); // theta_start
    }
    for j in 0..lines {
        out.extend_from_slice(&(8000 + j).to_le_bytes()); // theta_end
    }
    out.extend_from_slice(&1.0f32.to_bits().to_le_bytes()); // distance_scale_factor
    out.extend_from_slice(&next.to_le_bytes());
    out.push(0); // reserved
    out.push(dce);
    out.push(dcb);
    out.push(0); // reserved
    let mut w: u16 = 0;
    for _beam in 0..beams {
        for _line in 0..lines {
            for _e in 0..echoes {
                out.extend_from_slice(&(100 + w).to_le_bytes()); // distance
                out.extend_from_slice(&(9000 + w).to_le_bytes()); // rssi
            }
            out.push(0x50 + w as u8); // beam properties
            out.extend_from_slice(&(0x600 + w).to_le_bytes()); // azimuth
            w += 1;
        }
    }
    out
}

/// Wraps module bytes into a whole distance telegram.
fn distance_telegram(first_module_size: u32, modules: &[u8]) -> Vec<u8> {
    let mut out: Vec<u8> = vec![2, 2, 2, 2];
    out.extend_from_slice(&1u32.to_le_bytes()); // message type: distance
    out.extend_from_slice(&400u64.to_le_bytes()); // telegram_counter
    out.extend_from_slice(&500u64.to_le_bytes()); // timestamp
    out.extend_from_slice(&4u32.to_le_bytes()); // telegram_version
    out.extend_from_slice(&first_module_size.to_le_bytes());
    out.extend_from_slice(modules);
    out.extend_from_slice(&0u32.to_le_bytes()); // checksum, carried unvalidated
    out
}

fn decode(bytes: &Vec<u8>) -> Result<CompactMessage, DecodeError> {
    let mut pos: usize = 0;
    CompactMessage::read_message(bytes, &mut pos)
}

#[test]
fn three_lines_two_beams_transpose() {
    // beam-major wire order over 3 lines and 2 beams, one echo each:
    // write order w = beam * 3 + line, distance 100 + w
    let m = module_bytes(3, 2, 1, 0b01, 0b00, 0, &[10, 20, 30]);
    let telegram = distance_telegram(m.len() as u32, &m);
    let msg = decode(&telegram).expect("well-formed telegram");
    let (header, data) = match msg {
        CompactMessage::DistanceMessage { header, data } => (header, data),
        _ => panic!("expected a distance message"),
    };
    assert_eq!(header.telegram_counter, 400);
    let modules = data.to_vec();
    assert_eq!(modules.len(), 1);
    let module = modules.into_iter().next().unwrap();
    assert_eq!(module.number_lines_in_module, 3);
    assert_eq!(module.number_of_beams_per_scan, 2);
    assert_eq!(module.phi, vec![10, 20, 30]);
    let layers = module.data.to_vec();
    assert_eq!(layers.len(), 3);

    // layer t is line 2 - t, paired with that line's own metadata
    let expected_phi = [30u32, 20, 10];
    let expected_tss = [1002u64, 1001, 1000];
    for (t, layer) in layers.iter().enumerate() {
        assert_eq!(layer.phi, expected_phi[t]);
        assert_eq!(layer.time_stamp_start, expected_tss[t]);
        assert_eq!(layer.data.len(), 2);
        let line = 2 - t as u16;
        for (beam, m) in layer.data.iter().enumerate() {
            let w = beam as u16 * 3 + line;
            match m {
                Measurement::Filled { echoes, beam_properties, azimuth_angle } => {
                    let es = echoes.to_vec();
                    assert_eq!(es.len(), 1);
                    assert_eq!(es[0].distance, Some(100 + w));
                    assert_eq!(es[0].rssi, None);
                    assert_eq!(*beam_properties, None);
                    assert_eq!(*azimuth_angle, None);
                },
                Measurement::Empty => panic!("decoded measurements are filled"),
            }
        }
    }
}

fn single_measurement(dce: u8, dcb: u8) -> Measurement {
    let m = module_bytes(1, 1, 1, dce, dcb, 0, &[42]);
    let telegram = distance_telegram(m.len() as u32, &m);
    let msg = decode(&telegram).unwrap();
    let data = match msg {
        CompactMessage::DistanceMessage { data, .. } => data,
        _ => panic!("expected a distance message"),
    };
    let module = data.to_vec().into_iter().next().unwrap();
    module.data.to_vec().into_iter().next().unwrap().data.into_iter().next().unwrap()
}

#[test]
fn echo_bitmask_decides_what_is_kept() {
    for (dce, dist, rssi) in [
        (0b00u8, None, None),
        (0b01, Some(100u16), None),
        (0b10, None, Some(9000u16)),
        (0b11, Some(100), Some(9000)),
    ] {
        match single_measurement(dce, 0b00) {
            Measurement::Filled { echoes, beam_properties, azimuth_angle } => {
                let es = echoes.to_vec();
                assert_eq!(es[0].distance, dist);
                assert_eq!(es[0].rssi, rssi);
                // the beam mask plays no part in the echo fields
                assert_eq!(beam_properties, None);
                assert_eq!(azimuth_angle, None);
            },
            Measurement::Empty => panic!("decoded measurements are filled"),
        }
    }
}

#[test]
fn beam_bitmask_decides_what_is_kept() {
    for (dcb, props, azimuth) in [
        (0b00u8, None, None),
        (0b01, Some(0x50u8), None),
        (0b10, None, Some(0x600u16)),
        (0b11, Some(0x50), Some(0x600)),
    ] {
        match single_measurement(0b11, dcb) {
            Measurement::Filled { echoes, beam_properties, azimuth_angle } => {
                assert_eq!(beam_properties, props);
                assert_eq!(azimuth_angle, azimuth);
                // the echo mask plays no part in the beam fields
                let es = echoes.to_vec();
                assert_eq!(es[0].distance, Some(100));
            },
            Measurement::Empty => panic!("decoded measurements are filled"),
        }
    }
}

#[test]
fn chain_ends_at_the_zero_terminator() {
    let m1 = module_bytes(1, 1, 1, 0b11, 0b11, 1, &[11]);
    let m2 = module_bytes(2, 1, 1, 0b11, 0b11, 0, &[21, 22]);
    let mut both = m1.clone();
    both.extend_from_slice(&m2);
    let telegram = distance_telegram(m1.len() as u32, &both);
    let msg = decode(&telegram).unwrap();
    let data = match msg {
        CompactMessage::DistanceMessage { data, .. } => data,
        _ => panic!("expected a distance message"),
    };
    let modules = data.to_vec();
    assert_eq!(modules.len(), 2);
    assert_eq!(modules[0].number_lines_in_module, 1);
    assert_eq!(modules[0].next_module_size(), 1);
    assert_eq!(modules[1].number_lines_in_module, 2);
    assert_eq!(modules[1].next_module_size(), 0);
}

#[test]
fn zero_first_module_size_means_no_modules() {
    let telegram = distance_telegram(0, &[]);
    let msg = decode(&telegram).unwrap();
    match msg {
        CompactMessage::DistanceMessage { data, .. } => {
            assert!(data.to_vec().is_empty());
        },
        _ => panic!("expected a distance message"),
    }
}

#[test]
fn non_terminating_chain_stops_at_one_hundred_modules() {
    let one = module_bytes(1, 1, 1, 0b01, 0b00, 7, &[1]);
    let mut chain: Vec<u8> = Vec::new();
    for _ in 0..100 {
        chain.extend_from_slice(&one);
    }
    let telegram = distance_telegram(one.len() as u32, &chain);
    let msg = decode(&telegram).expect("the cap ends the chain without erroring");
    match msg {
        CompactMessage::DistanceMessage { data, .. } => {
            let modules = data.to_vec();
            assert_eq!(modules.len(), 100);
            assert!(modules.iter().all(|m| m.next_module_size() == 7));
        },
        _ => panic!("expected a distance message"),
    }
}

#[test]
fn imu_telegram_decodes() {
    let mut t: Vec<u8> = vec![2, 2, 2, 2];
    t.extend_from_slice(&2u32.to_le_bytes()); // message type: IMU
    t.extend_from_slice(&3u32.to_le_bytes()); // telegram_version
    for v in [1.0f32, 2.0, 3.0, 0.1, 0.2, 0.3, 0.5, 0.6, 0.7, 0.8] {
        t.extend_from_slice(&v.to_bits().to_le_bytes());
    }
    t.extend_from_slice(&123456u64.to_le_bytes()); // time_stamp
    t.extend_from_slice(&0u32.to_le_bytes()); // checksum
    let msg = decode(&t).unwrap();
    match msg {
        CompactMessage::IMUMessage { imudata } => {
            assert_eq!(imudata.telegram_version, 3);
            assert_eq!(f32::from_bits(imudata.acceleration.0), 1.0);
            assert_eq!(f32::from_bits(imudata.acceleration.2), 3.0);
            assert_eq!(f32::from_bits(imudata.angular_velocity.1), 0.2);
            assert_eq!(f32::from_bits(imudata.orientation.3), 0.8);
            assert_eq!(imudata.time_stamp, 123456);
        },
        _ => panic!("expected an IMU message"),
    }
}

#[test]
fn bad_magic_is_fatal() {
    let mut t = distance_telegram(0, &[]);
    t[0] = 3;
    assert!(matches!(decode(&t), Err(DecodeError::BadMagic(0x02020203))));
}

#[test]
fn unknown_message_type_is_fatal() {
    let mut t: Vec<u8> = vec![2, 2, 2, 2];
    t.extend_from_slice(&5u32.to_le_bytes());
    t.extend_from_slice(&[0u8; 32]);
    assert!(matches!(decode(&t), Err(DecodeError::UnknownMessageType(5))));
}

#[test]
fn truncated_header_reports_exhaustion() {
    let mut t: Vec<u8> = vec![2, 2, 2, 2];
    t.extend_from_slice(&1u32.to_le_bytes());
    t.extend_from_slice(&400u64.to_le_bytes());
    assert!(matches!(decode(&t), Err(DecodeError::Exhausted(ValueKind::U64))));
}

#[test]
fn truncated_grid_reports_exhaustion() {
    let m = module_bytes(1, 1, 1, 0b01, 0b00, 0, &[42]);
    // drop the final azimuth bytes
    let cut = &m[..m.len() - 2];
    let telegram = distance_telegram(m.len() as u32, cut);
    // the checksum word is swallowed as grid bytes, so the telegram runs out
    assert!(matches!(decode(&telegram), Err(DecodeError::Exhausted(_))));
}
