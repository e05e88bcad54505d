use scanproto::cola_a::CoLaUtil;
use scanproto::cola_datatypes::{LmpSectorConfig, LmpSectors};
use scanproto::messages::{CoLaMessages, CoLaMessagesIncoming};
use scanproto::{DecodeError, MessageError};

#[test]
fn set_access_mode_serializes_exactly() {
    let msg = CoLaMessages::SetAccessMode { user_level: 3, password: 0xf4724744 };
    let raw = msg.to_raw_message().expect("serializable");
    let mut expected = b"sMN SetAccessMode ".to_vec();
    expected.push(0x03);
    expected.extend_from_slice(&[0xf4, 0x72, 0x47, 0x44]);
    assert_eq!(raw, expected);
}

#[test]
fn poll_and_run_serialize_exactly() {
    assert_eq!(
        CoLaMessages::PollOneTelegram.to_raw_message().unwrap(),
        b"sRN LMDscandata ".to_vec()
    );
    assert_eq!(
        CoLaMessages::Run.to_raw_message().unwrap(),
        b"sMN Run ".to_vec()
    );
    assert_eq!(
        CoLaMessages::LMCStartMeasurement.to_raw_message().unwrap(),
        b"sMN LMCstartmeas ".to_vec()
    );
}

#[test]
fn scan_cfg_has_no_wire_form() {
    let msg = CoLaMessages::LmpSetScanCfgOutgoing {
        freq: 5000,
        sectors: LmpSectors([Some(LmpSectorConfig(2500, -450000, 2250000)), None, None, None]),
    };
    assert!(msg.to_raw_message().is_none());
}

#[test]
fn incoming_access_mode_decodes() {
    let payload = b"sAN SetAccessMode \x01".to_vec();
    let msg = CoLaMessagesIncoming::from_raw_message(&payload).unwrap();
    match msg {
        CoLaMessagesIncoming::SetAccessMode { accepted } => assert!(accepted),
        _ => panic!("wrong variant"),
    }
}

#[test]
fn incoming_start_measurement_decodes() {
    let payload = b"sAN LMCstartmeas \x07".to_vec();
    let msg = CoLaMessagesIncoming::from_raw_message(&payload).unwrap();
    match msg {
        CoLaMessagesIncoming::LMCstartmeas { status } => assert_eq!(status, 7),
        _ => panic!("wrong variant"),
    }
}

#[test]
fn incoming_run_decodes() {
    let payload = b"sAN Run \x01".to_vec();
    let msg = CoLaMessagesIncoming::from_raw_message(&payload).unwrap();
    match msg {
        CoLaMessagesIncoming::Run { status } => assert_eq!(status, 1),
        _ => panic!("wrong variant"),
    }
}

#[test]
fn unknown_command_is_a_decode_error() {
    let payload = b"sAN NoSuchCommand \x01".to_vec();
    assert!(matches!(
        CoLaMessagesIncoming::from_raw_message(&payload),
        Err(DecodeError::UnknownCommand)
    ));
}

/// The fixed 38 bytes that precede the channel lists of a scan-data
/// telegram, with recognizable values.
fn lmd_fixed_part() -> Vec<u8> {
    let mut body: Vec<u8> = Vec::new();
    body.extend_from_slice(&1u16.to_be_bytes()); // version
    body.extend_from_slice(&7u16.to_be_bytes()); // device_number
    body.extend_from_slice(&0xdeadbeefu32.to_be_bytes()); // serial_number
    body.extend_from_slice(&0u16.to_be_bytes()); // status
    body.extend_from_slice(&21u16.to_be_bytes()); // telegram_counter
    body.extend_from_slice(&22u16.to_be_bytes()); // scan_counter
    body.extend_from_slice(&1000u32.to_be_bytes()); // time_since_start
    body.extend_from_slice(&1100u32.to_be_bytes()); // time_of_transmission
    body.push(0); // input_status
    body.push(0); // output_status
    body.extend_from_slice(&0u16.to_be_bytes()); // res
    body.extend_from_slice(&(-250i16).to_be_bytes()); // layer_angle
    body.extend_from_slice(&5000u32.to_be_bytes()); // scan_frequency
    body.extend_from_slice(&30000u32.to_be_bytes()); // measurement_frequency
    body.extend_from_slice(&0u16.to_be_bytes()); // encoder_data
    body
}

#[test]
fn scan_data_telegram_decodes() {
    let mut payload = b"sRA LMDscandata ".to_vec();
    payload.extend_from_slice(&lmd_fixed_part());
    // one sixteen-bit channel: DIST1, unit scale, three readings
    payload.extend_from_slice(&1u16.to_be_bytes());
    payload.extend_from_slice(&[0x44, 0x49, 0x53, 0x54, 0x31]);
    payload.extend_from_slice(&1.0f32.to_be_bytes());
    payload.extend_from_slice(&0.0f32.to_be_bytes());
    payload.extend_from_slice(&4500u32.to_be_bytes());
    payload.extend_from_slice(&25u16.to_be_bytes());
    payload.extend_from_slice(&3u16.to_be_bytes());
    payload.extend_from_slice(&100u16.to_be_bytes());
    payload.extend_from_slice(&200u16.to_be_bytes());
    payload.extend_from_slice(&300u16.to_be_bytes());
    // no eight-bit channels
    payload.extend_from_slice(&0u16.to_be_bytes());
    // position data flag
    payload.extend_from_slice(&0u16.to_be_bytes());

    let msg = CoLaMessagesIncoming::from_raw_message(&payload).unwrap();
    match msg {
        CoLaMessagesIncoming::LMDData {
            version,
            device_number,
            serial_number,
            layer_angle,
            scan_frequency,
            longdata,
            shortdata,
            ..
        } => {
            assert_eq!(version, 1);
            assert_eq!(device_number, 7);
            assert_eq!(serial_number, 0xdeadbeef);
            assert_eq!(layer_angle, -250);
            assert_eq!(scan_frequency, 5000);
            assert_eq!(longdata.len(), 1);
            assert_eq!(longdata[0].data, vec![100, 200, 300]);
            assert_eq!(longdata[0].start_angle, 4500);
            assert_eq!(longdata[0].angular_step, 25);
            assert!(shortdata.is_empty());
        },
        _ => panic!("wrong variant"),
    }
}

#[test]
fn test_data_decodes_a_scan_data_payload() {
    let mut payload = b"sRA LMDscandata ".to_vec();
    payload.extend_from_slice(&lmd_fixed_part());
    payload.extend_from_slice(&0u16.to_be_bytes());
    payload.extend_from_slice(&0u16.to_be_bytes());
    payload.extend_from_slice(&9u16.to_be_bytes());
    let msg = CoLaMessagesIncoming::test_data(&payload).unwrap();
    match msg {
        CoLaMessagesIncoming::LMDData { position_data, telegram_counter, .. } => {
            assert_eq!(position_data, 9);
            assert_eq!(telegram_counter, 21);
        },
        _ => panic!("wrong variant"),
    }
}

#[test]
fn test_data_refuses_other_command_names() {
    // a well-formed scan-data body behind a name with no handler is an
    // unknown command, never a silently decoded telegram
    let mut payload = b"sRA NoSuchCommand ".to_vec();
    payload.extend_from_slice(&lmd_fixed_part());
    payload.extend_from_slice(&0u16.to_be_bytes());
    payload.extend_from_slice(&0u16.to_be_bytes());
    payload.extend_from_slice(&9u16.to_be_bytes());
    assert!(matches!(
        CoLaMessagesIncoming::test_data(&payload),
        Err(DecodeError::UnknownCommand)
    ));
}

#[test]
fn read_message_checks_the_frame_first() {
    let mut payload = b"sAN Run \x02".to_vec();
    let expected_payload = payload.clone();
    let mut frame = CoLaUtil::setup_vec(&mut payload);

    let msg = CoLaUtil::read_message(&frame).unwrap();
    assert!(matches!(msg, CoLaMessagesIncoming::Run { status: 2 }));

    // the same frame with a flipped checksum is refused before any decode
    let last = frame.len() - 1;
    frame[last] ^= 0x01;
    assert!(matches!(
        CoLaUtil::read_message(&frame),
        Err(MessageError::Frame(scanproto::FrameError::BadChecksum))
    ));

    // restore the checksum: the payload decodes again
    frame[last] ^= 0x01;
    assert!(CoLaUtil::read_message(&frame).is_ok());
    let back = CoLaUtil::parse_frame(&frame).unwrap();
    assert_eq!(back, expected_payload);
}

#[test]
fn truncated_incoming_payload_reports_exhaustion() {
    let payload = b"sAN SetAccessMode ".to_vec();
    assert!(matches!(
        CoLaMessagesIncoming::from_raw_message(&payload),
        Err(DecodeError::Exhausted(scanproto::ValueKind::Bool))
    ));
}

#[test]
fn read_message_reports_payload_decode_errors() {
    let mut payload = b"sAN NoSuchCommand \x01".to_vec();
    let frame = CoLaUtil::setup_vec(&mut payload);
    assert!(matches!(
        CoLaUtil::read_message(&frame),
        Err(MessageError::Decode(DecodeError::UnknownCommand))
    ));
}
