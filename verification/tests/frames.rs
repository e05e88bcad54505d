use scanproto::cola_a::CoLaUtil;
use scanproto::FrameError;

#[test]
fn setup_vec_builds_the_exact_frame() {
    let mut payload: Vec<u8> = vec![0x10, 0x20];
    let frame = CoLaUtil::setup_vec(&mut payload);
    assert_eq!(
        frame,
        vec![2, 2, 2, 2, 0x00, 0x00, 0x00, 0x02, 0x10, 0x20, 0x30]
    );
    assert!(payload.is_empty());
}

#[test]
fn frame_round_trip() {
    let mut payload: Vec<u8> = b"sMN SetAccessMode ".to_vec();
    let expected = payload.clone();
    let frame = CoLaUtil::setup_vec(&mut payload);
    let back = CoLaUtil::parse_frame(&frame).expect("a well-formed frame must parse");
    assert_eq!(back, expected);
}

#[test]
fn empty_payload_frame_round_trip() {
    let mut payload: Vec<u8> = Vec::new();
    let frame = CoLaUtil::setup_vec(&mut payload);
    assert_eq!(frame, vec![2, 2, 2, 2, 0, 0, 0, 0, 0]);
    let back = CoLaUtil::parse_frame(&frame).unwrap();
    assert!(back.is_empty());
}

#[test]
fn corrupted_checksum_is_rejected() {
    let mut payload: Vec<u8> = vec![0x41, 0x42, 0x43];
    let mut frame = CoLaUtil::setup_vec(&mut payload);
    let last = frame.len() - 1;
    frame[last] ^= 0xff;
    assert_eq!(CoLaUtil::parse_frame(&frame), Err(FrameError::BadChecksum));
}

#[test]
fn every_corrupting_checksum_value_is_rejected() {
    let mut payload: Vec<u8> = vec![0x01, 0x02];
    let frame = CoLaUtil::setup_vec(&mut payload);
    let last = frame.len() - 1;
    let good = frame[last];
    for bad in 0..=255u8 {
        if bad == good {
            continue;
        }
        let mut corrupted = frame.clone();
        corrupted[last] = bad;
        assert_eq!(
            CoLaUtil::parse_frame(&corrupted),
            Err(FrameError::BadChecksum)
        );
    }
}

#[test]
fn bad_magic_is_rejected() {
    let frame: Vec<u8> = vec![2, 2, 2, 3, 0, 0, 0, 0, 0];
    assert_eq!(CoLaUtil::parse_frame(&frame), Err(FrameError::BadMagic));
}

#[test]
fn short_buffer_is_rejected() {
    let frame: Vec<u8> = vec![2, 2, 2];
    assert_eq!(CoLaUtil::parse_frame(&frame), Err(FrameError::TooShort));
}

#[test]
fn wrong_length_is_rejected() {
    // announces two payload bytes but carries three
    let frame: Vec<u8> = vec![2, 2, 2, 2, 0, 0, 0, 2, 0x10, 0x20, 0x21, 0x30];
    assert_eq!(
        CoLaUtil::parse_frame(&frame),
        Err(FrameError::LengthMismatch)
    );
}

#[test]
fn command_prefix_bytes() {
    let out = CoLaUtil::vec_from_command([0x73, 0x4D, 0x4E], "SetAccessMode");
    assert_eq!(out, b"sMN SetAccessMode ".to_vec());
    let out2 = CoLaUtil::vec_from_command_tuple(([0x73, 0x52, 0x4E], "LMDscandata"));
    assert_eq!(out2, b"sRN LMDscandata ".to_vec());
}
