use scanproto::cola_a::{CoLaDataType, F32Bits};
use scanproto::cola_datatypes::{CoLaDataChannel, CoLaDataChannelType, EncoderData};
use scanproto::{DecodeError, ValueKind};

fn round_trip<T: CoLaDataType + PartialEq + std::fmt::Debug>(v: T) {
    let mut data: Vec<u8> = Vec::new();
    v.write_to_data(&mut data);
    let mut pos: usize = 0;
    let back = T::get_from_data(&data, &mut pos).expect("decode must succeed");
    assert_eq!(back, v);
    assert_eq!(pos, data.len());
}

#[test]
fn round_trip_bool() {
    round_trip(true);
    round_trip(false);
}

#[test]
fn round_trip_unsigned() {
    round_trip(0u8);
    round_trip(0xabu8);
    round_trip(0u16);
    round_trip(0x1234u16);
    round_trip(0xffffu16);
    round_trip(0xdeadbeefu32);
    round_trip(u32::MAX);
}

#[test]
fn round_trip_signed() {
    round_trip(-1i8);
    round_trip(i8::MIN);
    round_trip(i8::MAX);
    round_trip(-2i16);
    round_trip(i16::MIN);
    round_trip(0x7fffi16);
    round_trip(-123456i32);
    round_trip(i32::MIN);
    round_trip(i32::MAX);
}

#[test]
fn round_trip_f32_bits() {
    round_trip(F32Bits { bits: 1.5f32.to_bits() });
    round_trip(F32Bits { bits: (-0.25f32).to_bits() });
    let v = F32Bits { bits: 3.75f32.to_bits() };
    let mut data: Vec<u8> = Vec::new();
    v.write_to_data(&mut data);
    assert_eq!(data, 3.75f32.to_be_bytes().to_vec());
    let mut pos: usize = 0;
    let back = F32Bits::get_from_data(&data, &mut pos).unwrap();
    assert_eq!(f32::from_bits(back.bits), 3.75f32);
}

#[test]
fn round_trip_string() {
    round_trip(String::from("LMDscandata"));
    round_trip(String::from(""));
}

#[test]
fn round_trip_vec_and_option() {
    round_trip(vec![1u16, 2u16, 0xffffu16]);
    round_trip(Vec::<u32>::new());
    round_trip(Some(0x42u16));
    round_trip(None::<u16>);
    round_trip(vec![Some(7u8), None, Some(9u8)]);
}

#[test]
fn known_wire_forms() {
    let mut data: Vec<u8> = Vec::new();
    0x1234u16.write_to_data(&mut data);
    assert_eq!(data, vec![0x12, 0x34]);

    let mut data: Vec<u8> = Vec::new();
    0x01020304u32.write_to_data(&mut data);
    assert_eq!(data, vec![0x01, 0x02, 0x03, 0x04]);

    let mut data: Vec<u8> = Vec::new();
    (-1i16).write_to_data(&mut data);
    assert_eq!(data, vec![0xff, 0xff]);

    let mut data: Vec<u8> = Vec::new();
    vec![0xaabbu16].write_to_data(&mut data);
    assert_eq!(data, vec![0x00, 0x01, 0xaa, 0xbb]);

    let mut data: Vec<u8> = Vec::new();
    Some(5u8).write_to_data(&mut data);
    assert_eq!(data, vec![0x00, 0x01, 0x05]);

    let mut data: Vec<u8> = Vec::new();
    None::<u8>.write_to_data(&mut data);
    assert_eq!(data, vec![0x00, 0x00]);
}

#[test]
fn exhausted_reports_the_kind() {
    let data: Vec<u8> = Vec::new();
    let mut pos: usize = 0;
    assert_eq!(
        bool::get_from_data(&data, &mut pos),
        Err(DecodeError::Exhausted(ValueKind::Bool))
    );
    let mut pos: usize = 0;
    assert_eq!(
        u32::get_from_data(&data, &mut pos),
        Err(DecodeError::Exhausted(ValueKind::U32))
    );
    let data: Vec<u8> = vec![0x01];
    let mut pos: usize = 0;
    assert_eq!(
        i16::get_from_data(&data, &mut pos),
        Err(DecodeError::Exhausted(ValueKind::I16))
    );
}

#[test]
fn option_control_code_must_be_zero_or_one() {
    let data: Vec<u8> = vec![0x00, 0x02, 0x05];
    let mut pos: usize = 0;
    let r = Option::<u8>::get_from_data(&data, &mut pos);
    assert_eq!(r, Err(DecodeError::InvalidControlCode(2)));
}

#[test]
fn string_stops_at_the_space() {
    let data: Vec<u8> = b"sRA LMDscandata ".to_vec();
    let mut pos: usize = 0;
    let first = String::get_from_data(&data, &mut pos).unwrap();
    assert_eq!(first, "sRA");
    let second = String::get_from_data(&data, &mut pos).unwrap();
    assert_eq!(second, "LMDscandata");
    assert_eq!(pos, data.len());
}

#[test]
fn string_rejects_invalid_utf8() {
    let data: Vec<u8> = vec![0xff, 0xfe, 0x20];
    let mut pos: usize = 0;
    assert_eq!(
        String::get_from_data(&data, &mut pos),
        Err(DecodeError::InvalidUtf8)
    );
}

#[test]
fn channel_type_tags() {
    let mut data: Vec<u8> = Vec::new();
    CoLaDataChannelType::Dist1.write_to_data(&mut data);
    assert_eq!(data, vec![0x44, 0x49, 0x53, 0x54, 0x31]);
    let mut pos: usize = 0;
    assert_eq!(
        CoLaDataChannelType::get_from_data(&data, &mut pos),
        Ok(CoLaDataChannelType::Dist1)
    );
    round_trip(CoLaDataChannelType::RSSI5);
    round_trip(CoLaDataChannelType::VANGL);
    round_trip(CoLaDataChannelType::ANGL1);
}

#[test]
fn channel_type_unknown_tag_is_an_error() {
    let data: Vec<u8> = vec![0x41, 0x41, 0x41, 0x41, 0x39];
    let mut pos: usize = 0;
    assert_eq!(
        CoLaDataChannelType::get_from_data(&data, &mut pos),
        Err(DecodeError::UnknownChannelType(0x41414141, 0x39))
    );
}

#[test]
fn encoder_data_round_trip() {
    round_trip(EncoderData { position: 0xcafe, speed: 77 });
}

#[test]
fn channel_round_trip() {
    let ch = CoLaDataChannel::<u16> {
        kind: CoLaDataChannelType::Dist1,
        scale: F32Bits { bits: 1.0f32.to_bits() },
        scale_offset: F32Bits { bits: 0.0f32.to_bits() },
        start_angle: 4500,
        angular_step: 25,
        data: vec![100, 200, 300],
    };
    let mut data: Vec<u8> = Vec::new();
    ch.write_to_data(&mut data);
    let mut pos: usize = 0;
    let back = CoLaDataChannel::<u16>::get_from_data(&data, &mut pos).unwrap();
    assert_eq!(back.kind, CoLaDataChannelType::Dist1);
    assert_eq!(f32::from_bits(back.scale.bits), 1.0);
    assert_eq!(back.start_angle, 4500);
    assert_eq!(back.angular_step, 25);
    assert_eq!(back.data, vec![100, 200, 300]);
    assert_eq!(pos, data.len());
}
