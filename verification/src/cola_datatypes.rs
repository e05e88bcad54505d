//! Composite CoLa field types: measurement data channels, encoder readings,
//! timestamps and the enumerations used by the configuration commands.
//!
//! The types that travel on the wire implement [`CoLaDataType`] with
//! field-sequential codecs; the remaining enumerations are carried by
//! commands whose wire form this crate does not encode.

use vstd::prelude::*;

use crate::cola_a::{be32, be32_bytes, CoLaDataType, F32Bits};
use crate::{DecodeError, ValueKind};

verus! {

/// A scan frequency in 1/100 Hz.
pub type CoLaFrequency = u32;

/// An angular resolution in 1/10000 degree.
pub type CoLaAngularRes = u32;

/// An angle in 1/10000 degree.
pub type CoLaDefinedAngle = i32;

/// One scan sector: its angular resolution, start angle and stop angle.
#[derive(Clone, Copy, Debug, PartialEq, Eq, Structural)]
pub struct LmpSectorConfig(pub CoLaAngularRes, pub CoLaDefinedAngle, pub CoLaDefinedAngle);

/// The up-to-four sectors a scan configuration can carry.
#[derive(Clone, Copy, Debug, PartialEq, Eq)]
pub struct LmpSectors(pub [Option<LmpSectorConfig>; 4]);

/// One encoder reading: position and speed.
#[derive(Clone, Copy, Debug, PartialEq, Eq, Structural)]
pub struct EncoderData {
    pub position: u32,
    pub speed: u16,
}

impl DeepView for EncoderData {
    type V = EncoderData;

    open spec fn deep_view(&self) -> EncoderData {
        *self
    }
}

impl CoLaDataType for EncoderData {
    open spec fn wf_v(v: EncoderData) -> bool {
        true
    }

    open spec fn wire_of(v: EncoderData) -> Seq<u8> {
        <u32 as CoLaDataType>::wire_of(v.position) + <u16 as CoLaDataType>::wire_of(v.speed)
    }

    open spec fn parse(s: Seq<u8>) -> Result<(EncoderData, int), DecodeError> {
        match <u32 as CoLaDataType>::parse(s) {
            Err(e) => Err(e),
            Ok((position, k1)) => match <u16 as CoLaDataType>::parse(s.skip(k1)) {
                Err(e) => Err(e),
                Ok((speed, k2)) => Ok((EncoderData { position, speed }, k1 + k2)),
            },
        }
    }

    open spec fn prefix_secure() -> bool {
        true
    }

    proof fn lemma_parse_len(s: Seq<u8>) {
    }

    proof fn lemma_wire_parse(v: EncoderData, rest: Seq<u8>) {
        let w1 = <u32 as CoLaDataType>::wire_of(v.position);
        let w2 = <u16 as CoLaDataType>::wire_of(v.speed);
        let s = Self::wire_of(v) + rest;
        assert(s =~= w1 + (w2 + rest));
        <u32 as CoLaDataType>::lemma_wire_parse(v.position, w2 + rest);
        assert(s.skip(w1.len() as int) =~= w2 + rest);
        <u16 as CoLaDataType>::lemma_wire_parse(v.speed, rest);
    }

    fn write_to_data(&self, data: &mut Vec<u8>) {
        let ghost base = data@;
        self.position.write_to_data(data);
        self.speed.write_to_data(data);
        assert(final(data)@ =~= base + Self::wire_of(*self));
    }

    fn get_from_data(src: &Vec<u8>, pos: &mut usize) -> (r: Result<Self, DecodeError>) {
        let ghost p0 = *pos;
        let position = match u32::get_from_data(src, pos) {
            Ok(v) => v,
            Err(e) => {
                return Err(e);
            },
        };
        let ghost p1 = *pos;
        proof {
            assert(src@.skip(p0 as int).skip((p1 - p0) as int) =~= src@.skip(p1 as int));
        }
        let speed = match u16::get_from_data(src, pos) {
            Ok(v) => v,
            Err(e) => {
                return Err(e);
            },
        };
        Ok(EncoderData { position, speed })
    }
}

/// Which physical quantity a data channel carries, and in which echo slot.
#[derive(Clone, Copy, Debug, PartialEq, Eq, Structural)]
pub enum CoLaDataChannelType {
    Dist1,
    Dist2,
    Dist3,
    Dist4,
    Dist5,
    RSSI1,
    RSSI2,
    RSSI3,
    RSSI4,
    RSSI5,
    VANGL,
    REFL1,
    ANGL1,
}

impl DeepView for CoLaDataChannelType {
    type V = CoLaDataChannelType;

    open spec fn deep_view(&self) -> CoLaDataChannelType {
        *self
    }
}

/// The four-byte tag and one-byte index that announce a channel type on the
/// wire.
pub open spec fn channel_type_tag(v: CoLaDataChannelType) -> (u32, u8) {
    match v {
        CoLaDataChannelType::Dist1 => (0x44495354, 0x31),
        CoLaDataChannelType::Dist2 => (0x44495354, 0x32),
        CoLaDataChannelType::Dist3 => (0x44495354, 0x33),
        CoLaDataChannelType::Dist4 => (0x44495354, 0x34),
        CoLaDataChannelType::Dist5 => (0x44495354, 0x35),
        CoLaDataChannelType::RSSI1 => (0x52535349, 0x31),
        CoLaDataChannelType::RSSI2 => (0x52535349, 0x32),
        CoLaDataChannelType::RSSI3 => (0x52535349, 0x33),
        CoLaDataChannelType::RSSI4 => (0x52535349, 0x34),
        CoLaDataChannelType::RSSI5 => (0x52535349, 0x35),
        CoLaDataChannelType::VANGL => (0x56414E47, 0x4C),
        CoLaDataChannelType::REFL1 => (0x5245464C, 0x31),
        CoLaDataChannelType::ANGL1 => (0x414E474C, 0x31),
    }
}

/// The channel type a tag pair names, if any.
pub open spec fn channel_type_of_tag(a: u32, b: u8) -> Option<CoLaDataChannelType> {
    if a == 0x44495354 && b == 0x31 {
        Some(CoLaDataChannelType::Dist1)
    } else if a == 0x44495354 && b == 0x32 {
        Some(CoLaDataChannelType::Dist2)
    } else if a == 0x44495354 && b == 0x33 {
        Some(CoLaDataChannelType::Dist3)
    } else if a == 0x44495354 && b == 0x34 {
        Some(CoLaDataChannelType::Dist4)
    } else if a == 0x44495354 && b == 0x35 {
        Some(CoLaDataChannelType::Dist5)
    } else if a == 0x52535349 && b == 0x31 {
        Some(CoLaDataChannelType::RSSI1)
    } else if a == 0x52535349 && b == 0x32 {
        Some(CoLaDataChannelType::RSSI2)
    } else if a == 0x52535349 && b == 0x33 {
        Some(CoLaDataChannelType::RSSI3)
    } else if a == 0x52535349 && b == 0x34 {
        Some(CoLaDataChannelType::RSSI4)
    } else if a == 0x52535349 && b == 0x35 {
        Some(CoLaDataChannelType::RSSI5)
    } else if a == 0x56414E47 && b == 0x4C {
        Some(CoLaDataChannelType::VANGL)
    } else if a == 0x5245464C && b == 0x31 {
        Some(CoLaDataChannelType::REFL1)
    } else if a == 0x414E474C && b == 0x31 {
        Some(CoLaDataChannelType::ANGL1)
    } else {
        None
    }
}

impl CoLaDataType for CoLaDataChannelType {
    open spec fn wf_v(v: CoLaDataChannelType) -> bool {
        true
    }

    open spec fn wire_of(v: CoLaDataChannelType) -> Seq<u8> {
        be32_bytes(channel_type_tag(v).0) + seq![channel_type_tag(v).1]
    }

    open spec fn parse(s: Seq<u8>) -> Result<(CoLaDataChannelType, int), DecodeError> {
        if s.len() < 4 {
            Err(DecodeError::Exhausted(ValueKind::U32))
        } else if s.len() < 5 {
            Err(DecodeError::Exhausted(ValueKind::U8))
        } else {
            let a = be32(s[0], s[1], s[2], s[3]);
            let b = s[4];
            match channel_type_of_tag(a, b) {
                Some(t) => Ok((t, 5)),
                None => Err(DecodeError::UnknownChannelType(a, b)),
            }
        }
    }

    open spec fn prefix_secure() -> bool {
        true
    }

    proof fn lemma_parse_len(s: Seq<u8>) {
    }

    #[verifier::rlimit(30)]
    proof fn lemma_wire_parse(v: CoLaDataChannelType, rest: Seq<u8>) {
        let tag = channel_type_tag(v);
        let w = Self::wire_of(v);
        let s = w + rest;
        crate::cola_a::lemma_be32_round(tag.0);
        assert(s.subrange(0, 4) =~= be32_bytes(tag.0));
        assert(be32(s[0], s[1], s[2], s[3]) == tag.0);
        assert(s[4] == tag.1);
        assert(channel_type_of_tag(tag.0, tag.1) == Some(v));
    }

    fn write_to_data(&self, data: &mut Vec<u8>) {
        let ghost base = data@;
        let (a, b): (u32, u8) = match self {
            CoLaDataChannelType::Dist1 => (0x44495354, 0x31),
            CoLaDataChannelType::Dist2 => (0x44495354, 0x32),
            CoLaDataChannelType::Dist3 => (0x44495354, 0x33),
            CoLaDataChannelType::Dist4 => (0x44495354, 0x34),
            CoLaDataChannelType::Dist5 => (0x44495354, 0x35),
            CoLaDataChannelType::RSSI1 => (0x52535349, 0x31),
            CoLaDataChannelType::RSSI2 => (0x52535349, 0x32),
            CoLaDataChannelType::RSSI3 => (0x52535349, 0x33),
            CoLaDataChannelType::RSSI4 => (0x52535349, 0x34),
            CoLaDataChannelType::RSSI5 => (0x52535349, 0x35),
            CoLaDataChannelType::VANGL => (0x56414E47, 0x4C),
            CoLaDataChannelType::REFL1 => (0x5245464C, 0x31),
            CoLaDataChannelType::ANGL1 => (0x414E474C, 0x31),
        };
        a.write_to_data(data);
        b.write_to_data(data);
        assert(final(data)@ =~= base + Self::wire_of(*self));
    }

    fn get_from_data(src: &Vec<u8>, pos: &mut usize) -> (r: Result<Self, DecodeError>) {
        let ghost p0 = *pos;
        let a = match u32::get_from_data(src, pos) {
            Ok(v) => v,
            Err(e) => {
                return Err(e);
            },
        };
        let ghost p1 = *pos;
        proof {
            assert(src@.skip(p0 as int).skip((p1 - p0) as int) =~= src@.skip(p1 as int));
            assert(src@.skip(p0 as int).len() >= 4);
        }
        let b = match u8::get_from_data(src, pos) {
            Ok(v) => v,
            Err(e) => {
                return Err(e);
            },
        };
        if a == 0x44495354 && b == 0x31 {
            Ok(CoLaDataChannelType::Dist1)
        } else if a == 0x44495354 && b == 0x32 {
            Ok(CoLaDataChannelType::Dist2)
        } else if a == 0x44495354 && b == 0x33 {
            Ok(CoLaDataChannelType::Dist3)
        } else if a == 0x44495354 && b == 0x34 {
            Ok(CoLaDataChannelType::Dist4)
        } else if a == 0x44495354 && b == 0x35 {
            Ok(CoLaDataChannelType::Dist5)
        } else if a == 0x52535349 && b == 0x31 {
            Ok(CoLaDataChannelType::RSSI1)
        } else if a == 0x52535349 && b == 0x32 {
            Ok(CoLaDataChannelType::RSSI2)
        } else if a == 0x52535349 && b == 0x33 {
            Ok(CoLaDataChannelType::RSSI3)
        } else if a == 0x52535349 && b == 0x34 {
            Ok(CoLaDataChannelType::RSSI4)
        } else if a == 0x52535349 && b == 0x35 {
            Ok(CoLaDataChannelType::RSSI5)
        } else if a == 0x56414E47 && b == 0x4C {
            Ok(CoLaDataChannelType::VANGL)
        } else if a == 0x5245464C && b == 0x31 {
            Ok(CoLaDataChannelType::REFL1)
        } else if a == 0x414E474C && b == 0x31 {
            Ok(CoLaDataChannelType::ANGL1)
        } else {
            Err(DecodeError::UnknownChannelType(a, b))
        }
    }
}

/// One measurement data channel: what it carries, how its raw readings
/// scale, where its beams start and how far they step, and the readings.
/// The two scale fields hold raw IEEE-754 bit patterns.
#[derive(Clone, Debug)]
pub struct CoLaDataChannel<T> {
    pub kind: CoLaDataChannelType,
    pub scale: F32Bits,
    pub scale_offset: F32Bits,
    pub start_angle: u32,
    pub angular_step: u16,
    pub data: Vec<T>,
}

/// The abstract value of a [`CoLaDataChannel`].
pub struct CoLaDataChannelV<TV> {
    pub kind: CoLaDataChannelType,
    pub scale: F32Bits,
    pub scale_offset: F32Bits,
    pub start_angle: u32,
    pub angular_step: u16,
    pub data: Seq<TV>,
}

impl<T: DeepView> DeepView for CoLaDataChannel<T> {
    type V = CoLaDataChannelV<T::V>;

    open spec fn deep_view(&self) -> CoLaDataChannelV<T::V> {
        CoLaDataChannelV {
            kind: self.kind,
            scale: self.scale,
            scale_offset: self.scale_offset,
            start_angle: self.start_angle,
            angular_step: self.angular_step,
            data: self.data.deep_view(),
        }
    }
}

impl<T: CoLaDataType> CoLaDataType for CoLaDataChannel<T> {
    open spec fn wf_v(v: CoLaDataChannelV<T::V>) -> bool {
        <Vec<T> as CoLaDataType>::wf_v(v.data)
    }

    open spec fn wire_of(v: CoLaDataChannelV<T::V>) -> Seq<u8> {
        <CoLaDataChannelType as CoLaDataType>::wire_of(v.kind)
            + <F32Bits as CoLaDataType>::wire_of(v.scale) + <F32Bits as CoLaDataType>::wire_of(
            v.scale_offset,
        ) + <u32 as CoLaDataType>::wire_of(v.start_angle) + <u16 as CoLaDataType>::wire_of(
            v.angular_step,
        ) + <Vec<T> as CoLaDataType>::wire_of(v.data)
    }

    open spec fn parse(s: Seq<u8>) -> Result<(CoLaDataChannelV<T::V>, int), DecodeError> {
        match <CoLaDataChannelType as CoLaDataType>::parse(s) {
            Err(e) => Err(e),
            Ok((kind, k1)) => match <F32Bits as CoLaDataType>::parse(s.skip(k1)) {
                Err(e) => Err(e),
                Ok((scale, k2)) => match <F32Bits as CoLaDataType>::parse(s.skip(k1 + k2)) {
                    Err(e) => Err(e),
                    Ok((scale_offset, k3)) => match <u32 as CoLaDataType>::parse(
                        s.skip(k1 + k2 + k3),
                    ) {
                        Err(e) => Err(e),
                        Ok((start_angle, k4)) => match <u16 as CoLaDataType>::parse(
                            s.skip(k1 + k2 + k3 + k4),
                        ) {
                            Err(e) => Err(e),
                            Ok((angular_step, k5)) => match <Vec<T> as CoLaDataType>::parse(
                                s.skip(k1 + k2 + k3 + k4 + k5),
                            ) {
                                Err(e) => Err(e),
                                Ok((data, k6)) => Ok(
                                    (
                                        CoLaDataChannelV {
                                            kind,
                                            scale,
                                            scale_offset,
                                            start_angle,
                                            angular_step,
                                            data,
                                        },
                                        k1 + k2 + k3 + k4 + k5 + k6,
                                    ),
                                ),
                            },
                        },
                    },
                },
            },
        }
    }

    open spec fn prefix_secure() -> bool {
        T::prefix_secure()
    }

    proof fn lemma_parse_len(s: Seq<u8>) {
        match <CoLaDataChannelType as CoLaDataType>::parse(s) {
            Err(_) => {},
            Ok((_, k1)) => {
                <CoLaDataChannelType as CoLaDataType>::lemma_parse_len(s);
                match <Vec<T> as CoLaDataType>::parse(s.skip(k1 + 14)) {
                    Err(_) => {},
                    Ok((_, _)) => {
                        <Vec<T> as CoLaDataType>::lemma_parse_len(s.skip(k1 + 14));
                    },
                }
            },
        }
    }

    proof fn lemma_wire_parse(v: CoLaDataChannelV<T::V>, rest: Seq<u8>) {
        let w1 = <CoLaDataChannelType as CoLaDataType>::wire_of(v.kind);
        let w2 = <F32Bits as CoLaDataType>::wire_of(v.scale);
        let w3 = <F32Bits as CoLaDataType>::wire_of(v.scale_offset);
        let w4 = <u32 as CoLaDataType>::wire_of(v.start_angle);
        let w5 = <u16 as CoLaDataType>::wire_of(v.angular_step);
        let w6 = <Vec<T> as CoLaDataType>::wire_of(v.data);
        let s = Self::wire_of(v) + rest;
        assert(s =~= w1 + (w2 + (w3 + (w4 + (w5 + (w6 + rest))))));
        <CoLaDataChannelType as CoLaDataType>::lemma_wire_parse(
            v.kind,
            w2 + (w3 + (w4 + (w5 + (w6 + rest)))),
        );
        assert(s.skip(w1.len() as int) =~= w2 + (w3 + (w4 + (w5 + (w6 + rest)))));
        <F32Bits as CoLaDataType>::lemma_wire_parse(v.scale, w3 + (w4 + (w5 + (w6 + rest))));
        assert(s.skip((w1.len() + w2.len()) as int) =~= w3 + (w4 + (w5 + (w6 + rest))));
        <F32Bits as CoLaDataType>::lemma_wire_parse(v.scale_offset, w4 + (w5 + (w6 + rest)));
        assert(s.skip((w1.len() + w2.len() + w3.len()) as int) =~= w4 + (w5 + (w6 + rest)));
        <u32 as CoLaDataType>::lemma_wire_parse(v.start_angle, w5 + (w6 + rest));
        assert(s.skip((w1.len() + w2.len() + w3.len() + w4.len()) as int) =~= w5 + (w6 + rest));
        <u16 as CoLaDataType>::lemma_wire_parse(v.angular_step, w6 + rest);
        assert(s.skip((w1.len() + w2.len() + w3.len() + w4.len() + w5.len()) as int) =~= w6 + rest);
        <Vec<T> as CoLaDataType>::lemma_wire_parse(v.data, rest);
    }

    fn write_to_data(&self, data: &mut Vec<u8>) {
        let ghost base = data@;
        self.kind.write_to_data(data);
        self.scale.write_to_data(data);
        self.scale_offset.write_to_data(data);
        self.start_angle.write_to_data(data);
        self.angular_step.write_to_data(data);
        self.data.write_to_data(data);
        assert(final(data)@ =~= base + Self::wire_of(self.deep_view()));
    }

    fn get_from_data(src: &Vec<u8>, pos: &mut usize) -> (r: Result<Self, DecodeError>) {
        let ghost p0 = *pos;
        let kind = match CoLaDataChannelType::get_from_data(src, pos) {
            Ok(v) => v,
            Err(e) => {
                return Err(e);
            },
        };
        let ghost p1 = *pos;
        proof {
            assert(src@.skip(p0 as int).skip((p1 - p0) as int) =~= src@.skip(p1 as int));
        }
        let scale = match F32Bits::get_from_data(src, pos) {
            Ok(v) => v,
            Err(e) => {
                return Err(e);
            },
        };
        let ghost p2 = *pos;
        proof {
            assert(src@.skip(p0 as int).skip((p2 - p0) as int) =~= src@.skip(p2 as int));
        }
        let scale_offset = match F32Bits::get_from_data(src, pos) {
            Ok(v) => v,
            Err(e) => {
                return Err(e);
            },
        };
        let ghost p3 = *pos;
        proof {
            assert(src@.skip(p0 as int).skip((p3 - p0) as int) =~= src@.skip(p3 as int));
        }
        let start_angle = match u32::get_from_data(src, pos) {
            Ok(v) => v,
            Err(e) => {
                return Err(e);
            },
        };
        let ghost p4 = *pos;
        proof {
            assert(src@.skip(p0 as int).skip((p4 - p0) as int) =~= src@.skip(p4 as int));
        }
        let angular_step = match u16::get_from_data(src, pos) {
            Ok(v) => v,
            Err(e) => {
                return Err(e);
            },
        };
        let ghost p5 = *pos;
        proof {
            assert(src@.skip(p0 as int).skip((p5 - p0) as int) =~= src@.skip(p5 as int));
        }
        let data = match <Vec<T> as CoLaDataType>::get_from_data(src, pos) {
            Ok(v) => v,
            Err(e) => {
                return Err(e);
            },
        };
        Ok(CoLaDataChannel { kind, scale, scale_offset, start_angle, angular_step, data })
    }
}

/// A wall-clock timestamp as a sensor reports it.
#[derive(Clone, Copy, Debug, PartialEq, Eq, Structural)]
pub struct CoLaDataTime {
    pub year: u16,
    pub month: u8,
    pub day: u8,
    pub hour: u8,
    pub minute: u8,
    pub second: u8,
    pub microsecond: u32,
}

impl DeepView for CoLaDataTime {
    type V = CoLaDataTime;

    open spec fn deep_view(&self) -> CoLaDataTime {
        *self
    }
}

impl CoLaDataType for CoLaDataTime {
    open spec fn wf_v(v: CoLaDataTime) -> bool {
        true
    }

    open spec fn wire_of(v: CoLaDataTime) -> Seq<u8> {
        <u16 as CoLaDataType>::wire_of(v.year) + seq![v.month, v.day, v.hour, v.minute, v.second]
            + <u32 as CoLaDataType>::wire_of(v.microsecond)
    }

    open spec fn parse(s: Seq<u8>) -> Result<(CoLaDataTime, int), DecodeError> {
        if s.len() < 2 {
            Err(DecodeError::Exhausted(ValueKind::U16))
        } else if s.len() < 7 {
            Err(DecodeError::Exhausted(ValueKind::U8))
        } else if s.len() < 11 {
            Err(DecodeError::Exhausted(ValueKind::U32))
        } else {
            Ok(
                (
                    CoLaDataTime {
                        year: crate::cola_a::be16(s[0], s[1]),
                        month: s[2],
                        day: s[3],
                        hour: s[4],
                        minute: s[5],
                        second: s[6],
                        microsecond: be32(s[7], s[8], s[9], s[10]),
                    },
                    11,
                ),
            )
        }
    }

    open spec fn prefix_secure() -> bool {
        true
    }

    proof fn lemma_parse_len(s: Seq<u8>) {
    }

    proof fn lemma_wire_parse(v: CoLaDataTime, rest: Seq<u8>) {
        let w = Self::wire_of(v);
        let s = w + rest;
        assert(crate::cola_a::be16(s[0], s[1]) == v.year);
        assert(be32(s[7], s[8], s[9], s[10]) == v.microsecond);
    }

    fn write_to_data(&self, data: &mut Vec<u8>) {
        let ghost base = data@;
        self.year.write_to_data(data);
        data.push(self.month);
        data.push(self.day);
        data.push(self.hour);
        data.push(self.minute);
        data.push(self.second);
        self.microsecond.write_to_data(data);
        assert(final(data)@ =~= base + Self::wire_of(*self));
    }

    fn get_from_data(src: &Vec<u8>, pos: &mut usize) -> (r: Result<Self, DecodeError>) {
        let ghost rem = src@.skip(*old(pos) as int);
        if src.len() - *pos < 2 {
            return Err(DecodeError::Exhausted(ValueKind::U16));
        }
        if src.len() - *pos < 7 {
            return Err(DecodeError::Exhausted(ValueKind::U8));
        }
        if src.len() - *pos < 11 {
            return Err(DecodeError::Exhausted(ValueKind::U32));
        }
        let p = *pos;
        let year: u16 = (src[p] as u16) * 0x100 + (src[p + 1] as u16);
        let microsecond: u32 = (src[p + 7] as u32) * 0x1000000 + (src[p + 8] as u32) * 0x10000 + (
        src[p + 9] as u32) * 0x100 + (src[p + 10] as u32);
        let out = CoLaDataTime {
            year,
            month: src[p + 2],
            day: src[p + 3],
            hour: src[p + 4],
            minute: src[p + 5],
            second: src[p + 6],
            microsecond,
        };
        *pos = p + 11;
        Ok(out)
    }
}

/// One sensor event record: its kind, the encoder position, the time and the
/// angle at which it fired.
#[derive(Clone, Copy, Debug, PartialEq, Eq, Structural)]
pub struct CoLaDataEvent {
    pub _kind: u32,
    pub encoder_pos: u32,
    pub time: u32,
    pub angle: u32,
}

impl DeepView for CoLaDataEvent {
    type V = CoLaDataEvent;

    open spec fn deep_view(&self) -> CoLaDataEvent {
        *self
    }
}

impl CoLaDataType for CoLaDataEvent {
    open spec fn wf_v(v: CoLaDataEvent) -> bool {
        true
    }

    open spec fn wire_of(v: CoLaDataEvent) -> Seq<u8> {
        <u32 as CoLaDataType>::wire_of(v._kind) + <u32 as CoLaDataType>::wire_of(v.encoder_pos)
            + <u32 as CoLaDataType>::wire_of(v.time) + <u32 as CoLaDataType>::wire_of(v.angle)
    }

    open spec fn parse(s: Seq<u8>) -> Result<(CoLaDataEvent, int), DecodeError> {
        if s.len() < 16 {
            Err(DecodeError::Exhausted(ValueKind::U32))
        } else {
            Ok(
                (
                    CoLaDataEvent {
                        _kind: be32(s[0], s[1], s[2], s[3]),
                        encoder_pos: be32(s[4], s[5], s[6], s[7]),
                        time: be32(s[8], s[9], s[10], s[11]),
                        angle: be32(s[12], s[13], s[14], s[15]),
                    },
                    16,
                ),
            )
        }
    }

    open spec fn prefix_secure() -> bool {
        true
    }

    proof fn lemma_parse_len(s: Seq<u8>) {
    }

    proof fn lemma_wire_parse(v: CoLaDataEvent, rest: Seq<u8>) {
        let w = Self::wire_of(v);
        let s = w + rest;
        crate::cola_a::lemma_be32_round(v._kind);
        crate::cola_a::lemma_be32_round(v.encoder_pos);
        crate::cola_a::lemma_be32_round(v.time);
        crate::cola_a::lemma_be32_round(v.angle);
        assert(s.subrange(0, 4) =~= be32_bytes(v._kind));
        assert(s.subrange(4, 8) =~= be32_bytes(v.encoder_pos));
        assert(s.subrange(8, 12) =~= be32_bytes(v.time));
        assert(s.subrange(12, 16) =~= be32_bytes(v.angle));
        assert(be32(s[0], s[1], s[2], s[3]) == v._kind);
        assert(be32(s[4], s[5], s[6], s[7]) == v.encoder_pos);
        assert(be32(s[8], s[9], s[10], s[11]) == v.time);
        assert(be32(s[12], s[13], s[14], s[15]) == v.angle);
    }

    fn write_to_data(&self, data: &mut Vec<u8>) {
        let ghost base = data@;
        self._kind.write_to_data(data);
        self.encoder_pos.write_to_data(data);
        self.time.write_to_data(data);
        self.angle.write_to_data(data);
        assert(final(data)@ =~= base + Self::wire_of(*self));
    }

    fn get_from_data(src: &Vec<u8>, pos: &mut usize) -> (r: Result<Self, DecodeError>) {
        if src.len() - *pos < 16 {
            return Err(DecodeError::Exhausted(ValueKind::U32));
        }
        let p = *pos;
        let a: u32 = (src[p] as u32) * 0x1000000 + (src[p + 1] as u32) * 0x10000 + (src[p
            + 2] as u32) * 0x100 + (src[p + 3] as u32);
        let b: u32 = (src[p + 4] as u32) * 0x1000000 + (src[p + 5] as u32) * 0x10000 + (src[p
            + 6] as u32) * 0x100 + (src[p + 7] as u32);
        let c: u32 = (src[p + 8] as u32) * 0x1000000 + (src[p + 9] as u32) * 0x10000 + (src[p
            + 10] as u32) * 0x100 + (src[p + 11] as u32);
        let d: u32 = (src[p + 12] as u32) * 0x1000000 + (src[p + 13] as u32) * 0x10000 + (src[p
            + 14] as u32) * 0x100 + (src[p + 15] as u32);
        *pos = p + 16;
        Ok(CoLaDataEvent { _kind: a, encoder_pos: b, time: c, angle: d })
    }
}

/// The outcome a sensor reports for a scan-configuration request.
#[derive(Clone, Copy, Debug, PartialEq, Eq, Structural)]
pub enum LmpScanCfgError {
    NoError,
    FrequencyError,
    ResolutionError,
    ResolutionAndScanOrFreq,
    ScanAreaError,
    OtherError,
}

/// Which colored layer an alignment-mode command addresses.
#[derive(Clone, Copy, Debug, PartialEq, Eq, Structural)]
pub enum AlignmentModeLayer {
    Red,
    Blue,
    Green,
    Yellow,
}

/// The two-valued status a measurement start or stop command reports.
#[derive(Clone, Copy, Debug, PartialEq, Eq, Structural)]
pub enum LMCError {
    Error,
    Accepted,
}

/// Which application a sensor runs.
#[derive(Clone, Copy, Debug, PartialEq, Eq, Structural)]
pub enum ActiveApplication {
    FieldApplication,
    Ranging,
}

} // verus!
