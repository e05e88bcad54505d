//! The compact telegram decoder.
//!
//! A compact telegram is a little-endian binary message: a fixed magic, a
//! message-type selector, then either one IMU sample or a header followed by
//! a chain of measurement modules, and a trailing checksum word that the
//! format carries but does not validate. Every decoder here walks a cursor
//! over a byte buffer and is pinned to a spec-level parse function; the
//! module chain and the grid reordering are stated exactly.

use vstd::prelude::*;

use crate::storage::{
    echo_items, echoes_new, echoes_push, grid_as_rows, grid_filled, grid_set, grid_view,
    layer_items, layers_new, layers_push, module_items, modules_new, modules_push, EchoVec,
    LayerVec, ModuleVec,
};
use crate::{DecodeError, ValueKind};

verus! {

// --- little-endian views of byte runs ---

/// The unsigned value of two little-endian bytes.
pub open spec fn le16(b0: u8, b1: u8) -> u16 {
    (b0 + b1 * 0x100) as u16
}

/// The unsigned value of four little-endian bytes.
pub open spec fn le32(b0: u8, b1: u8, b2: u8, b3: u8) -> u32 {
    (b0 + b1 * 0x100 + b2 * 0x10000 + b3 * 0x1000000) as u32
}

/// The unsigned value of eight little-endian bytes.
pub open spec fn le64(b0: u8, b1: u8, b2: u8, b3: u8, b4: u8, b5: u8, b6: u8, b7: u8) -> u64 {
    (b0 + b1 * 0x100 + b2 * 0x10000 + b3 * 0x1000000 + b4 * 0x100000000 + b5 * 0x10000000000 + b6
        * 0x1000000000000 + b7 * 0x100000000000000) as u64
}

/// The 16-bit little-endian value at offset `i`.
pub open spec fn le16_at(s: Seq<u8>, i: int) -> u16 {
    le16(s[i], s[i + 1])
}

/// The 32-bit little-endian value at offset `i`.
pub open spec fn le32_at(s: Seq<u8>, i: int) -> u32 {
    le32(s[i], s[i + 1], s[i + 2], s[i + 3])
}

/// The 64-bit little-endian value at offset `i`.
pub open spec fn le64_at(s: Seq<u8>, i: int) -> u64 {
    le64(s[i], s[i + 1], s[i + 2], s[i + 3], s[i + 4], s[i + 5], s[i + 6], s[i + 7])
}

// --- cursor reads ---

fn read_u8_le(src: &Vec<u8>, pos: &mut usize, kind: ValueKind) -> (r: Result<
    u8,
    DecodeError,
>)
    requires
        *old(pos) <= src@.len(),
    ensures
        match r {
            Ok(v) => *final(pos) == *old(pos) + 1 && *final(pos) <= src@.len() && v == src@[*old(
                pos,
            ) as int],
            Err(e) => *final(pos) == *old(pos) && src@.len() < *old(pos) + 1 && e
                == DecodeError::Exhausted(kind),
        },
{
    if src.len() - *pos >= 1 {
        let b = src[*pos];
        *pos = *pos + 1;
        Ok(b)
    } else {
        Err(DecodeError::Exhausted(kind))
    }
}

fn read_u16_le(src: &Vec<u8>, pos: &mut usize, kind: ValueKind) -> (r: Result<
    u16,
    DecodeError,
>)
    requires
        *old(pos) <= src@.len(),
    ensures
        match r {
            Ok(v) => *final(pos) == *old(pos) + 2 && *final(pos) <= src@.len() && v == le16_at(
                src@,
                *old(pos) as int,
            ),
            Err(e) => *final(pos) == *old(pos) && src@.len() < *old(pos) + 2 && e
                == DecodeError::Exhausted(kind),
        },
{
    if src.len() - *pos >= 2 {
        let b0 = src[*pos];
        let b1 = src[*pos + 1];
        *pos = *pos + 2;
        Ok((b0 as u16) + (b1 as u16) * 0x100)
    } else {
        Err(DecodeError::Exhausted(kind))
    }
}

fn read_u32_le(src: &Vec<u8>, pos: &mut usize, kind: ValueKind) -> (r: Result<
    u32,
    DecodeError,
>)
    requires
        *old(pos) <= src@.len(),
    ensures
        match r {
            Ok(v) => *final(pos) == *old(pos) + 4 && *final(pos) <= src@.len() && v == le32_at(
                src@,
                *old(pos) as int,
            ),
            Err(e) => *final(pos) == *old(pos) && src@.len() < *old(pos) + 4 && e
                == DecodeError::Exhausted(kind),
        },
{
    if src.len() - *pos >= 4 {
        let b0 = src[*pos];
        let b1 = src[*pos + 1];
        let b2 = src[*pos + 2];
        let b3 = src[*pos + 3];
        *pos = *pos + 4;
        Ok((b0 as u32) + (b1 as u32) * 0x100 + (b2 as u32) * 0x10000 + (b3 as u32) * 0x1000000)
    } else {
        Err(DecodeError::Exhausted(kind))
    }
}

fn read_u64_le(src: &Vec<u8>, pos: &mut usize, kind: ValueKind) -> (r: Result<
    u64,
    DecodeError,
>)
    requires
        *old(pos) <= src@.len(),
    ensures
        match r {
            Ok(v) => *final(pos) == *old(pos) + 8 && *final(pos) <= src@.len() && v == le64_at(
                src@,
                *old(pos) as int,
            ),
            Err(e) => *final(pos) == *old(pos) && src@.len() < *old(pos) + 8 && e
                == DecodeError::Exhausted(kind),
        },
{
    if src.len() - *pos >= 8 {
        let b0 = src[*pos];
        let b1 = src[*pos + 1];
        let b2 = src[*pos + 2];
        let b3 = src[*pos + 3];
        let b4 = src[*pos + 4];
        let b5 = src[*pos + 5];
        let b6 = src[*pos + 6];
        let b7 = src[*pos + 7];
        *pos = *pos + 8;
        Ok(
            (b0 as u64) + (b1 as u64) * 0x100 + (b2 as u64) * 0x10000 + (b3 as u64) * 0x1000000 + (
            b4 as u64) * 0x100000000 + (b5 as u64) * 0x10000000000 + (b6 as u64) * 0x1000000000000
                + (b7 as u64) * 0x100000000000000,
        )
    } else {
        Err(DecodeError::Exhausted(kind))
    }
}

// --- the data model ---

/// Anything that chains to a following module by announcing its byte length;
/// zero means the chain ends here.
pub trait CompactModule {
    /// The announced length of the following module.
    spec fn spec_next_module_size(&self) -> u32;

    /// The announced length of the following module.
    fn next_module_size(&self) -> (r: u32)
        ensures
            r == self.spec_next_module_size(),
    ;
}

/// The header of a distance telegram.
#[derive(Clone, Copy, Debug, PartialEq, Eq, Structural)]
pub struct CompactHeader {
    pub telegram_counter: u64,
    pub timestamp: u64,
    pub telegram_version: u32,
    pub next_module_size: u32,
}

/// Parses a distance-telegram header: two 64-bit counters, the telegram
/// version, and the byte length of the first module.
pub open spec fn parse_header(s: Seq<u8>) -> Result<(CompactHeader, int), DecodeError> {
    if s.len() < 16 {
        Err(DecodeError::Exhausted(ValueKind::U64))
    } else if s.len() < 24 {
        Err(DecodeError::Exhausted(ValueKind::U32))
    } else {
        Ok(
            (
                CompactHeader {
                    telegram_counter: le64_at(s, 0),
                    timestamp: le64_at(s, 8),
                    telegram_version: le32_at(s, 16),
                    next_module_size: le32_at(s, 20),
                },
                24,
            ),
        )
    }
}

impl CompactHeader {
    /// Reads one header from `src` starting at `*pos`. The outcome is
    /// exactly what [`parse_header`] says of the remaining input.
    pub fn from_stream(src: &Vec<u8>, pos: &mut usize) -> (r: Result<CompactHeader, DecodeError>)
        requires
            *old(pos) <= src@.len(),
        ensures
            *old(pos) <= *final(pos) <= src@.len(),
            match r {
                Ok(v) => parse_header(src@.skip(*old(pos) as int)) == Ok::<_, DecodeError>((
                    v,
                    *final(pos) - *old(pos),
                )),
                Err(e) => parse_header(src@.skip(*old(pos) as int)) == Err::<
                    (CompactHeader, int),
                    _,
                >(e),
            },
    {
        let telegram_counter = read_u64_le(src, pos, ValueKind::U64)?;
        let timestamp = read_u64_le(src, pos, ValueKind::U64)?;
        let telegram_version = read_u32_le(src, pos, ValueKind::U32)?;
        let next_module_size = read_u32_le(src, pos, ValueKind::U32)?;
        Ok(CompactHeader { telegram_counter, timestamp, telegram_version, next_module_size })
    }
}

impl CompactModule for CompactHeader {
    open spec fn spec_next_module_size(&self) -> u32 {
        self.next_module_size
    }

    fn next_module_size(&self) -> u32 {
        self.next_module_size
    }
}

/// One inertial sample. The acceleration, angular-velocity and orientation
/// components hold raw IEEE-754 bit patterns.
#[derive(Clone, Copy, Debug, PartialEq, Eq)]
pub struct IMUData {
    pub telegram_version: u32,
    pub acceleration: (u32, u32, u32),
    pub angular_velocity: (u32, u32, u32),
    pub orientation: (u32, u32, u32, u32),
    pub time_stamp: u64,
}

/// Parses one inertial sample: the telegram version, three acceleration and
/// three angular-velocity components, a four-component orientation, and a
/// timestamp.
pub open spec fn parse_imu(s: Seq<u8>) -> Result<(IMUData, int), DecodeError> {
    if s.len() < 4 {
        Err(DecodeError::Exhausted(ValueKind::U32))
    } else if s.len() < 44 {
        Err(DecodeError::Exhausted(ValueKind::F32))
    } else if s.len() < 52 {
        Err(DecodeError::Exhausted(ValueKind::U64))
    } else {
        Ok(
            (
                IMUData {
                    telegram_version: le32_at(s, 0),
                    acceleration: (le32_at(s, 4), le32_at(s, 8), le32_at(s, 12)),
                    angular_velocity: (le32_at(s, 16), le32_at(s, 20), le32_at(s, 24)),
                    orientation: (
                        le32_at(s, 28),
                        le32_at(s, 32),
                        le32_at(s, 36),
                        le32_at(s, 40),
                    ),
                    time_stamp: le64_at(s, 44),
                },
                52,
            ),
        )
    }
}

impl IMUData {
    /// Reads one inertial sample from `src` starting at `*pos`. The outcome
    /// is exactly what [`parse_imu`] says of the remaining input.
    pub fn from_stream(src: &Vec<u8>, pos: &mut usize) -> (r: Result<IMUData, DecodeError>)
        requires
            *old(pos) <= src@.len(),
        ensures
            *old(pos) <= *final(pos) <= src@.len(),
            match r {
                Ok(v) => parse_imu(src@.skip(*old(pos) as int)) == Ok::<_, DecodeError>((
                    v,
                    *final(pos) - *old(pos),
                )),
                Err(e) => parse_imu(src@.skip(*old(pos) as int)) == Err::<(IMUData, int), _>(e),
            },
    {
        let telegram_version = read_u32_le(src, pos, ValueKind::U32)?;
        let a0 = read_u32_le(src, pos, ValueKind::F32)?;
        let a1 = read_u32_le(src, pos, ValueKind::F32)?;
        let a2 = read_u32_le(src, pos, ValueKind::F32)?;
        let w0 = read_u32_le(src, pos, ValueKind::F32)?;
        let w1 = read_u32_le(src, pos, ValueKind::F32)?;
        let w2 = read_u32_le(src, pos, ValueKind::F32)?;
        let q0 = read_u32_le(src, pos, ValueKind::F32)?;
        let q1 = read_u32_le(src, pos, ValueKind::F32)?;
        let q2 = read_u32_le(src, pos, ValueKind::F32)?;
        let q3 = read_u32_le(src, pos, ValueKind::F32)?;
        let time_stamp = read_u64_le(src, pos, ValueKind::U64)?;
        Ok(
            IMUData {
                telegram_version,
                acceleration: (a0, a1, a2),
                angular_velocity: (w0, w1, w2),
                orientation: (q0, q1, q2, q3),
                time_stamp,
            },
        )
    }
}

/// One echo of one beam: the distance and signal strength readings that the
/// content bitmask kept, if it kept them.
#[derive(Clone, Copy, Debug, PartialEq, Eq, Structural)]
pub struct Echo {
    pub distance: Option<u16>,
    pub rssi: Option<u16>,
}

/// One beam's worth of scan data: its echoes and the optional per-beam
/// fields that the content bitmask kept.
#[derive(Clone)]
pub enum Measurement {
    Empty,
    Filled { echoes: EchoVec, beam_properties: Option<u8>, azimuth_angle: Option<u16> },
}

/// The abstract value of a [`Measurement`].
#[verifier::ext_equal]
pub enum MeasurementV {
    Empty,
    Filled { echoes: Seq<Echo>, beam_properties: Option<u8>, azimuth_angle: Option<u16> },
}

impl View for Measurement {
    type V = MeasurementV;

    open spec fn view(&self) -> MeasurementV {
        match *self {
            Measurement::Empty => MeasurementV::Empty,
            Measurement::Filled { echoes, beam_properties, azimuth_angle } => MeasurementV::Filled {
                echoes: echo_items(echoes),
                beam_properties,
                azimuth_angle,
            },
        }
    }
}

/// The abstract values of a run of measurements.
pub open spec fn views_of(ms: Seq<Measurement>) -> Seq<MeasurementV> {
    ms.map_values(|m: Measurement| m@)
}

/// Parses one measurement: per echo a distance and a signal strength, then
/// one beam-properties byte and one azimuth angle. Every field is consumed
/// from the wire; the two content bitmasks decide only which are kept. Bit 0
/// of the echo mask keeps distances and bit 1 keeps signal strengths; bit 0
/// of the beam mask keeps the properties byte and bit 1 the azimuth.
pub open spec fn parse_measurement(s: Seq<u8>, echoes: nat, dcb: u8, dce: u8) -> Result<
    (MeasurementV, int),
    DecodeError,
> {
    let esz = 4 * echoes as int;
    if s.len() < esz {
        Err(DecodeError::Exhausted(ValueKind::U16))
    } else if s.len() < esz + 1 {
        Err(DecodeError::Exhausted(ValueKind::U8))
    } else if s.len() < esz + 3 {
        Err(DecodeError::Exhausted(ValueKind::U16))
    } else {
        Ok(
            (
                MeasurementV::Filled {
                    echoes: Seq::new(
                        echoes,
                        |k: int|
                            Echo {
                                distance: if dce & 0x1 == 0 {
                                    None
                                } else {
                                    Some(le16_at(s, 4 * k))
                                },
                                rssi: if dce & 0x2 == 0 {
                                    None
                                } else {
                                    Some(le16_at(s, 4 * k + 2))
                                },
                            },
                    ),
                    beam_properties: if dcb & 0x1 == 0 {
                        None
                    } else {
                        Some(s[esz])
                    },
                    azimuth_angle: if dcb & 0x2 == 0 {
                        None
                    } else {
                        Some(le16_at(s, esz + 1))
                    },
                },
                esz + 3,
            ),
        )
    }
}

impl Measurement {
    /// Reads one measurement from `src` starting at `*pos`: every echo's
    /// distance and signal strength, the beam-properties byte and the
    /// azimuth angle are always consumed, and each is kept only when its
    /// bitmask bit is set. The outcome is exactly what [`parse_measurement`]
    /// says of the remaining input.
    pub fn from_stream(
        src: &Vec<u8>,
        pos: &mut usize,
        number_of_echoes_per_beam: u32,
        data_content_beams: u8,
        data_content_echoes: u8,
    ) -> (r: Result<Measurement, DecodeError>)
        requires
            *old(pos) <= src@.len(),
        ensures
            *old(pos) <= *final(pos) <= src@.len(),
            match r {
                Ok(m) => parse_measurement(
                    src@.skip(*old(pos) as int),
                    number_of_echoes_per_beam as nat,
                    data_content_beams,
                    data_content_echoes,
                ) == Ok::<_, DecodeError>((m@, *final(pos) - *old(pos))),
                Err(e) => parse_measurement(
                    src@.skip(*old(pos) as int),
                    number_of_echoes_per_beam as nat,
                    data_content_beams,
                    data_content_echoes,
                ) == Err::<(MeasurementV, int), _>(e),
            },
    {
        let ghost p0 = *pos;
        let ghost s = src@.skip(p0 as int);
        let ghost espec = Seq::new(
            number_of_echoes_per_beam as nat,
            |k: int|
                Echo {
                    distance: if data_content_echoes & 0x1 == 0 {
                        None
                    } else {
                        Some(le16_at(s, 4 * k))
                    },
                    rssi: if data_content_echoes & 0x2 == 0 {
                        None
                    } else {
                        Some(le16_at(s, 4 * k + 2))
                    },
                },
        );
        let mut echoes = echoes_new();
        let mut i: u32 = 0;
        while i < number_of_echoes_per_beam
            invariant
                p0 == *old(pos),
                i <= number_of_echoes_per_beam,
                p0 + 4 * i as int == *pos,
                *pos <= src@.len(),
                s == src@.skip(p0 as int),
                espec == Seq::new(
                    number_of_echoes_per_beam as nat,
                    |k: int|
                        Echo {
                            distance: if data_content_echoes & 0x1 == 0 {
                                None
                            } else {
                                Some(le16_at(s, 4 * k))
                            },
                            rssi: if data_content_echoes & 0x2 == 0 {
                                None
                            } else {
                                Some(le16_at(s, 4 * k + 2))
                            },
                        },
                ),
                espec.len() == number_of_echoes_per_beam as nat,
                echo_items(echoes) =~= espec.take(i as int),
            decreases number_of_echoes_per_beam - i,
        {
            let mut distance = match read_u16_le(src, pos, ValueKind::U16) {
                Ok(v) => Some(v),
                Err(e) => {
                    proof {
                        assert(s.len() < 4 * (number_of_echoes_per_beam as int));
                    }
                    return Err(e);
                },
            };
            let mut rssi = match read_u16_le(src, pos, ValueKind::U16) {
                Ok(v) => Some(v),
                Err(e) => {
                    proof {
                        assert(s.len() < 4 * (number_of_echoes_per_beam as int));
                    }
                    return Err(e);
                },
            };
            if data_content_echoes & 0b1 == 0 {
                distance = None;
            }
            if data_content_echoes & 0b10 == 0 {
                rssi = None;
            }
            echoes_push(&mut echoes, Echo { distance, rssi });
            i = i + 1;
            proof {
                assert(le16_at(s, 4 * (i - 1)) == le16_at(src@, p0 + 4 * (i - 1)));
                assert(le16_at(s, 4 * (i - 1) + 2) == le16_at(src@, p0 + 4 * (i - 1) + 2));
                assert(espec[i - 1] == Echo {
                    distance: if data_content_echoes & 0x1 == 0 {
                        None
                    } else {
                        Some(le16_at(s, 4 * (i - 1)))
                    },
                    rssi: if data_content_echoes & 0x2 == 0 {
                        None
                    } else {
                        Some(le16_at(s, 4 * (i - 1) + 2))
                    },
                });
                assert(echo_items(echoes) =~= espec.take(i as int));
            }
        }
        proof {
            assert(espec.take(number_of_echoes_per_beam as int) =~= espec);
        }
        let mut beam_properties = match read_u8_le(src, pos, ValueKind::U8) {
            Ok(v) => Some(v),
            Err(e) => {
                return Err(e);
            },
        };
        if data_content_beams & 0b1 == 0 {
            beam_properties = None;
        }
        let mut azimuth_angle = match read_u16_le(src, pos, ValueKind::U16) {
            Ok(v) => Some(v),
            Err(e) => {
                return Err(e);
            },
        };
        if data_content_beams & 0b10 == 0 {
            azimuth_angle = None;
        }
        Ok(Measurement::Filled { echoes, beam_properties, azimuth_angle })
    }
}


/// One decoded layer: its timing and angle metadata (angles as raw IEEE-754
/// bit patterns) and one measurement per beam.
#[derive(Clone)]
pub struct MeasurementLayerOutput {
    pub phi: u32,
    pub theta_start: u32,
    pub theta_end: u32,
    pub time_stamp_start: u64,
    pub time_stamp_end: u64,
    pub data: Vec<Measurement>,
}

/// The abstract value of a [`MeasurementLayerOutput`].
#[verifier::ext_equal]
pub struct MeasurementLayerOutputV {
    pub phi: u32,
    pub theta_start: u32,
    pub theta_end: u32,
    pub time_stamp_start: u64,
    pub time_stamp_end: u64,
    pub data: Seq<MeasurementV>,
}

impl View for MeasurementLayerOutput {
    type V = MeasurementLayerOutputV;

    open spec fn view(&self) -> MeasurementLayerOutputV {
        MeasurementLayerOutputV {
            phi: self.phi,
            theta_start: self.theta_start,
            theta_end: self.theta_end,
            time_stamp_start: self.time_stamp_start,
            time_stamp_end: self.time_stamp_end,
            data: views_of(self.data@),
        }
    }
}

/// The abstract values of a run of layers.
pub open spec fn layer_views(ls: Seq<MeasurementLayerOutput>) -> Seq<MeasurementLayerOutputV> {
    ls.map_values(|l: MeasurementLayerOutput| l@)
}

/// How a module's grid and per-line metadata become its layers. The wire
/// carries the grid beam-major: the measurement of beam `i` on line `j`
/// stands at grid index `i * lines + j`. The layers come out in reversed
/// line order: layer `t` is line `lines - 1 - t`, paired with that same
/// line's metadata, so the first layer produced carries the last-loaded
/// metadata entries.
pub open spec fn layers_of(
    grid: Seq<MeasurementV>,
    tss: Seq<u64>,
    tse: Seq<u64>,
    phi: Seq<u32>,
    ths: Seq<u32>,
    the: Seq<u32>,
    lines: nat,
    beams: nat,
) -> Seq<MeasurementLayerOutputV> {
    Seq::new(
        lines,
        |t: int|
            MeasurementLayerOutputV {
                phi: phi[lines - 1 - t],
                theta_start: ths[lines - 1 - t],
                theta_end: the[lines - 1 - t],
                time_stamp_start: tss[lines - 1 - t],
                time_stamp_end: tse[lines - 1 - t],
                data: Seq::new(beams, |i: int| grid[i * lines + (lines - 1 - t)]),
            },
    )
}

/// Parses `count` consecutive measurements in wire order.
pub open spec fn parse_grid(s: Seq<u8>, count: nat, echoes: nat, dcb: u8, dce: u8) -> Result<
    (Seq<MeasurementV>, int),
    DecodeError,
>
    decreases count,
{
    if count == 0 {
        Ok((Seq::empty(), 0))
    } else {
        match parse_measurement(s, echoes, dcb, dce) {
            Err(e) => Err(e),
            Ok((m, k)) => match parse_grid(s.skip(k), (count - 1) as nat, echoes, dcb, dce) {
                Err(e) => Err(e),
                Ok((ms, c)) => Ok((seq![m] + ms, k + c)),
            },
        }
    }
}

/// Decodes a module's measurement grid and arranges it into layers. The
/// grid is read beam-major from the wire, reordered line-major through a
/// two-dimensional array, and handed out in reversed line order, each line
/// paired with its own metadata, consumed from the tails of the five
/// metadata columns.
#[verifier::rlimit(100)]
fn decode_data(
    src: &Vec<u8>,
    pos: &mut usize,
    number_lines_in_module: u32,
    number_of_beams_per_scan: u32,
    number_of_echoes_per_beam: u32,
    data_content_echoes: u8,
    data_content_beams: u8,
    layer_info: (Vec<u64>, Vec<u64>, Vec<u32>, Vec<u32>, Vec<u32>),
) -> (r: Result<LayerVec, DecodeError>)
    requires
        *old(pos) <= src@.len(),
        layer_info.0@.len() == number_lines_in_module,
        layer_info.1@.len() == number_lines_in_module,
        layer_info.2@.len() == number_lines_in_module,
        layer_info.3@.len() == number_lines_in_module,
        layer_info.4@.len() == number_lines_in_module,
    ensures
        *old(pos) <= *final(pos) <= src@.len(),
        ({
            let g = parse_grid(
                src@.skip(*old(pos) as int),
                (number_lines_in_module * number_of_beams_per_scan) as nat,
                number_of_echoes_per_beam as nat,
                data_content_beams,
                data_content_echoes,
            );
            match r {
                Ok(lv) => g matches Ok((grid, c)) && *final(pos) == *old(pos) + c && layer_views(
                    layer_items(lv),
                ) == layers_of(
                    grid,
                    layer_info.0@,
                    layer_info.1@,
                    layer_info.2@,
                    layer_info.3@,
                    layer_info.4@,
                    number_lines_in_module as nat,
                    number_of_beams_per_scan as nat,
                ),
                Err(e) => g == Err::<(Seq<MeasurementV>, int), _>(e),
            }
        }),
{
    let ghost p0 = *pos;
    let ghost s = src@.skip(p0 as int);
    let lines = number_lines_in_module;
    let beams = number_of_beams_per_scan;
    proof {
        assert((lines as int) * (beams as int) <= 0xffffffffffffffff) by (nonlinear_arith)
            requires
                lines as int <= 0xffffffff,
                beams as int <= 0xffffffff,
        ;
    }
    let total: u64 = (lines as u64) * (beams as u64);
    let ghost tot = (lines * beams) as nat;
    proof {
        assert(total == tot) by (nonlinear_arith)
            requires
                total == (lines as u64) * (beams as u64),
                tot == (lines * beams) as nat,
        ;
    }
    // read the grid in wire order
    let mut flat: Vec<Measurement> = Vec::new();
    let mut w: u64 = 0;
    while w < total
        invariant
            p0 == *old(pos),
            p0 <= *pos <= src@.len(),
            s == src@.skip(p0 as int),
            total == (number_lines_in_module * number_of_beams_per_scan) as nat,
            w <= total,
            flat@.len() == w,
            match parse_grid(
                src@.skip(*pos as int),
                (total - w) as nat,
                number_of_echoes_per_beam as nat,
                data_content_beams,
                data_content_echoes,
            ) {
                Ok((ms, c)) => parse_grid(
                    s,
                    total as nat,
                    number_of_echoes_per_beam as nat,
                    data_content_beams,
                    data_content_echoes,
                ) == Ok::<_, DecodeError>((views_of(flat@) + ms, (*pos - p0) + c)),
                Err(e) => parse_grid(
                    s,
                    total as nat,
                    number_of_echoes_per_beam as nat,
                    data_content_beams,
                    data_content_echoes,
                ) == Err::<(Seq<MeasurementV>, int), _>(e),
            },
        decreases total - w,
    {
        let ghost pre = *pos;
        let ghost flat_pre = flat@;
        match Measurement::from_stream(
            src,
            pos,
            number_of_echoes_per_beam,
            data_content_beams,
            data_content_echoes,
        ) {
            Ok(m) => {
                proof {
                    assert(src@.skip(pre as int).skip((*pos - pre) as int) =~= src@.skip(
                        *pos as int,
                    ));
                }
                flat.push(m);
                w = w + 1;
                proof {
                    assert(views_of(flat@) =~= views_of(flat_pre).push(m@));
                    match parse_grid(
                        src@.skip(*pos as int),
                        (total - w) as nat,
                        number_of_echoes_per_beam as nat,
                        data_content_beams,
                        data_content_echoes,
                    ) {
                        Ok((ms, c)) => {
                            assert(views_of(flat_pre) + (seq![m@] + ms) =~= views_of(flat@) + ms);
                        },
                        Err(_) => {},
                    }
                }
            },
            Err(e) => {
                proof {
                    assert(parse_grid(
                        src@.skip(pre as int),
                        (total - w) as nat,
                        number_of_echoes_per_beam as nat,
                        data_content_beams,
                        data_content_echoes,
                    ) == Err::<(Seq<MeasurementV>, int), _>(e));
                }
                return Err(e);
            },
        }
    }
    let ghost g = views_of(flat@);
    proof {
        assert(parse_grid(
            src@.skip(*pos as int),
            0,
            number_of_echoes_per_beam as nat,
            data_content_beams,
            data_content_echoes,
        ) == Ok::<_, DecodeError>((Seq::<MeasurementV>::empty(), 0int)));
        assert(views_of(flat@) + Seq::<MeasurementV>::empty() =~= g);
    }
    let ghost flat0 = flat@;
    let ghost consumed = *pos - p0;
    // reorder line-major through the grid array
    let lines_us = lines as usize;
    let beams_us = beams as usize;
    proof {
        assert(flat0.len() == lines_us * beams_us) by (nonlinear_arith)
            requires
                flat0.len() == total,
                total == (lines as u64) * (beams as u64),
                lines_us == lines,
                beams_us == beams,
        ;
    }
    let flat_count = flat.len();
    proof {
        assert(lines_us * beams_us <= usize::MAX);
    }
    let mut array = grid_filled(Measurement::Empty, lines_us, beams_us);
    let mut i: usize = 0;
    let ghost mut k: int = 0;
    while i < beams_us
        invariant
            0 <= i <= beams_us,
            k == i * (lines_us as int),
            flat@ =~= flat0.skip(k),
            g == views_of(flat0),
            g.len() == flat0.len(),
            flat0.len() == lines_us * beams_us,
            grid_view(array).len() == lines_us,
            forall|q: int| 0 <= q < lines_us ==> (#[trigger] grid_view(array)[q]).len() == beams_us,
            forall|q: int, p: int|
                0 <= q < lines_us && 0 <= p < i ==> (#[trigger] grid_view(array)[q][p])@ == g[p * (
                lines_us as int) + q],
        decreases beams_us - i,
    {
        let mut j: usize = 0;
        while j < lines_us
            invariant
                0 <= i < beams_us,
                0 <= j <= lines_us,
                k == i * (lines_us as int) + j,
                flat@ =~= flat0.skip(k),
                g == views_of(flat0),
                g.len() == flat0.len(),
                flat0.len() == lines_us * beams_us,
                grid_view(array).len() == lines_us,
                forall|q: int| 0 <= q < lines_us ==> (#[trigger] grid_view(array)[q]).len()
                    == beams_us,
                forall|q: int, p: int|
                    0 <= q < lines_us && 0 <= p < i ==> (#[trigger] grid_view(array)[q][p])@ == g[p
                        * (lines_us as int) + q],
                forall|q: int|
                    0 <= q < j ==> (#[trigger] grid_view(array)[q][i as int])@ == g[i * (
                    lines_us as int) + q],
            decreases lines_us - j,
        {
            proof {
                assert(k < flat0.len()) by (nonlinear_arith)
                    requires
                        k == i * (lines_us as int) + j,
                        0 <= i < beams_us,
                        0 <= j < lines_us,
                        flat0.len() == lines_us * beams_us,
                ;
                assert(flat@.len() == flat0.len() - k);
            }
            let m = flat.remove(0);
            proof {
                assert(flat0.skip(k)[0] == flat0[k]);
                assert(flat0.skip(k).remove(0) =~= flat0.skip(k + 1));
                assert(m@ == g[k]);
            }
            grid_set(&mut array, j, i, m);
            j = j + 1;
            proof {
                k = k + 1;
            }
        }
        i = i + 1;
        proof {
            assert(k == i * (lines_us as int)) by (nonlinear_arith)
                requires
                    k == (i - 1) * (lines_us as int) + lines_us,
            ;
        }
    }
    // hand the lines out in reversed order, pairing each with its own
    // metadata, consumed from the tails of the metadata columns
    let mut rows = grid_as_rows(&array);
    let (mut tss, mut tse, mut phiv, mut thsv, mut thev) = layer_info;
    let ghost tss0 = tss@;
    let ghost tse0 = tse@;
    let ghost phi0 = phiv@;
    let ghost ths0 = thsv@;
    let ghost the0 = thev@;
    let ghost expected = layers_of(
        g,
        tss0,
        tse0,
        phi0,
        ths0,
        the0,
        lines as nat,
        beams as nat,
    );
    let mut out = layers_new();
    let mut t: usize = 0;
    while t < lines_us
        invariant
            0 <= t <= lines_us,
            lines_us == lines,
            beams_us == beams,
            g.len() == lines_us * beams_us,
            rows@.len() == lines_us - t,
            forall|q: int| 0 <= q < rows@.len() ==> (#[trigger] rows@[q]@).len() == beams_us,
            forall|q: int, p: int|
                0 <= q < rows@.len() && 0 <= p < beams_us ==> (#[trigger] rows@[q]@[p])@ == g[p * (
                lines_us as int) + q],
            tss@ =~= tss0.take(lines_us - t),
            tse@ =~= tse0.take(lines_us - t),
            phiv@ =~= phi0.take(lines_us - t),
            thsv@ =~= ths0.take(lines_us - t),
            thev@ =~= the0.take(lines_us - t),
            tss0.len() == lines_us && tse0.len() == lines_us && phi0.len() == lines_us
                && ths0.len() == lines_us && the0.len() == lines_us,
            expected == layers_of(g, tss0, tse0, phi0, ths0, the0, lines as nat, beams as nat),
            layer_views(layer_items(out)) =~= expected.take(t as int),
        decreases lines_us - t,
    {
        let ghost out_pre = layer_items(out);
        let row = match rows.pop() {
            Some(r) => r,
            None => {
                proof {
                    assert(false);
                }
                vstd::pervasive::unreached()
            },
        };
        let ts0 = match tss.pop() {
            Some(v) => v,
            None => {
                proof {
                    assert(false);
                }
                vstd::pervasive::unreached()
            },
        };
        let te0 = match tse.pop() {
            Some(v) => v,
            None => {
                proof {
                    assert(false);
                }
                vstd::pervasive::unreached()
            },
        };
        let ph = match phiv.pop() {
            Some(v) => v,
            None => {
                proof {
                    assert(false);
                }
                vstd::pervasive::unreached()
            },
        };
        let th_s = match thsv.pop() {
            Some(v) => v,
            None => {
                proof {
                    assert(false);
                }
                vstd::pervasive::unreached()
            },
        };
        let th_e = match thev.pop() {
            Some(v) => v,
            None => {
                proof {
                    assert(false);
                }
                vstd::pervasive::unreached()
            },
        };
        let layer = MeasurementLayerOutput {
            time_stamp_start: ts0,
            time_stamp_end: te0,
            phi: ph,
            theta_start: th_s,
            theta_end: th_e,
            data: row,
        };
        proof {
            let q = lines_us - 1 - t as int;
            assert(layer@.data =~= Seq::new(
                beams as nat,
                |p: int| g[p * (lines_us as int) + q],
            ));
            assert(layer@ =~= expected[t as int]);
            assert(tss0.take(lines_us - t).drop_last() =~= tss0.take(lines_us - (t + 1)));
            assert(tse0.take(lines_us - t).drop_last() =~= tse0.take(lines_us - (t + 1)));
            assert(phi0.take(lines_us - t).drop_last() =~= phi0.take(lines_us - (t + 1)));
            assert(ths0.take(lines_us - t).drop_last() =~= ths0.take(lines_us - (t + 1)));
            assert(the0.take(lines_us - t).drop_last() =~= the0.take(lines_us - (t + 1)));
        }
        layers_push(&mut out, layer);
        t = t + 1;
        proof {
            assert(layer_views(layer_items(out)) =~= layer_views(out_pre).push(layer@));
            assert(expected.take(t as int) =~= expected.take(t - 1).push(expected[t - 1]));
        }
    }
    proof {
        assert(expected.take(lines_us as int) =~= expected);
        assert(layer_views(layer_items(out)) == expected);
        assert(src@.skip(p0 as int) == s);
    }
    Ok(out)
}


/// One measurement module: the grid dimensions, per-line metadata columns
/// (angles as raw IEEE-754 bit patterns), the content bitmasks, the byte
/// length of the following module, and the decoded layers.
#[derive(Clone)]
pub struct MeasurementModule {
    pub segment_counter: u64,
    pub frame_number: u64,
    pub sender_id: u32,
    pub number_lines_in_module: u32,
    pub number_of_beams_per_scan: u32,
    pub number_of_echoes_per_beam: u32,
    pub time_stamp_start: Vec<u64>,
    pub time_stamp_end: Vec<u64>,
    pub phi: Vec<u32>,
    pub theta_start: Vec<u32>,
    pub theta_end: Vec<u32>,
    pub distance_scale_factor: u32,
    pub next_module_size: u32,
    pub data_content_echoes: u8,
    pub data_content_beams: u8,
    pub data: LayerVec,
}

/// The abstract value of a [`MeasurementModule`].
#[verifier::ext_equal]
pub struct MeasurementModuleV {
    pub segment_counter: u64,
    pub frame_number: u64,
    pub sender_id: u32,
    pub number_lines_in_module: u32,
    pub number_of_beams_per_scan: u32,
    pub number_of_echoes_per_beam: u32,
    pub time_stamp_start: Seq<u64>,
    pub time_stamp_end: Seq<u64>,
    pub phi: Seq<u32>,
    pub theta_start: Seq<u32>,
    pub theta_end: Seq<u32>,
    pub distance_scale_factor: u32,
    pub next_module_size: u32,
    pub data_content_echoes: u8,
    pub data_content_beams: u8,
    pub data: Seq<MeasurementLayerOutputV>,
}

impl View for MeasurementModule {
    type V = MeasurementModuleV;

    open spec fn view(&self) -> MeasurementModuleV {
        MeasurementModuleV {
            segment_counter: self.segment_counter,
            frame_number: self.frame_number,
            sender_id: self.sender_id,
            number_lines_in_module: self.number_lines_in_module,
            number_of_beams_per_scan: self.number_of_beams_per_scan,
            number_of_echoes_per_beam: self.number_of_echoes_per_beam,
            time_stamp_start: self.time_stamp_start@,
            time_stamp_end: self.time_stamp_end@,
            phi: self.phi@,
            theta_start: self.theta_start@,
            theta_end: self.theta_end@,
            distance_scale_factor: self.distance_scale_factor,
            next_module_size: self.next_module_size,
            data_content_echoes: self.data_content_echoes,
            data_content_beams: self.data_content_beams,
            data: layer_views(layer_items(self.data)),
        }
    }
}

/// The abstract values of a run of modules.
pub open spec fn module_views(ms: Seq<MeasurementModule>) -> Seq<MeasurementModuleV> {
    ms.map_values(|m: MeasurementModule| m@)
}

/// Parses one measurement module: three counters, the three grid dimensions,
/// five per-line metadata columns, the scale factor, the byte length of the
/// following module, two reserved bytes around the two content bitmasks, and
/// the measurement grid, which comes out as layers per [`layers_of`].
pub open spec fn parse_module(s: Seq<u8>) -> Result<(MeasurementModuleV, int), DecodeError> {
    if s.len() < 16 {
        Err(DecodeError::Exhausted(ValueKind::U64))
    } else if s.len() < 32 {
        Err(DecodeError::Exhausted(ValueKind::U32))
    } else {
        let l = le32_at(s, 20) as int;
        let b = le32_at(s, 24) as int;
        let e = le32_at(s, 28) as int;
        if s.len() < 32 + 16 * l {
            Err(DecodeError::Exhausted(ValueKind::U64))
        } else if s.len() < 32 + 28 * l {
            Err(DecodeError::Exhausted(ValueKind::F32))
        } else if s.len() < 36 + 28 * l {
            Err(DecodeError::Exhausted(ValueKind::F32))
        } else if s.len() < 40 + 28 * l {
            Err(DecodeError::Exhausted(ValueKind::U32))
        } else if s.len() < 44 + 28 * l {
            Err(DecodeError::Exhausted(ValueKind::U8))
        } else {
            let dce = s[41 + 28 * l];
            let dcb = s[42 + 28 * l];
            let tss = Seq::new(l as nat, |j: int| le64_at(s, 32 + 8 * j));
            let tse = Seq::new(l as nat, |j: int| le64_at(s, 32 + 8 * l + 8 * j));
            let phi = Seq::new(l as nat, |j: int| le32_at(s, 32 + 16 * l + 4 * j));
            let ths = Seq::new(l as nat, |j: int| le32_at(s, 32 + 20 * l + 4 * j));
            let the = Seq::new(l as nat, |j: int| le32_at(s, 32 + 24 * l + 4 * j));
            match parse_grid(s.skip(44 + 28 * l), (b * l) as nat, e as nat, dcb, dce) {
                Err(err) => Err(err),
                Ok((g, c)) => Ok(
                    (
                        MeasurementModuleV {
                            segment_counter: le64_at(s, 0),
                            frame_number: le64_at(s, 8),
                            sender_id: le32_at(s, 16),
                            number_lines_in_module: le32_at(s, 20),
                            number_of_beams_per_scan: le32_at(s, 24),
                            number_of_echoes_per_beam: le32_at(s, 28),
                            time_stamp_start: tss,
                            time_stamp_end: tse,
                            phi: phi,
                            theta_start: ths,
                            theta_end: the,
                            distance_scale_factor: le32_at(s, 32 + 28 * l),
                            next_module_size: le32_at(s, 36 + 28 * l),
                            data_content_echoes: dce,
                            data_content_beams: dcb,
                            data: layers_of(g, tss, tse, phi, ths, the, l as nat, b as nat),
                        },
                        44 + 28 * l + c,
                    ),
                ),
            }
        }
    }
}

/// Reads `count` 64-bit values from `src` starting at `*pos`.
fn read_u64s(src: &Vec<u8>, pos: &mut usize, count: u32) -> (r: Result<Vec<u64>, DecodeError>)
    requires
        *old(pos) <= src@.len(),
    ensures
        *old(pos) <= *final(pos) <= src@.len(),
        match r {
            Ok(v) => *final(pos) == *old(pos) + 8 * count && v@ =~= Seq::new(
                count as nat,
                |j: int| le64_at(src@, *old(pos) + 8 * j),
            ),
            Err(e) => src@.len() < *old(pos) + 8 * count && e == DecodeError::Exhausted(
                ValueKind::U64,
            ),
        },
{
    let ghost p0 = *pos;
    let mut out: Vec<u64> = Vec::new();
    let mut j: u32 = 0;
    while j < count
        invariant
            p0 == *old(pos),
            j <= count,
            *pos == p0 + 8 * j,
            *pos <= src@.len(),
            out@ =~= Seq::new(j as nat, |q: int| le64_at(src@, p0 + 8 * q)),
        decreases count - j,
    {
        match read_u64_le(src, pos, ValueKind::U64) {
            Ok(v) => {
                out.push(v);
                j = j + 1;
                assert(out@ =~= Seq::new(j as nat, |q: int| le64_at(src@, p0 + 8 * q)));
            },
            Err(e) => {
                return Err(e);
            },
        }
    }
    Ok(out)
}

/// Reads `count` 32-bit values from `src` starting at `*pos`, failing with
/// the given value kind.
fn read_u32s(src: &Vec<u8>, pos: &mut usize, count: u32, kind: ValueKind) -> (r: Result<
    Vec<u32>,
    DecodeError,
>)
    requires
        *old(pos) <= src@.len(),
    ensures
        *old(pos) <= *final(pos) <= src@.len(),
        match r {
            Ok(v) => *final(pos) == *old(pos) + 4 * count && v@ =~= Seq::new(
                count as nat,
                |j: int| le32_at(src@, *old(pos) + 4 * j),
            ),
            Err(e) => src@.len() < *old(pos) + 4 * count && e == DecodeError::Exhausted(kind),
        },
{
    let ghost p0 = *pos;
    let mut out: Vec<u32> = Vec::new();
    let mut j: u32 = 0;
    while j < count
        invariant
            p0 == *old(pos),
            j <= count,
            *pos == p0 + 4 * j,
            *pos <= src@.len(),
            out@ =~= Seq::new(j as nat, |q: int| le32_at(src@, p0 + 4 * q)),
        decreases count - j,
    {
        match read_u32_le(src, pos, kind) {
            Ok(v) => {
                out.push(v);
                j = j + 1;
                assert(out@ =~= Seq::new(j as nat, |q: int| le32_at(src@, p0 + 4 * q)));
            },
            Err(e) => {
                return Err(e);
            },
        }
    }
    Ok(out)
}

impl MeasurementModule {
    /// Reads one measurement module from `src` starting at `*pos`. The
    /// outcome is exactly what [`parse_module`] says of the remaining input.
    #[verifier::rlimit(100)]
    #[verifier::spinoff_prover]
    pub fn from_stream(src: &Vec<u8>, pos: &mut usize) -> (r: Result<
        MeasurementModule,
        DecodeError,
    >)
        requires
            *old(pos) <= src@.len(),
        ensures
            *old(pos) <= *final(pos) <= src@.len(),
            match r {
                Ok(v) => parse_module(src@.skip(*old(pos) as int)) == Ok::<_, DecodeError>((
                    v@,
                    *final(pos) - *old(pos),
                )),
                Err(e) => parse_module(src@.skip(*old(pos) as int)) == Err::<
                    (MeasurementModuleV, int),
                    _,
                >(e),
            },
    {
        let ghost p0 = *pos;
        let ghost s = src@.skip(p0 as int);
        let segment_counter = read_u64_le(src, pos, ValueKind::U64)?;
        let frame_number = read_u64_le(src, pos, ValueKind::U64)?;
        let sender_id = read_u32_le(src, pos, ValueKind::U32)?;
        let number_lines_in_module = read_u32_le(src, pos, ValueKind::U32)?;
        let number_of_beams_per_scan = read_u32_le(src, pos, ValueKind::U32)?;
        let number_of_echoes_per_beam = read_u32_le(src, pos, ValueKind::U32)?;
        let ghost l = number_lines_in_module as int;
        let time_stamp_start = read_u64s(src, pos, number_lines_in_module)?;
        proof {
            assert(*pos == p0 + 32 + 8 * l);
        }
        let time_stamp_end = read_u64s(src, pos, number_lines_in_module)?;
        proof {
            assert(*pos == p0 + 32 + 16 * l);
        }
        let phi = read_u32s(src, pos, number_lines_in_module, ValueKind::F32)?;
        let theta_start = read_u32s(src, pos, number_lines_in_module, ValueKind::F32)?;
        let theta_end = read_u32s(src, pos, number_lines_in_module, ValueKind::F32)?;
        proof {
            assert(*pos == p0 + 32 + 28 * l);
        }
        let distance_scale_factor = read_u32_le(src, pos, ValueKind::F32)?;
        let next_module_size = read_u32_le(src, pos, ValueKind::U32)?;
        let _res = read_u8_le(src, pos, ValueKind::U8)?;
        let data_content_echoes = read_u8_le(src, pos, ValueKind::U8)?;
        let data_content_beams = read_u8_le(src, pos, ValueKind::U8)?;
        let _res2 = read_u8_le(src, pos, ValueKind::U8)?;
        proof {
            assert(*pos == p0 + 44 + 28 * l);
            assert(src@.skip(*pos as int) =~= s.skip(44 + 28 * l));
        }
        let data = decode_data(
            src,
            pos,
            number_lines_in_module,
            number_of_beams_per_scan,
            number_of_echoes_per_beam,
            data_content_echoes,
            data_content_beams,
            (
                clone_u64s(&time_stamp_start),
                clone_u64s(&time_stamp_end),
                clone_u32s(&phi),
                clone_u32s(&theta_start),
                clone_u32s(&theta_end),
            ),
        )?;
        let out = MeasurementModule {
            segment_counter,
            frame_number,
            sender_id,
            number_lines_in_module,
            number_of_beams_per_scan,
            number_of_echoes_per_beam,
            time_stamp_start,
            time_stamp_end,
            phi,
            theta_start,
            theta_end,
            distance_scale_factor,
            next_module_size,
            data_content_echoes,
            data_content_beams,
            data,
        };
        proof {
            let lk = le32_at(s, 20) as int;
            assert(lk == l);
            let bk = le32_at(s, 24) as int;
            let tss = Seq::new(l as nat, |j: int| le64_at(s, 32 + 8 * j));
            let tse = Seq::new(l as nat, |j: int| le64_at(s, 32 + 8 * l + 8 * j));
            let phis = Seq::new(l as nat, |j: int| le32_at(s, 32 + 16 * l + 4 * j));
            let thss = Seq::new(l as nat, |j: int| le32_at(s, 32 + 20 * l + 4 * j));
            let thes = Seq::new(l as nat, |j: int| le32_at(s, 32 + 24 * l + 4 * j));
            assert(out.time_stamp_start@ =~= tss);
            assert(out.time_stamp_end@ =~= tse);
            assert(out.phi@ =~= phis);
            assert(out.theta_start@ =~= thss);
            assert(out.theta_end@ =~= thes);
            assert((number_of_beams_per_scan * number_lines_in_module) as nat == (bk * lk) as nat);
            match parse_module(s) {
                Ok((mv, c)) => {
                    assert(out@ =~~= mv);
                },
                Err(_) => {
                    assert(false);
                },
            }
        }
        Ok(out)
    }
}

impl CompactModule for MeasurementModule {
    open spec fn spec_next_module_size(&self) -> u32 {
        self.next_module_size
    }

    fn next_module_size(&self) -> u32 {
        self.next_module_size
    }
}

/// Copies a vector of 64-bit values.
fn clone_u64s(v: &Vec<u64>) -> (r: Vec<u64>)
    ensures
        r@ == v@,
{
    let mut out: Vec<u64> = Vec::new();
    let mut i: usize = 0;
    while i < v.len()
        invariant
            i <= v@.len(),
            out@ =~= v@.take(i as int),
        decreases v@.len() - i,
    {
        out.push(v[i]);
        i = i + 1;
        assert(out@ =~= v@.take(i as int));
    }
    assert(v@.take(v@.len() as int) =~= v@);
    out
}

/// Copies a vector of 32-bit values.
fn clone_u32s(v: &Vec<u32>) -> (r: Vec<u32>)
    ensures
        r@ == v@,
{
    let mut out: Vec<u32> = Vec::new();
    let mut i: usize = 0;
    while i < v.len()
        invariant
            i <= v@.len(),
            out@ =~= v@.take(i as int),
        decreases v@.len() - i,
    {
        out.push(v[i]);
        i = i + 1;
        assert(out@ =~= v@.take(i as int));
    }
    assert(v@.take(v@.len() as int) =~= v@);
    out
}


/// The most modules one telegram may chain, however the chain is announced:
/// a guard against malformed or cyclic chains, not a protocol error.
pub const MODULE_CHAIN_CAP: u32 = 100;

/// Parses a chain of modules: one module follows another while the previous
/// link announces a nonzero following size, and never more than `cap` in
/// all. Reaching the cap ends the chain quietly.
pub open spec fn parse_modules(s: Seq<u8>, next: u32, cap: nat) -> Result<
    (Seq<MeasurementModuleV>, int),
    DecodeError,
>
    decreases cap,
{
    if next == 0 || cap == 0 {
        Ok((Seq::empty(), 0))
    } else {
        match parse_module(s) {
            Err(e) => Err(e),
            Ok((m, k)) => match parse_modules(s.skip(k), m.next_module_size, (cap - 1) as nat) {
                Err(e) => Err(e),
                Ok((ms, c)) => Ok((seq![m] + ms, k + c)),
            },
        }
    }
}

/// Parses the body of a distance telegram: the header, then the module
/// chain it opens, capped at [`MODULE_CHAIN_CAP`] modules.
pub open spec fn parse_distance(s: Seq<u8>) -> Result<
    ((CompactHeader, Seq<MeasurementModuleV>), int),
    DecodeError,
> {
    match parse_header(s) {
        Err(e) => Err(e),
        Ok((h, hk)) => match parse_modules(
            s.skip(hk),
            h.next_module_size,
            MODULE_CHAIN_CAP as nat,
        ) {
            Err(e) => Err(e),
            Ok((ms, c)) => Ok(((h, ms), hk + c)),
        },
    }
}

/// One decoded compact telegram: an inertial sample or a distance message.
pub enum CompactMessage {
    IMUMessage { imudata: IMUData },
    DistanceMessage { header: CompactHeader, data: Box<ModuleVec> },
}

/// The abstract value of a [`CompactMessage`].
#[verifier::ext_equal]
pub enum CompactMessageV {
    IMUMessage { imudata: IMUData },
    DistanceMessage { header: CompactHeader, data: Seq<MeasurementModuleV> },
}

impl View for CompactMessage {
    type V = CompactMessageV;

    open spec fn view(&self) -> CompactMessageV {
        match *self {
            CompactMessage::IMUMessage { imudata } => CompactMessageV::IMUMessage { imudata },
            CompactMessage::DistanceMessage { header, data } => CompactMessageV::DistanceMessage {
                header,
                data: module_views(module_items(*data)),
            },
        }
    }
}

/// Parses one whole compact telegram: the fixed magic, the message-type
/// selector choosing the inertial or the distance body, and the trailing
/// checksum word, which is consumed but, as the format has it, not
/// validated.
pub open spec fn parse_message(s: Seq<u8>) -> Result<(CompactMessageV, int), DecodeError> {
    if s.len() < 4 {
        Err(DecodeError::Exhausted(ValueKind::U32))
    } else if le32_at(s, 0) != 0x02020202 {
        Err(DecodeError::BadMagic(le32_at(s, 0)))
    } else if s.len() < 8 {
        Err(DecodeError::Exhausted(ValueKind::U32))
    } else {
        let mt = le32_at(s, 4);
        if mt == 0x1 {
            match parse_distance(s.skip(8)) {
                Err(e) => Err(e),
                Ok(((h, ms), k)) => {
                    if s.len() < 8 + k + 4 {
                        Err(DecodeError::Exhausted(ValueKind::U32))
                    } else {
                        Ok(
                            (
                                CompactMessageV::DistanceMessage { header: h, data: ms },
                                8 + k + 4,
                            ),
                        )
                    }
                },
            }
        } else if mt == 0x2 {
            match parse_imu(s.skip(8)) {
                Err(e) => Err(e),
                Ok((im, k)) => {
                    if s.len() < 8 + k + 4 {
                        Err(DecodeError::Exhausted(ValueKind::U32))
                    } else {
                        Ok((CompactMessageV::IMUMessage { imudata: im }, 8 + k + 4))
                    }
                },
            }
        } else {
            Err(DecodeError::UnknownMessageType(mt))
        }
    }
}

impl CompactMessage {
    /// Reads one whole compact telegram from `src` starting at `*pos`: the
    /// magic and the message type are checked, the body is decoded, and the
    /// trailing checksum word is consumed unvalidated. The outcome is
    /// exactly what [`parse_message`] says of the remaining input.
    pub fn read_message(src: &Vec<u8>, pos: &mut usize) -> (r: Result<CompactMessage, DecodeError>)
        requires
            *old(pos) <= src@.len(),
        ensures
            *old(pos) <= *final(pos) <= src@.len(),
            match r {
                Ok(v) => parse_message(src@.skip(*old(pos) as int)) == Ok::<_, DecodeError>((
                    v@,
                    *final(pos) - *old(pos),
                )),
                Err(e) => parse_message(src@.skip(*old(pos) as int)) == Err::<
                    (CompactMessageV, int),
                    _,
                >(e),
            },
    {
        let ghost p0 = *pos;
        let ghost s = src@.skip(p0 as int);
        let magic = read_u32_le(src, pos, ValueKind::U32)?;
        if magic != 0x02020202 {
            *pos = *pos - 4;
            return Err(DecodeError::BadMagic(magic));
        }
        let mt = read_u32_le(src, pos, ValueKind::U32)?;
        let ghost p1 = *pos;
        proof {
            assert(src@.skip(p1 as int) =~= s.skip(8));
        }
        let msg = if mt == 0x1 {
            CompactMessage::read_distance_data(src, pos)?
        } else if mt == 0x2 {
            CompactMessage::read_imu_data(src, pos)?
        } else {
            return Err(DecodeError::UnknownMessageType(mt));
        };
        let _checksum = read_u32_le(src, pos, ValueKind::U32)?;
        Ok(msg)
    }

    /// Reads the body of an inertial telegram.
    fn read_imu_data(src: &Vec<u8>, pos: &mut usize) -> (r: Result<CompactMessage, DecodeError>)
        requires
            *old(pos) <= src@.len(),
        ensures
            *old(pos) <= *final(pos) <= src@.len(),
            match r {
                Ok(v) => parse_imu(src@.skip(*old(pos) as int)) matches Ok((im, k)) && v@
                    == (CompactMessageV::IMUMessage { imudata: im }) && *final(pos) == *old(pos)
                    + k,
                Err(e) => parse_imu(src@.skip(*old(pos) as int)) == Err::<(IMUData, int), _>(e),
            },
    {
        let imudata = IMUData::from_stream(src, pos)?;
        Ok(CompactMessage::IMUMessage { imudata })
    }

    /// Reads the body of a distance telegram: the header, then modules
    /// while the previous link announces a nonzero following size, and
    /// never more than [`MODULE_CHAIN_CAP`] of them.
    fn read_distance_data(src: &Vec<u8>, pos: &mut usize) -> (r: Result<
        CompactMessage,
        DecodeError,
    >)
        requires
            *old(pos) <= src@.len(),
        ensures
            *old(pos) <= *final(pos) <= src@.len(),
            match r {
                Ok(v) => parse_distance(src@.skip(*old(pos) as int)) matches Ok(((h, ms), k)) && v@
                    == (CompactMessageV::DistanceMessage { header: h, data: ms }) && *final(pos)
                    == *old(pos) + k,
                Err(e) => parse_distance(src@.skip(*old(pos) as int)) == Err::<
                    ((CompactHeader, Seq<MeasurementModuleV>), int),
                    _,
                >(e),
            },
    {
        let ghost p0 = *pos;
        let ghost s = src@.skip(p0 as int);
        let header = CompactHeader::from_stream(src, pos)?;
        let ghost p1 = *pos;
        let ghost after_header = src@.skip(p1 as int);
        proof {
            assert(after_header =~= s.skip(p1 - p0));
        }
        let mut data = modules_new();
        let mut next_module_size = header.next_module_size();
        let mut count: u32 = 0;
        while next_module_size != 0 && count < MODULE_CHAIN_CAP
            invariant
                p0 == *old(pos),
                p0 <= p1 <= *pos <= src@.len(),
                after_header == src@.skip(p1 as int),
                parse_header(src@.skip(p0 as int)) == Ok::<_, DecodeError>((header, p1 - p0)),
                after_header == src@.skip(p0 as int).skip(p1 - p0),
                count <= MODULE_CHAIN_CAP,
                module_items(data).len() == count,
                match parse_modules(
                    src@.skip(*pos as int),
                    next_module_size,
                    (MODULE_CHAIN_CAP - count) as nat,
                ) {
                    Ok((ms, c)) => parse_modules(
                        after_header,
                        header.next_module_size,
                        MODULE_CHAIN_CAP as nat,
                    ) == Ok::<_, DecodeError>((
                        module_views(module_items(data)) + ms,
                        (*pos - p1) + c,
                    )),
                    Err(e) => parse_modules(
                        after_header,
                        header.next_module_size,
                        MODULE_CHAIN_CAP as nat,
                    ) == Err::<(Seq<MeasurementModuleV>, int), _>(e),
                },
            decreases MODULE_CHAIN_CAP - count,
        {
            let ghost pre = *pos;
            let ghost data_pre = module_items(data);
            match MeasurementModule::from_stream(src, pos) {
                Ok(next) => {
                    proof {
                        assert(src@.skip(pre as int).skip((*pos - pre) as int) =~= src@.skip(
                            *pos as int,
                        ));
                    }
                    next_module_size = next.next_module_size();
                    modules_push(&mut data, next);
                    count = count + 1;
                    proof {
                        assert(module_views(module_items(data)) =~= module_views(data_pre).push(
                            module_items(data).last()@,
                        ));
                        match parse_modules(
                            src@.skip(*pos as int),
                            next_module_size,
                            (MODULE_CHAIN_CAP - count) as nat,
                        ) {
                            Ok((ms, c)) => {
                                assert(module_views(data_pre) + (seq![
                                    module_items(data).last()@,
                                ] + ms) =~= module_views(module_items(data)) + ms);
                            },
                            Err(_) => {},
                        }
                    }
                },
                Err(e) => {
                    proof {
                        assert(parse_modules(
                            src@.skip(pre as int),
                            next_module_size,
                            (MODULE_CHAIN_CAP - count) as nat,
                        ) == Err::<(Seq<MeasurementModuleV>, int), _>(e));
                    }
                    return Err(e);
                },
            }
        }
        proof {
            assert(parse_modules(
                src@.skip(*pos as int),
                next_module_size,
                (MODULE_CHAIN_CAP - count) as nat,
            ) == Ok::<_, DecodeError>((Seq::<MeasurementModuleV>::empty(), 0int)));
            assert(module_views(module_items(data)) + Seq::<MeasurementModuleV>::empty()
                =~= module_views(module_items(data)));
        }
        Ok(CompactMessage::DistanceMessage { header, data: Box::new(data) })
    }
}

/// True when `ms` stands at the head of `s`, module after module, each
/// `ms[i]` consuming `ks[i]` bytes.
pub open spec fn chain_parses(s: Seq<u8>, ms: Seq<MeasurementModuleV>, ks: Seq<int>) -> bool
    decreases ms.len(),
{
    if ms.len() == 0 {
        true
    } else {
        ks.len() == ms.len() && parse_module(s) == Ok::<_, DecodeError>((ms[0], ks[0]))
            && chain_parses(s.skip(ks[0]), ms.drop_first(), ks.drop_first())
    }
}

/// The total byte length of a chain of modules.
pub open spec fn chain_len(ks: Seq<int>) -> int
    decreases ks.len(),
{
    if ks.len() == 0 {
        0
    } else {
        ks[0] + chain_len(ks.drop_first())
    }
}

/// Module chaining, the terminating case: a buffer holding exactly the
/// modules present, every one but the last announcing a nonzero following
/// size and the last announcing zero, decodes to exactly those modules.
/// When the opening size is zero, no module at all is decoded.
pub proof fn lemma_chain_decodes_exactly(
    s: Seq<u8>,
    next: u32,
    cap: nat,
    ms: Seq<MeasurementModuleV>,
    ks: Seq<int>,
)
    requires
        ks.len() == ms.len(),
        chain_parses(s, ms, ks),
        ms.len() <= cap,
        (next == 0) <==> (ms.len() == 0),
        forall|i: int| 0 <= i < ms.len() - 1 ==> (#[trigger] ms[i]).next_module_size != 0,
        ms.len() > 0 ==> ms.last().next_module_size == 0,
    ensures
        parse_modules(s, next, cap) == Ok::<_, DecodeError>((ms, chain_len(ks))),
    decreases cap,
{
    if ms.len() == 0 {
        assert(ms =~= Seq::<MeasurementModuleV>::empty());
    } else {
        let tail = ms.drop_first();
        let kt = ks.drop_first();
        assert(tail.len() == ms.len() - 1);
        if tail.len() == 0 {
            assert(ms.last() == ms[0]);
        } else {
            assert(ms[0].next_module_size != 0);
            assert(tail.last() == ms.last());
        }
        assert(forall|i: int|
            0 <= i < tail.len() - 1 ==> (#[trigger] tail[i]).next_module_size != 0) by {
            assert(forall|i: int| 0 <= i < tail.len() ==> tail[i] == ms[i + 1]);
        }
        lemma_chain_decodes_exactly(
            s.skip(ks[0]),
            ms[0].next_module_size,
            (cap - 1) as nat,
            tail,
            kt,
        );
        assert(seq![ms[0]] + tail =~= ms);
    }
}

/// Module chaining, the capped case: a buffer supplying one parsable module
/// after another, every one announcing a nonzero following size, decodes to
/// exactly as many modules as the cap allows and stops quietly, without an
/// error.
pub proof fn lemma_chain_caps_quietly(
    s: Seq<u8>,
    next: u32,
    cap: nat,
    ms: Seq<MeasurementModuleV>,
    ks: Seq<int>,
)
    requires
        ks.len() == ms.len(),
        ms.len() == cap,
        chain_parses(s, ms, ks),
        next != 0 || cap == 0,
        forall|i: int| 0 <= i < ms.len() ==> (#[trigger] ms[i]).next_module_size != 0,
    ensures
        parse_modules(s, next, cap) == Ok::<_, DecodeError>((ms, chain_len(ks))),
    decreases cap,
{
    if cap == 0 {
        assert(ms =~= Seq::<MeasurementModuleV>::empty());
    } else {
        let tail = ms.drop_first();
        let kt = ks.drop_first();
        assert(forall|i: int| 0 <= i < tail.len() ==> tail[i] == ms[i + 1]);
        lemma_chain_caps_quietly(
            s.skip(ks[0]),
            ms[0].next_module_size,
            (cap - 1) as nat,
            tail,
            kt,
        );
        assert(seq![ms[0]] + tail =~= ms);
    }
}

/// Lifts the two chaining laws to a whole distance body: once the header is
/// parsed, whatever the chain decodes to is what the distance telegram
/// decodes to, behind that header.
pub proof fn lemma_distance_chain(s: Seq<u8>, ms: Seq<MeasurementModuleV>, c: int)
    requires
        parse_header(s) matches Ok((h, hk)) && parse_modules(
            s.skip(hk),
            h.next_module_size,
            MODULE_CHAIN_CAP as nat,
        ) == Ok::<_, DecodeError>((ms, c)),
    ensures
        parse_distance(s) matches Ok(((h, dms), k)) && parse_header(s) == Ok::<_, DecodeError>((
            h,
            k - c,
        )) && dms == ms,
{
}

/// Grid transpose and metadata pairing: layer `t` of a module is line
/// `lines - 1 - t`. Its measurements are that line's, in beam order, drawn
/// from the beam-major wire grid (beam `b` of line `j` stands at grid index
/// `b * lines + j`), and its five metadata entries are that same line's, so
/// the layers come out in reversed line order, each line's own metadata
/// staying paired with its own row.
pub proof fn lemma_layer_pairing(
    grid: Seq<MeasurementV>,
    tss: Seq<u64>,
    tse: Seq<u64>,
    phi: Seq<u32>,
    ths: Seq<u32>,
    the: Seq<u32>,
    lines: nat,
    beams: nat,
    t: int,
    b: int,
)
    requires
        0 <= t < lines,
        0 <= b < beams,
    ensures
        ({
            let ls = layers_of(grid, tss, tse, phi, ths, the, lines, beams);
            &&& ls.len() == lines
            &&& ls[t].data.len() == beams
            &&& ls[t].data[b] == grid[b * (lines as int) + (lines - 1 - t)]
            &&& ls[t].time_stamp_start == tss[lines - 1 - t]
            &&& ls[t].time_stamp_end == tse[lines - 1 - t]
            &&& ls[t].phi == phi[lines - 1 - t]
            &&& ls[t].theta_start == ths[lines - 1 - t]
            &&& ls[t].theta_end == the[lines - 1 - t]
        }),
{
}

/// Module chaining: a successful chain decode holds exactly the modules
/// present. Every module but the last announces a nonzero following size;
/// if the chain ends below the cap, it ends because a module announced
/// zero; and a chain that never announces zero ends at the cap, quietly.
pub proof fn lemma_module_chain(s: Seq<u8>, next: u32, cap: nat)
    ensures
        parse_modules(s, next, cap) matches Ok((ms, c)) ==> {
            &&& ms.len() <= cap
            &&& (next == 0 ==> ms.len() == 0)
            &&& (forall|i: int|
                0 <= i < ms.len() - 1 ==> (#[trigger] ms[i]).next_module_size != 0)
            &&& (ms.len() < cap && next != 0 ==> ms.len() > 0 && ms.last().next_module_size == 0)
        },
    decreases cap,
{
    if next == 0 || cap == 0 {
    } else {
        match parse_module(s) {
            Err(_) => {},
            Ok((m, k)) => {
                lemma_module_chain(s.skip(k), m.next_module_size, (cap - 1) as nat);
                match parse_modules(s.skip(k), m.next_module_size, (cap - 1) as nat) {
                    Err(_) => {},
                    Ok((tail, _)) => {
                        let ms = seq![m] + tail;
                        assert(ms[0] == m);
                        assert(forall|i: int| 1 <= i < ms.len() ==> ms[i] == tail[i - 1]);
                        if m.next_module_size == 0 {
                            assert(tail.len() == 0);
                            assert(ms.last() == m);
                        }
                    },
                }
            },
        }
    }
}

} // verus!
