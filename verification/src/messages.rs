//! The CoLa commands this crate can send and the answers it can decode.
//!
//! An outgoing command serializes to a command-class tag, the command name
//! and its fields, in declaration order. An incoming payload is dispatched
//! on its command-name string to the matching variant's field decoders; a
//! name with no registered decoder is a decode error, never a silent
//! default.

use vstd::prelude::*;

use crate::cola_a::{
    command_prefix, parse_frame_spec, CoLaDataType, CoLaUtil, ColaMessageRaw,
};
use crate::cola_datatypes::{CoLaDataChannel, CoLaDataChannelV, CoLaFrequency, LmpSectors};
use crate::{DecodeError, MessageError, ValueKind};

verus! {

/// Command class: read by name.
pub const S_RN: [u8; 3] = [0x73, 0x52, 0x4E];

/// Command class: write by name.
pub const S_WN: [u8; 3] = [0x73, 0x57, 0x4E];

/// Command class: method call.
pub const S_MN: [u8; 3] = [0x73, 0x4D, 0x4E];

/// Command class: event subscription.
pub const S_EN: [u8; 3] = [0x73, 0x45, 0x4E];

/// Command class: read answer.
pub const S_RA: [u8; 3] = [0x73, 0x52, 0x41];

/// Command class: write answer.
pub const S_WA: [u8; 3] = [0x73, 0x57, 0x41];

/// Command class: method answer.
pub const S_AN: [u8; 3] = [0x73, 0x41, 0x4E];

/// Command class: event answer.
pub const S_EA: [u8; 3] = [0x73, 0x45, 0x41];

/// Command class: event notification.
pub const S_SN: [u8; 3] = [0x73, 0x53, 0x4E];

/// Name of the access-mode command.
pub const ACCESS_MODE: &'static str = "SetAccessMode";

/// Name of the scan-configuration method.
pub const LMP_SET_SCAN_CFG: &'static str = "mLMPsetscancfg";

/// Name of the start-measurement method.
pub const LMC_START_MEASUREMENT: &'static str = "LMCstartmeas";

/// Name of the scan-data telegram.
pub const LMD_SCAN_DATA: &'static str = "LMDscandata";

/// Name of the run method.
pub const RUN: &'static str = "Run";

/// The outgoing commands this crate can serialize.
#[derive(Clone, Copy, Debug, PartialEq)]
pub enum CoLaMessages {
    /// Log in at a user level with a password.
    SetAccessMode { user_level: i8, password: u32 },
    /// Request a new scan frequency and sector layout.
    LmpSetScanCfgOutgoing { freq: CoLaFrequency, sectors: LmpSectors },
    /// Start continuous measurement.
    LMCStartMeasurement,
    /// Ask for a single scan-data telegram.
    PollOneTelegram,
    /// Leave the configuration state and resume measuring.
    Run,
}

/// The payload bytes an outgoing command serializes to, where it can be
/// serialized at all. The scan-configuration command carries sector records
/// whose wire form this crate does not encode, so it has none.
pub open spec fn raw_message_of(m: CoLaMessages) -> Option<Seq<u8>> {
    match m {
        CoLaMessages::SetAccessMode { user_level, password } => Some(
            command_prefix(S_MN@, ACCESS_MODE@) + <i8 as CoLaDataType>::wire_of(user_level)
                + <u32 as CoLaDataType>::wire_of(password),
        ),
        CoLaMessages::LmpSetScanCfgOutgoing { .. } => None,
        CoLaMessages::LMCStartMeasurement => Some(command_prefix(S_MN@, LMC_START_MEASUREMENT@)),
        CoLaMessages::PollOneTelegram => Some(command_prefix(S_RN@, LMD_SCAN_DATA@)),
        CoLaMessages::Run => Some(command_prefix(S_MN@, RUN@)),
    }
}

impl CoLaMessages {
    /// Serializes this command into the payload bytes of one frame:
    /// command-class tag, space, command name, space, then the fields in
    /// declaration order. Commands whose field types have no wire encoding
    /// yield nothing.
    pub fn to_raw_message(&self) -> (r: Option<ColaMessageRaw>)
        ensures
            match raw_message_of(*self) {
                Some(b) => r matches Some(v) && v@ == b,
                None => r is None,
            },
    {
        match *self {
            CoLaMessages::SetAccessMode { user_level, password } => {
                let mut out = CoLaUtil::vec_from_command(S_MN, ACCESS_MODE);
                user_level.write_to_data(&mut out);
                password.write_to_data(&mut out);
                Some(out)
            },
            CoLaMessages::LmpSetScanCfgOutgoing { .. } => None,
            CoLaMessages::LMCStartMeasurement => Some(
                CoLaUtil::vec_from_command(S_MN, LMC_START_MEASUREMENT),
            ),
            CoLaMessages::PollOneTelegram => Some(CoLaUtil::vec_from_command(S_RN, LMD_SCAN_DATA)),
            CoLaMessages::Run => Some(CoLaUtil::vec_from_command(S_MN, RUN)),
        }
    }
}

/// The incoming answers and telegrams this crate can decode.
#[derive(Clone, Debug)]
pub enum CoLaMessagesIncoming {
    /// Whether a login was accepted.
    SetAccessMode { accepted: bool },
    /// The status a start-measurement call reports.
    LMCstartmeas { status: u8 },
    /// One scan-data telegram. The channel scale fields hold raw IEEE-754
    /// bit patterns.
    LMDData {
        version: u16,
        device_number: u16,
        serial_number: u32,
        status: u16,
        telegram_counter: u16,
        scan_counter: u16,
        time_since_start: u32,
        time_of_transmission: u32,
        input_status: u8,
        output_status: u8,
        res: u16,
        layer_angle: i16,
        scan_frequency: u32,
        measurement_frequency: u32,
        encoder_data: u16,
        longdata: Vec<CoLaDataChannel<u16>>,
        shortdata: Vec<CoLaDataChannel<u8>>,
        position_data: u16,
    },
    /// The status a run call reports.
    Run { status: u8 },
}

/// The abstract value of a [`CoLaMessagesIncoming`].
pub enum CoLaMessagesIncomingV {
    SetAccessMode { accepted: bool },
    LMCstartmeas { status: u8 },
    LMDData {
        version: u16,
        device_number: u16,
        serial_number: u32,
        status: u16,
        telegram_counter: u16,
        scan_counter: u16,
        time_since_start: u32,
        time_of_transmission: u32,
        input_status: u8,
        output_status: u8,
        res: u16,
        layer_angle: i16,
        scan_frequency: u32,
        measurement_frequency: u32,
        encoder_data: u16,
        longdata: Seq<CoLaDataChannelV<u16>>,
        shortdata: Seq<CoLaDataChannelV<u8>>,
        position_data: u16,
    },
    Run { status: u8 },
}

impl View for CoLaMessagesIncoming {
    type V = CoLaMessagesIncomingV;

    open spec fn view(&self) -> CoLaMessagesIncomingV {
        match *self {
            CoLaMessagesIncoming::SetAccessMode { accepted } => CoLaMessagesIncomingV::SetAccessMode {
                accepted,
            },
            CoLaMessagesIncoming::LMCstartmeas { status } => CoLaMessagesIncomingV::LMCstartmeas {
                status,
            },
            CoLaMessagesIncoming::LMDData {
                version,
                device_number,
                serial_number,
                status,
                telegram_counter,
                scan_counter,
                time_since_start,
                time_of_transmission,
                input_status,
                output_status,
                res,
                layer_angle,
                scan_frequency,
                measurement_frequency,
                encoder_data,
                ref longdata,
                ref shortdata,
                position_data,
            } => CoLaMessagesIncomingV::LMDData {
                version,
                device_number,
                serial_number,
                status,
                telegram_counter,
                scan_counter,
                time_since_start,
                time_of_transmission,
                input_status,
                output_status,
                res,
                layer_angle,
                scan_frequency,
                measurement_frequency,
                encoder_data,
                longdata: longdata.deep_view(),
                shortdata: shortdata.deep_view(),
                position_data,
            },
            CoLaMessagesIncoming::Run { status } => CoLaMessagesIncomingV::Run { status },
        }
    }
}

/// Parses the body of a scan-data telegram: fifteen fixed-width counters and
/// status words, the sixteen-bit and eight-bit channel lists, and the
/// position-data flag.
pub open spec fn parse_lmd(s: Seq<u8>) -> Result<(CoLaMessagesIncomingV, int), DecodeError> {
    if s.len() < 4 {
        Err(DecodeError::Exhausted(ValueKind::U16))
    } else if s.len() < 8 {
        Err(DecodeError::Exhausted(ValueKind::U32))
    } else if s.len() < 14 {
        Err(DecodeError::Exhausted(ValueKind::U16))
    } else if s.len() < 22 {
        Err(DecodeError::Exhausted(ValueKind::U32))
    } else if s.len() < 24 {
        Err(DecodeError::Exhausted(ValueKind::U8))
    } else if s.len() < 26 {
        Err(DecodeError::Exhausted(ValueKind::U16))
    } else if s.len() < 28 {
        Err(DecodeError::Exhausted(ValueKind::I16))
    } else if s.len() < 36 {
        Err(DecodeError::Exhausted(ValueKind::U32))
    } else if s.len() < 38 {
        Err(DecodeError::Exhausted(ValueKind::U16))
    } else {
        match <Vec<CoLaDataChannel<u16>> as CoLaDataType>::parse(s.skip(38)) {
            Err(e) => Err(e),
            Ok((longdata, k16)) => match <Vec<CoLaDataChannel<u8>> as CoLaDataType>::parse(
                s.skip(38 + k16),
            ) {
                Err(e) => Err(e),
                Ok((shortdata, k8)) => match <u16 as CoLaDataType>::parse(s.skip(38 + k16 + k8)) {
                    Err(e) => Err(e),
                    Ok((position_data, kp)) => Ok(
                        (
                            CoLaMessagesIncomingV::LMDData {
                                version: crate::cola_a::be16(s[0], s[1]),
                                device_number: crate::cola_a::be16(s[2], s[3]),
                                serial_number: crate::cola_a::be32(s[4], s[5], s[6], s[7]),
                                status: crate::cola_a::be16(s[8], s[9]),
                                telegram_counter: crate::cola_a::be16(s[10], s[11]),
                                scan_counter: crate::cola_a::be16(s[12], s[13]),
                                time_since_start: crate::cola_a::be32(s[14], s[15], s[16], s[17]),
                                time_of_transmission: crate::cola_a::be32(
                                    s[18],
                                    s[19],
                                    s[20],
                                    s[21],
                                ),
                                input_status: s[22],
                                output_status: s[23],
                                res: crate::cola_a::be16(s[24], s[25]),
                                layer_angle: crate::cola_a::as_i16(
                                    crate::cola_a::be16(s[26], s[27]),
                                ),
                                scan_frequency: crate::cola_a::be32(s[28], s[29], s[30], s[31]),
                                measurement_frequency: crate::cola_a::be32(
                                    s[32],
                                    s[33],
                                    s[34],
                                    s[35],
                                ),
                                encoder_data: crate::cola_a::be16(s[36], s[37]),
                                longdata,
                                shortdata,
                                position_data,
                            },
                            38 + k16 + k8 + kp,
                        ),
                    ),
                },
            },
        }
    }
}

/// Parses one incoming payload: the command-class string, the command-name
/// string, then the fields of the variant that the command name selects. A
/// command name with no registered decoder is refused as an unknown command.
pub open spec fn parse_incoming(s: Seq<u8>) -> Result<(CoLaMessagesIncomingV, int), DecodeError> {
    match <String as CoLaDataType>::parse(s) {
        Err(e) => Err(e),
        Ok((_cmd_type, k1)) => match <String as CoLaDataType>::parse(s.skip(k1)) {
            Err(e) => Err(e),
            Ok((cmd, k2)) => {
                let body = s.skip(k1 + k2);
                if cmd == ACCESS_MODE@ {
                    match <bool as CoLaDataType>::parse(body) {
                        Err(e) => Err(e),
                        Ok((accepted, k3)) => Ok(
                            (CoLaMessagesIncomingV::SetAccessMode { accepted }, k1 + k2 + k3),
                        ),
                    }
                } else if cmd == LMC_START_MEASUREMENT@ {
                    match <u8 as CoLaDataType>::parse(body) {
                        Err(e) => Err(e),
                        Ok((status, k3)) => Ok(
                            (CoLaMessagesIncomingV::LMCstartmeas { status }, k1 + k2 + k3),
                        ),
                    }
                } else if cmd == LMD_SCAN_DATA@ {
                    match parse_lmd(body) {
                        Err(e) => Err(e),
                        Ok((msg, k3)) => Ok((msg, k1 + k2 + k3)),
                    }
                } else if cmd == RUN@ {
                    match <u8 as CoLaDataType>::parse(body) {
                        Err(e) => Err(e),
                        Ok((status, k3)) => Ok((CoLaMessagesIncomingV::Run { status }, k1 + k2 + k3)),
                    }
                } else {
                    Err(DecodeError::UnknownCommand)
                }
            },
        },
    }
}

/// The fixed-width opening fields of a scan-data telegram body.
struct LmdFixed {
    version: u16,
    device_number: u16,
    serial_number: u32,
    status: u16,
    telegram_counter: u16,
    scan_counter: u16,
    time_since_start: u32,
    time_of_transmission: u32,
    input_status: u8,
    output_status: u8,
    res: u16,
    layer_angle: i16,
    scan_frequency: u32,
    measurement_frequency: u32,
    encoder_data: u16,
}

/// Reads the fifteen fixed-width fields that open a scan-data telegram
/// body.
#[verifier::rlimit(100)]
#[verifier::spinoff_prover]
fn get_lmd_fixed(msg: &Vec<u8>, pos: &mut usize) -> (r: Result<LmdFixed, DecodeError>)
    requires
        *old(pos) <= msg@.len(),
    ensures
        *old(pos) <= *final(pos) <= msg@.len(),
        ({
            let s = msg@.skip(*old(pos) as int);
            match r {
                Ok(f) => s.len() >= 38 && *final(pos) == *old(pos) + 38 && f.version
                    == crate::cola_a::be16(s[0], s[1]) && f.device_number == crate::cola_a::be16(
                    s[2],
                    s[3],
                ) && f.serial_number == crate::cola_a::be32(s[4], s[5], s[6], s[7]) && f.status
                    == crate::cola_a::be16(s[8], s[9]) && f.telegram_counter
                    == crate::cola_a::be16(s[10], s[11]) && f.scan_counter == crate::cola_a::be16(
                    s[12],
                    s[13],
                ) && f.time_since_start == crate::cola_a::be32(s[14], s[15], s[16], s[17])
                    && f.time_of_transmission == crate::cola_a::be32(s[18], s[19], s[20], s[21])
                    && f.input_status == s[22] && f.output_status == s[23] && f.res
                    == crate::cola_a::be16(s[24], s[25]) && f.layer_angle == crate::cola_a::as_i16(
                    crate::cola_a::be16(s[26], s[27]),
                ) && f.scan_frequency == crate::cola_a::be32(s[28], s[29], s[30], s[31])
                    && f.measurement_frequency == crate::cola_a::be32(s[32], s[33], s[34], s[35])
                    && f.encoder_data == crate::cola_a::be16(s[36], s[37]),
                Err(e) => s.len() < 38 && *final(pos) == *old(pos) && parse_lmd(s) == Err::<
                    (CoLaMessagesIncomingV, int),
                    _,
                >(e),
            }
        }),
{
    let ghost p0 = *pos;
    let ghost s = msg@.skip(p0 as int);
    if msg.len() - *pos < 4 {
        return Err(DecodeError::Exhausted(ValueKind::U16));
    }
    if msg.len() - *pos < 8 {
        return Err(DecodeError::Exhausted(ValueKind::U32));
    }
    if msg.len() - *pos < 14 {
        return Err(DecodeError::Exhausted(ValueKind::U16));
    }
    if msg.len() - *pos < 22 {
        return Err(DecodeError::Exhausted(ValueKind::U32));
    }
    if msg.len() - *pos < 24 {
        return Err(DecodeError::Exhausted(ValueKind::U8));
    }
    if msg.len() - *pos < 26 {
        return Err(DecodeError::Exhausted(ValueKind::U16));
    }
    if msg.len() - *pos < 28 {
        return Err(DecodeError::Exhausted(ValueKind::I16));
    }
    if msg.len() - *pos < 36 {
        return Err(DecodeError::Exhausted(ValueKind::U32));
    }
    if msg.len() - *pos < 38 {
        return Err(DecodeError::Exhausted(ValueKind::U16));
    }
    let p = *pos;
    let version: u16 = (msg[p] as u16) * 0x100 + (msg[p + 1] as u16);
    let device_number: u16 = (msg[p + 2] as u16) * 0x100 + (msg[p + 3] as u16);
    let serial_number: u32 = (msg[p + 4] as u32) * 0x1000000 + (msg[p + 5] as u32) * 0x10000 + (
    msg[p + 6] as u32) * 0x100 + (msg[p + 7] as u32);
    let status: u16 = (msg[p + 8] as u16) * 0x100 + (msg[p + 9] as u16);
    let telegram_counter: u16 = (msg[p + 10] as u16) * 0x100 + (msg[p + 11] as u16);
    let scan_counter: u16 = (msg[p + 12] as u16) * 0x100 + (msg[p + 13] as u16);
    let time_since_start: u32 = (msg[p + 14] as u32) * 0x1000000 + (msg[p + 15] as u32) * 0x10000
        + (msg[p + 16] as u32) * 0x100 + (msg[p + 17] as u32);
    let time_of_transmission: u32 = (msg[p + 18] as u32) * 0x1000000 + (msg[p + 19] as u32)
        * 0x10000 + (msg[p + 20] as u32) * 0x100 + (msg[p + 21] as u32);
    let input_status: u8 = msg[p + 22];
    let output_status: u8 = msg[p + 23];
    let res: u16 = (msg[p + 24] as u16) * 0x100 + (msg[p + 25] as u16);
    let la_bits: u16 = (msg[p + 26] as u16) * 0x100 + (msg[p + 27] as u16);
    let layer_angle: i16 = if la_bits < 0x8000 {
        la_bits as i16
    } else {
        ((la_bits as i32) - 0x10000) as i16
    };
    let scan_frequency: u32 = (msg[p + 28] as u32) * 0x1000000 + (msg[p + 29] as u32) * 0x10000 + (
    msg[p + 30] as u32) * 0x100 + (msg[p + 31] as u32);
    let measurement_frequency: u32 = (msg[p + 32] as u32) * 0x1000000 + (msg[p + 33] as u32)
        * 0x10000 + (msg[p + 34] as u32) * 0x100 + (msg[p + 35] as u32);
    let encoder_data: u16 = (msg[p + 36] as u16) * 0x100 + (msg[p + 37] as u16);
    *pos = p + 38;
    Ok(
        LmdFixed {
            version,
            device_number,
            serial_number,
            status,
            telegram_counter,
            scan_counter,
            time_since_start,
            time_of_transmission,
            input_status,
            output_status,
            res,
            layer_angle,
            scan_frequency,
            measurement_frequency,
            encoder_data,
        },
    )
}

/// Reads the body of a scan-data telegram from `msg` starting at `*pos`.
#[verifier::rlimit(100)]
#[verifier::spinoff_prover]
fn get_lmd(msg: &Vec<u8>, pos: &mut usize) -> (r: Result<CoLaMessagesIncoming, DecodeError>)
    requires
        *old(pos) <= msg@.len(),
    ensures
        *old(pos) <= *final(pos) <= msg@.len(),
        match r {
            Ok(v) => parse_lmd(msg@.skip(*old(pos) as int)) == Ok::<_, DecodeError>((
                v@,
                *final(pos) - *old(pos),
            )),
            Err(e) => parse_lmd(msg@.skip(*old(pos) as int)) == Err::<
                (CoLaMessagesIncomingV, int),
                _,
            >(e),
        },
{
    let ghost p0 = *pos;
    let ghost s = msg@.skip(p0 as int);
    let fixed = match get_lmd_fixed(msg, pos) {
        Ok(f) => f,
        Err(e) => {
            return Err(e);
        },
    };
    let ghost p1 = *pos;
    proof {
        assert(s.skip(38) =~= msg@.skip(p1 as int));
    }
    let longdata = match <Vec<CoLaDataChannel<u16>> as CoLaDataType>::get_from_data(msg, pos) {
        Ok(v) => v,
        Err(e) => {
            return Err(e);
        },
    };
    let ghost p2 = *pos;
    proof {
        assert(s.skip(38 + (p2 - p1)) =~= msg@.skip(p2 as int));
    }
    let shortdata = match <Vec<CoLaDataChannel<u8>> as CoLaDataType>::get_from_data(msg, pos) {
        Ok(v) => v,
        Err(e) => {
            return Err(e);
        },
    };
    let ghost p3 = *pos;
    proof {
        assert(s.skip(38 + (p2 - p1) + (p3 - p2)) =~= msg@.skip(p3 as int));
    }
    let position_data = match u16::get_from_data(msg, pos) {
        Ok(v) => v,
        Err(e) => {
            return Err(e);
        },
    };
    Ok(
        CoLaMessagesIncoming::LMDData {
            version: fixed.version,
            device_number: fixed.device_number,
            serial_number: fixed.serial_number,
            status: fixed.status,
            telegram_counter: fixed.telegram_counter,
            scan_counter: fixed.scan_counter,
            time_since_start: fixed.time_since_start,
            time_of_transmission: fixed.time_of_transmission,
            input_status: fixed.input_status,
            output_status: fixed.output_status,
            res: fixed.res,
            layer_angle: fixed.layer_angle,
            scan_frequency: fixed.scan_frequency,
            measurement_frequency: fixed.measurement_frequency,
            encoder_data: fixed.encoder_data,
            longdata,
            shortdata,
            position_data,
        },
    )
}

impl CoLaMessagesIncoming {
    /// Decodes one incoming payload, dispatching on the command name it
    /// announces. The outcome, variant and error alike, is exactly what
    /// [`parse_incoming`] says of the payload.
    pub fn from_raw_message(msg: &Vec<u8>) -> (r: Result<CoLaMessagesIncoming, DecodeError>)
        ensures
            match r {
                Ok(v) => parse_incoming(msg@) matches Ok((pv, _)) && pv == v@,
                Err(e) => parse_incoming(msg@) == Err::<(CoLaMessagesIncomingV, int), _>(e),
            },
    {
        proof {
            assert(msg@.skip(0int) =~= msg@);
        }
        let mut pos: usize = 0;
        let cmd_type = match String::get_from_data(msg, &mut pos) {
            Ok(v) => v,
            Err(e) => {
                return Err(e);
            },
        };
        let ghost p1 = pos;
        proof {
            assert(msg@.skip(0) =~= msg@);
            assert(msg@.skip(p1 as int) =~= msg@.skip(0).skip(p1 as int));
        }
        let cmd = match String::get_from_data(msg, &mut pos) {
            Ok(v) => v,
            Err(e) => {
                return Err(e);
            },
        };
        let ghost p2 = pos;
        proof {
            assert(msg@.skip(p2 as int) =~= msg@.skip(p1 as int).skip((p2 - p1) as int));
        }
        if cmd == String::from_str(ACCESS_MODE) {
            match bool::get_from_data(msg, &mut pos) {
                Ok(accepted) => Ok(CoLaMessagesIncoming::SetAccessMode { accepted }),
                Err(e) => Err(e),
            }
        } else if cmd == String::from_str(LMC_START_MEASUREMENT) {
            match u8::get_from_data(msg, &mut pos) {
                Ok(status) => Ok(CoLaMessagesIncoming::LMCstartmeas { status }),
                Err(e) => Err(e),
            }
        } else if cmd == String::from_str(LMD_SCAN_DATA) {
            match get_lmd(msg, &mut pos) {
                Ok(v) => Ok(v),
                Err(e) => Err(e),
            }
        } else if cmd == String::from_str(RUN) {
            match u8::get_from_data(msg, &mut pos) {
                Ok(status) => Ok(CoLaMessagesIncoming::Run { status }),
                Err(e) => Err(e),
            }
        } else {
            Err(DecodeError::UnknownCommand)
        }
    }

    /// Decodes a payload expected to hold one scan-data telegram: the
    /// command-class string, the command name, which must be the scan-data
    /// name (any other is an unknown command, never a silent default), then
    /// the telegram body.
    pub fn test_data(msg: &Vec<u8>) -> (r: Result<CoLaMessagesIncoming, DecodeError>)
        ensures
            match r {
                Ok(v) => parse_test_data(msg@) matches Ok((pv, _)) && pv == v@,
                Err(e) => parse_test_data(msg@) == Err::<(CoLaMessagesIncomingV, int), _>(e),
            },
    {
        proof {
            assert(msg@.skip(0int) =~= msg@);
        }
        let mut pos: usize = 0;
        let _cmd_type = match String::get_from_data(msg, &mut pos) {
            Ok(v) => v,
            Err(e) => {
                return Err(e);
            },
        };
        let ghost p1 = pos;
        proof {
            assert(msg@.skip(0) =~= msg@);
            assert(msg@.skip(p1 as int) =~= msg@.skip(0).skip(p1 as int));
        }
        let cmd = match String::get_from_data(msg, &mut pos) {
            Ok(v) => v,
            Err(e) => {
                return Err(e);
            },
        };
        let ghost p2 = pos;
        proof {
            assert(msg@.skip(p2 as int) =~= msg@.skip(p1 as int).skip((p2 - p1) as int));
        }
        if cmd == String::from_str(LMD_SCAN_DATA) {
            match get_lmd(msg, &mut pos) {
                Ok(v) => Ok(v),
                Err(e) => Err(e),
            }
        } else {
            Err(DecodeError::UnknownCommand)
        }
    }
}

/// Parses a payload as [`CoLaMessagesIncoming::test_data`] reads it: the
/// command-class string, the command name, then the body of a scan-data
/// telegram. A command name other than the scan-data name is refused as an
/// unknown command.
pub open spec fn parse_test_data(s: Seq<u8>) -> Result<(CoLaMessagesIncomingV, int), DecodeError> {
    match <String as CoLaDataType>::parse(s) {
        Err(e) => Err(e),
        Ok((_cmd_type, k1)) => match <String as CoLaDataType>::parse(s.skip(k1)) {
            Err(e) => Err(e),
            Ok((cmd, k2)) => if cmd == LMD_SCAN_DATA@ {
                match parse_lmd(s.skip(k1 + k2)) {
                    Err(e) => Err(e),
                    Ok((msg, k3)) => Ok((msg, k1 + k2 + k3)),
                }
            } else {
                Err(DecodeError::UnknownCommand)
            },
        },
    }
}

impl CoLaUtil {
    /// Reads one complete CoLa frame buffer into a typed incoming message:
    /// the frame's magic, length and checksum are checked first, and only
    /// then is the payload decoded.
    pub fn read_message(frame: &Vec<u8>) -> (r: Result<CoLaMessagesIncoming, MessageError>)
        ensures
            match r {
                Ok(v) => parse_frame_spec(frame@) matches Ok(payload) && (parse_incoming(payload)
                    matches Ok((pv, _)) && pv == v@),
                Err(MessageError::Frame(e)) => parse_frame_spec(frame@) == Err::<Seq<u8>, _>(e),
                Err(MessageError::Decode(e)) => parse_frame_spec(frame@) matches Ok(payload)
                    && parse_incoming(payload) == Err::<(CoLaMessagesIncomingV, int), _>(e),
            },
    {
        let payload = match CoLaUtil::parse_frame(frame) {
            Ok(p) => p,
            Err(e) => {
                return Err(MessageError::Frame(e));
            },
        };
        match CoLaMessagesIncoming::from_raw_message(&payload) {
            Ok(v) => Ok(v),
            Err(e) => Err(MessageError::Decode(e)),
        }
    }
}

/// Dispatch is closed: a payload whose command name is none of the
/// registered ones is refused as an unknown command, whatever follows the
/// name.
pub proof fn lemma_unknown_command_rejected(s: Seq<u8>)
    ensures
        match <String as CoLaDataType>::parse(s) {
            Ok((_, k1)) => match <String as CoLaDataType>::parse(s.skip(k1)) {
                Ok((cmd, _)) => (cmd != ACCESS_MODE@ && cmd != LMC_START_MEASUREMENT@ && cmd
                    != LMD_SCAN_DATA@ && cmd != RUN@) ==> parse_incoming(s) == Err::<
                    (CoLaMessagesIncomingV, int),
                    _,
                >(DecodeError::UnknownCommand),
                Err(_) => true,
            },
            Err(_) => true,
        },
{
}

} // verus!
