//! Protocol engines for industrial laser-scanning sensors.
//!
//! Two binary wire formats are covered: a compact, length-chained telegram
//! stream carrying distance and IMU scan data, and the CoLa command/response
//! protocol used to configure a sensor, with its framing, checksum, typed
//! field codec and per-device command capabilities. All decoding here works
//! on plain byte buffers; the sockets that fill those buffers live with the
//! caller.

use vstd::prelude::*;

pub mod cola_a;
pub mod cola_datatypes;
pub mod cola_messages;
pub mod compact;
pub mod devices;
pub mod messages;
pub mod storage;

verus! {

/// The kind of wire value a decoder was working on when it failed.
#[derive(Clone, Copy, Debug, PartialEq, Eq)]
pub enum ValueKind {
    Bool,
    U8,
    U16,
    U32,
    U64,
    I8,
    I16,
    I32,
    F32,
    Text,
    List,
    Optional,
    ChannelType,
}

/// Why a payload could not be decoded into typed values.
#[derive(Clone, Copy, Debug, PartialEq, Eq)]
pub enum DecodeError {
    /// The buffer ran out while reading a value of the named kind.
    Exhausted(ValueKind),
    /// The bytes of a text value are not valid UTF-8.
    InvalidUtf8,
    /// An optional value carried a control code other than 0 or 1.
    InvalidControlCode(u16),
    /// A data channel announced a type tag that no channel kind uses.
    UnknownChannelType(u32, u8),
    /// An incoming message named a command with no registered decoder.
    UnknownCommand,
    /// A compact telegram did not start with the fixed magic value.
    BadMagic(u32),
    /// A compact telegram announced a message type besides distance and IMU.
    UnknownMessageType(u32),
}

/// Why a byte buffer could not be accepted as one CoLa frame.
#[derive(Clone, Copy, Debug, PartialEq, Eq)]
pub enum FrameError {
    /// Fewer bytes than the fixed frame prefix.
    TooShort,
    /// The frame did not start with the fixed magic value.
    BadMagic,
    /// The announced payload length does not match the bytes present.
    LengthMismatch,
    /// The trailing checksum byte is not the XOR of the payload bytes.
    BadChecksum,
}

/// Why a full message read failed: at the framing layer or while decoding
/// the payload fields.
#[derive(Clone, Copy, Debug, PartialEq, Eq)]
pub enum MessageError {
    Frame(FrameError),
    Decode(DecodeError),
}

} // verus!
