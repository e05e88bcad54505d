//! The per-device command capability model.
//!
//! Each outgoing command may only be issued by certain device models. The
//! permission table is the spec function [`spec_permits`]; a command can be
//! addressed to a device only through [`DeviceCommand::new`], which fails at
//! construction time for any pairing outside the table, so no restricted
//! command ever reaches the wire through the wrong device.

use vstd::prelude::*;

use crate::cola_a::ColaMessageRaw;
use crate::messages::{raw_message_of, CoLaMessages};

verus! {

/// The scanner models this crate knows.
#[derive(Clone, Copy, Debug, PartialEq, Eq, Structural)]
pub enum DeviceModel {
    LMS1xx,
    LMS5xx,
    TiM2xx,
    TiM5xx,
    TiM7xx,
    NAV310,
    LDOEM15xx,
    LDLRS36xx,
    MRS1000,
    LMS1000,
    MRS6000,
    LMS4000,
    LRS4000,
    Multiscan,
}

/// The capability table: whether a device model may issue a command.
pub open spec fn spec_permits(device: DeviceModel, message: CoLaMessages) -> bool {
    match message {
        CoLaMessages::SetAccessMode { .. } => true,
        CoLaMessages::LmpSetScanCfgOutgoing { .. } => device == DeviceModel::LMS1xx || device
            == DeviceModel::LMS5xx || device == DeviceModel::NAV310 || device
            == DeviceModel::LDOEM15xx || device == DeviceModel::LDLRS36xx || device
            == DeviceModel::MRS1000 || device == DeviceModel::LMS1000,
        CoLaMessages::LMCStartMeasurement => device == DeviceModel::LMS1xx || device
            == DeviceModel::LMS5xx || device == DeviceModel::MRS1000 || device
            == DeviceModel::LMS1000 || device == DeviceModel::LMS4000 || device
            == DeviceModel::LRS4000,
        CoLaMessages::PollOneTelegram => true,
        CoLaMessages::Run => device == DeviceModel::MRS1000,
    }
}

/// Why a command could not be addressed to a device.
#[derive(Clone, Copy, Debug, PartialEq, Eq, Structural)]
pub enum CapabilityError {
    /// The device model is outside the command's capability set.
    NotPermitted,
}

/// A command already addressed to a device that is entitled to issue it.
/// Values of this type exist only for pairings the capability table allows.
pub struct DeviceCommand {
    device: DeviceModel,
    message: CoLaMessages,
}

impl DeviceCommand {
    /// The device this command is addressed to.
    pub closed spec fn spec_device(&self) -> DeviceModel {
        self.device
    }

    /// The command itself.
    pub closed spec fn spec_message(&self) -> CoLaMessages {
        self.message
    }

    /// Every value of this type pairs a command with a device entitled to
    /// issue it.
    #[verifier::type_invariant]
    pub closed spec fn wf(&self) -> bool {
        spec_permits(self.device, self.message)
    }

    /// Whether a device model may issue a command, by the capability table.
    pub fn permits(device: DeviceModel, message: CoLaMessages) -> (r: bool)
        ensures
            r == spec_permits(device, message),
    {
        match message {
            CoLaMessages::SetAccessMode { .. } => true,
            CoLaMessages::LmpSetScanCfgOutgoing { .. } => device == DeviceModel::LMS1xx || device
                == DeviceModel::LMS5xx || device == DeviceModel::NAV310 || device
                == DeviceModel::LDOEM15xx || device == DeviceModel::LDLRS36xx || device
                == DeviceModel::MRS1000 || device == DeviceModel::LMS1000,
            CoLaMessages::LMCStartMeasurement => device == DeviceModel::LMS1xx || device
                == DeviceModel::LMS5xx || device == DeviceModel::MRS1000 || device
                == DeviceModel::LMS1000 || device == DeviceModel::LMS4000 || device
                == DeviceModel::LRS4000,
            CoLaMessages::PollOneTelegram => true,
            CoLaMessages::Run => device == DeviceModel::MRS1000,
        }
    }

    /// Addresses a command to a device. This succeeds exactly when the
    /// capability table permits the pairing; a device outside the command's
    /// capability set is refused here, before anything reaches the wire.
    pub fn new(device: DeviceModel, message: CoLaMessages) -> (r: Result<
        DeviceCommand,
        CapabilityError,
    >)
        ensures
            r is Ok <==> spec_permits(device, message),
            r matches Ok(c) ==> c.spec_device() == device && c.spec_message() == message,
            r is Err ==> r == Err::<DeviceCommand, _>(CapabilityError::NotPermitted),
    {
        if DeviceCommand::permits(device, message) {
            Ok(DeviceCommand { device, message })
        } else {
            Err(CapabilityError::NotPermitted)
        }
    }

    /// The device this command is addressed to.
    pub fn device(&self) -> (r: DeviceModel)
        ensures
            r == self.spec_device(),
    {
        self.device
    }

    /// The command itself.
    pub fn message(&self) -> (r: CoLaMessages)
        ensures
            r == self.spec_message(),
    {
        self.message
    }

    /// Serializes the command, exactly as [`CoLaMessages::to_raw_message`]
    /// does; the device was already checked when this value was made.
    pub fn to_raw_message(&self) -> (r: Option<ColaMessageRaw>)
        ensures
            match raw_message_of(self.spec_message()) {
                Some(b) => r matches Some(v) && v@ == b,
                None => r is None,
            },
    {
        self.message.to_raw_message()
    }
}

} // verus!
