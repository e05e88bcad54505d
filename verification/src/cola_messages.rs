//! Typed records for the CoLa command set: one outgoing and one incoming
//! record per command, with the payload each direction carries.
//!
//! These records name every command the protocol subset covers, whichever
//! device issues it; which device models may issue each command is the
//! capability table in [`crate::devices`]. The commands this crate
//! serializes and decodes today travel through [`crate::messages`].

use vstd::prelude::*;

use crate::cola_datatypes::{
    ActiveApplication, AlignmentModeLayer, CoLaFrequency, LMCError, LmpScanCfgError, LmpSectors,
};

verus! {

/// Answer to a login request: whether it was accepted.
#[derive(Clone, Copy, Debug, PartialEq, Eq, Structural)]
pub struct SetAccessModeIncoming {
    pub accepted: bool,
}

/// Log in at a user level with a password.
#[derive(Clone, Copy, Debug, PartialEq, Eq, Structural)]
pub struct SetAccessModeOutgoing {
    pub user_level: i8,
    pub password: u32,
}

/// Request a new scan frequency and sector layout.
#[derive(Clone, Copy, Debug, PartialEq, Eq)]
pub struct LmpSetScanCfgOutgoing {
    pub freq: CoLaFrequency,
    pub sectors: LmpSectors,
}

/// Answer to a scan-configuration request: the outcome and the layout now in
/// force.
#[derive(Clone, Copy, Debug, PartialEq, Eq)]
pub struct LmpSetScanCfgIncoming {
    pub status: LmpScanCfgError,
    pub freq: CoLaFrequency,
    pub sectors: LmpSectors,
}

/// Read the scan configuration.
#[derive(Clone, Copy, Debug, PartialEq, Eq, Structural)]
pub struct LmpScanCfgOutgoing;

/// The scan configuration a sensor reports.
#[derive(Clone, Copy, Debug, PartialEq, Eq)]
pub struct LmpScanCfgIncoming {
    pub freq: CoLaFrequency,
    pub sectors: LmpSectors,
}

/// Put one layer into alignment mode.
#[derive(Clone, Copy, Debug, PartialEq, Eq, Structural)]
pub struct MMAlignmentModeOutgoing {
    pub layer: AlignmentModeLayer,
}

/// Answer to an alignment-mode request.
#[derive(Clone, Copy, Debug, PartialEq, Eq, Structural)]
pub struct MMAlignmentModeIncoming;

/// Select an entry of the fixed scan-configuration list.
#[derive(Clone, Copy, Debug, PartialEq, Eq, Structural)]
pub struct MClSetScanCfgListOutgoing {
    pub interlace_mode: u8,
}

/// Answer to a scan-configuration-list selection.
#[derive(Clone, Copy, Debug, PartialEq, Eq, Structural)]
pub struct MCLsetscancfglistIncoming {
    pub err: LmpScanCfgError,
}

/// Put the sensor into standby.
#[derive(Clone, Copy, Debug, PartialEq, Eq, Structural)]
pub struct LmcStandbyOutgoing;

/// Answer to a standby request.
#[derive(Clone, Copy, Debug, PartialEq, Eq, Structural)]
pub struct LmcStandbyIncoming {
    pub error: LMCError,
}

/// Start continuous measurement.
#[derive(Clone, Copy, Debug, PartialEq, Eq, Structural)]
pub struct LMCStartMeasurementOutgoing;

/// Answer to a start-measurement request.
#[derive(Clone, Copy, Debug, PartialEq, Eq, Structural)]
pub struct LMCStartMeasurementIncoming {
    pub err: LMCError,
}

/// Stop continuous measurement.
#[derive(Clone, Copy, Debug, PartialEq, Eq, Structural)]
pub struct LMCStopMeasurementOutgoing;

/// Answer to a stop-measurement request.
#[derive(Clone, Copy, Debug, PartialEq, Eq, Structural)]
pub struct LMCStopMeasurementIncoming {
    pub err: LMCError,
}

/// Turn automatic measurement at power-on on or off.
#[derive(Clone, Copy, Debug, PartialEq, Eq, Structural)]
pub struct LMPAutoStartMeasurementOutgoing {
    pub enable: bool,
}

/// Answer to an automatic-measurement setting.
#[derive(Clone, Copy, Debug, PartialEq, Eq, Structural)]
pub struct LMPAutoStartMeasurementIncoming;

/// Configure the laser trigger and its timing.
#[derive(Clone, Copy, Debug, PartialEq, Eq, Structural)]
pub struct LaserControlOutgoing {
    pub trigger: u8,
    pub delay_on_start: u16,
    pub delay_on_stop: u16,
    pub timeout: u16,
    pub settings_res: u8,
}

/// Answer to a laser-control setting.
#[derive(Clone, Copy, Debug, PartialEq, Eq, Structural)]
pub struct LaserControlIncoming;

/// Turn the field application on or off.
#[derive(Clone, Copy, Debug, PartialEq, Eq, Structural)]
pub struct FieldApplicationEnableOutgoing {
    pub mode: u16,
}

/// Answer to a field-application setting.
#[derive(Clone, Copy, Debug, PartialEq, Eq, Structural)]
pub struct FieldApplicationEnableIncoming;

/// Turn one application on or off.
#[derive(Clone, Copy, Debug, PartialEq, Eq, Structural)]
pub struct SetActiveApplicationsOutgoing {
    pub id: ActiveApplication,
    pub enable: bool,
}

/// Answer to an application setting.
#[derive(Clone, Copy, Debug, PartialEq, Eq, Structural)]
pub struct SetActiveApplicationsIncoming;

/// Read which applications are active.
#[derive(Clone, Copy, Debug, PartialEq, Eq, Structural)]
pub struct ReadActiveApplications;

/// Set the password of a user level.
#[derive(Clone, Copy, Debug, PartialEq, Eq, Structural)]
pub struct SetPasswordOutgoing {
    pub user_level: i8,
    pub password: u32,
}

/// Answer to a password change.
#[derive(Clone, Copy, Debug, PartialEq, Eq, Structural)]
pub struct SetPasswordIncoming {
    pub success: bool,
}

/// Check the password of a user level.
#[derive(Clone, Copy, Debug, PartialEq, Eq, Structural)]
pub struct CheckPasswordOutgoing {
    pub user_level: i8,
    pub password: u32,
}

/// Answer to a password check.
#[derive(Clone, Copy, Debug, PartialEq, Eq, Structural)]
pub struct CheckPasswordIncoming {
    pub success: bool,
}

/// Reboot the device; the same record serves as its own answer.
#[derive(Clone, Copy, Debug, PartialEq, Eq, Structural)]
pub struct RebootDeviceBidirectional;

/// How aggressively contamination is reported.
#[derive(Clone, Copy, Debug, PartialEq, Eq, Structural)]
pub enum ContaminationStrategy {
    Inactive,
    HighAvailable,
    Available,
    Sensitive,
    SemiSensitive,
}

/// Configure contamination measurement.
#[derive(Clone, Copy, Debug, PartialEq, Eq, Structural)]
pub struct SetContaminationSettingsOutgoing {
    pub strategy: ContaminationStrategy,
    pub response_time: u16,
    pub threshold: u16,
    pub threshold_error: u16,
}

/// Answer to a contamination setting.
#[derive(Clone, Copy, Debug, PartialEq, Eq, Structural)]
pub struct SetContaminationSettingsIncoming;

} // verus!
