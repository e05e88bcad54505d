use scanproto::devices::{CapabilityError, DeviceCommand, DeviceModel};
use scanproto::messages::CoLaMessages;

#[test]
fn run_is_restricted_to_one_model() {
    let ok = DeviceCommand::new(DeviceModel::MRS1000, CoLaMessages::Run);
    assert!(ok.is_ok());
    let cmd = ok.unwrap();
    assert_eq!(cmd.device(), DeviceModel::MRS1000);
    assert_eq!(cmd.message(), CoLaMessages::Run);
    assert_eq!(cmd.to_raw_message().unwrap(), b"sMN Run ".to_vec());

    assert!(matches!(
        DeviceCommand::new(DeviceModel::LMS1xx, CoLaMessages::Run),
        Err(CapabilityError::NotPermitted)
    ));
    assert!(matches!(
        DeviceCommand::new(DeviceModel::Multiscan, CoLaMessages::Run),
        Err(CapabilityError::NotPermitted)
    ));
}

#[test]
fn polling_is_open_to_every_model() {
    let all = [
        DeviceModel::LMS1xx,
        DeviceModel::LMS5xx,
        DeviceModel::TiM2xx,
        DeviceModel::TiM5xx,
        DeviceModel::TiM7xx,
        DeviceModel::NAV310,
        DeviceModel::LDOEM15xx,
        DeviceModel::LDLRS36xx,
        DeviceModel::MRS1000,
        DeviceModel::LMS1000,
        DeviceModel::MRS6000,
        DeviceModel::LMS4000,
        DeviceModel::LRS4000,
        DeviceModel::Multiscan,
    ];
    for d in all {
        assert!(DeviceCommand::new(d, CoLaMessages::PollOneTelegram).is_ok());
        assert!(DeviceCommand::new(
            d,
            CoLaMessages::SetAccessMode { user_level: 3, password: 0 }
        )
        .is_ok());
    }
}

#[test]
fn start_measurement_capability_set() {
    let permitted = [
        DeviceModel::LMS1xx,
        DeviceModel::LMS5xx,
        DeviceModel::MRS1000,
        DeviceModel::LMS1000,
        DeviceModel::LMS4000,
        DeviceModel::LRS4000,
    ];
    for d in permitted {
        assert!(DeviceCommand::permits(d, CoLaMessages::LMCStartMeasurement));
    }
    let refused = [
        DeviceModel::TiM2xx,
        DeviceModel::TiM5xx,
        DeviceModel::TiM7xx,
        DeviceModel::NAV310,
        DeviceModel::LDOEM15xx,
        DeviceModel::LDLRS36xx,
        DeviceModel::MRS6000,
        DeviceModel::Multiscan,
    ];
    for d in refused {
        assert!(!DeviceCommand::permits(d, CoLaMessages::LMCStartMeasurement));
        assert!(DeviceCommand::new(d, CoLaMessages::LMCStartMeasurement).is_err());
    }
}
