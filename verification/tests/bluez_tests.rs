use bluetty::app::App;
use bluetty::bluez::device::{device_info, peer_info, DeviceError};
use bluetty::bluez::profile::{registration_options, ProfileOptionValue};
use bluetty::config::Config;

#[test]
fn device_info_from_properties() {
    let info = device_info(
        Some("AA:BB".to_string()),
        Some("Phone".to_string()),
        Some(true),
        Some(false),
    )
    .unwrap();
    assert_eq!(info.address, "AA:BB");
    assert_eq!(info.name, "Phone");
    assert!(info.paired);
    assert!(!info.trusted);
    let p = peer_info("/org/bluez/hci0/dev_AA_BB".to_string(), &info);
    assert_eq!(p.device_path, "/org/bluez/hci0/dev_AA_BB");
    assert_eq!(p.address, "AA:BB");
    assert_eq!(p.name, "Phone");
}

#[test]
fn device_name_falls_back_to_unknown() {
    let info = device_info(Some("AA".to_string()), None, Some(false), Some(false)).unwrap();
    assert_eq!(info.name, "unknown");
}

#[test]
fn device_info_errors_in_order() {
    assert_eq!(
        device_info(None, None, None, None).unwrap_err(),
        DeviceError::AddressNotString
    );
    assert_eq!(
        device_info(Some("A".to_string()), None, None, None).unwrap_err(),
        DeviceError::PairedNotBool
    );
    assert_eq!(
        device_info(Some("A".to_string()), None, Some(true), None).unwrap_err(),
        DeviceError::TrustedNotBool
    );
}

#[test]
fn profile_options_from_config() {
    let mut c = Config::default().bluez;
    c.require_authorization = true;
    let opts = registration_options(&c);
    assert_eq!(opts.len(), 3);
    assert_eq!(opts[0].key, "Name");
    match &opts[0].value {
        ProfileOptionValue::Text(s) => assert_eq!(s, "SPP Getty"),
        other => panic!("{other:?}"),
    }
    assert_eq!(opts[1].key, "RequireAuthentication");
    assert!(matches!(opts[1].value, ProfileOptionValue::Flag(false)));
    assert_eq!(opts[2].key, "RequireAuthorization");
    assert!(matches!(opts[2].value, ProfileOptionValue::Flag(true)));
}

#[test]
fn app_keeps_config() {
    let app = App::new(Config::default());
    assert_eq!(app.config().bluez.profile_name, "SPP Getty");
}
