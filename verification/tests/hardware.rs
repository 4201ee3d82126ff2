use hope::detection::{event_from_device, parse_lsusb_output};
use hope::drivers::{builtin_drivers, driver_installed_notification, install_result, is_module_listed, CommandOutcome, DriverError};

#[test]
fn lsusb_id_field() {
    let out = "Bus 001 Device 002: ID 8087:0A2A Intel Corp. Wireless-AC 9260\r\nBus 002 Device 001: ID 1d6b:0003 Linux Foundation 3.0 root hub\na b 8087:0a2a rest\nBus 003 Device 004: ID foo:bar\nBus 003 Device 005: ID 12345:678\nBus 003 Device 006: ID\nshort\n";
    let events = parse_lsusb_output(out);
    assert_eq!(events.len(), 2);
    assert_eq!(events[0].vendor_id, "8087");
    assert_eq!(events[0].product_id, "0a2a");
    assert_eq!(events[0].action, "add");
    assert_eq!(events[0].subsystem, "usb");
    assert!(events[0].sysfs_path.is_none());
    assert!(events[0].devname.is_none());
    assert_eq!((events[1].vendor_id.as_str(), events[1].product_id.as_str()), ("1d6b", "0003"));
    assert!(parse_lsusb_output("").is_empty());
    assert!(parse_lsusb_output("p q :").is_empty());
    let one = parse_lsusb_output("Bus 001 Device 002: ID 8087:0a2a Intel Corp. Wireless-AC 9260");
    assert_eq!(one.len(), 1);
    assert_eq!((one[0].vendor_id.as_str(), one[0].product_id.as_str()), ("8087", "0a2a"));
}

#[test]
fn device_fields() {
    let e = event_from_device(Some("add".into()), Some("usb".into()), None, Some("0129".into()), None, Some("/dev/x".into())).unwrap();
    assert_eq!((e.vendor_id.as_str(), e.product_id.as_str()), ("0000", "0129"));
    assert!(event_from_device(None, Some("usb".into()), None, None, None, None).is_none());
}

#[test]
fn builtin_table() {
    let d = builtin_drivers();
    assert_eq!(d.len(), 14);
    assert_eq!(d[0].name, "Intel Graphics");
    assert_eq!(d[0].kernel_module.as_deref(), Some("i915"));
    assert!(d[0].needs_firmware);
    assert_eq!(d[7].kernel_module, None);
    assert_eq!(d[13].product_id, "76ad");
}

#[test]
fn module_install_outcomes() {
    assert!(install_result(None).is_ok());
    assert!(install_result(Some(CommandOutcome::Finished { success: true, stderr: String::new() })).is_ok());
    match install_result(Some(CommandOutcome::Finished { success: false, stderr: "boom".into() })) {
        Err(DriverError::InstallFailed(m)) => assert_eq!(m, "boom"),
        other => panic!("unexpected {:?}", other),
    }
    match install_result(Some(CommandOutcome::NotStarted("missing".into()))) {
        Err(DriverError::InstallFailed(m)) => assert_eq!(m, "missing"),
        other => panic!("unexpected {:?}", other),
    }
}

#[test]
fn lsmod_listing() {
    let out = "Module Size Used\niwlwifi 1 0\nbtusb 2 0\n".to_string();
    assert!(is_module_listed(Some(out.clone()), "btusb"));
    assert!(is_module_listed(Some(out.clone()), "iwlwifi"));
    assert!(!is_module_listed(Some(out.clone()), "iwl"));
    assert!(!is_module_listed(Some(out.clone()), ""));
    assert!(is_module_listed(Some("  snd_hda 4 1\n".to_string()), "snd_hda"));
    assert!(!is_module_listed(Some(out), "i915"));
    assert!(!is_module_listed(None, "btusb"));
}

#[test]
fn installed_notification() {
    let info = builtin_drivers().remove(3);
    let n = driver_installed_notification(&info);
    assert_eq!(n.title, "Driver installed");
    assert_eq!(n.body, "Intel Wi-Fi is now active");
    assert!(n.validate().is_ok());
}

#[test]
fn driver_error_messages() {
    assert_eq!(DriverError::InstallFailed("no such module".into()).message(), "Installation failed: no such module");
    assert_eq!(DriverError::PackageNotFound("fw".into()).message(), "Package not found: fw");
    assert_eq!(DriverError::PermissionDenied.message(), "Permission denied");
}
