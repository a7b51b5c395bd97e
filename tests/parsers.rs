use adb_debloater::parse::{
    extract_ip, first_device, parse_devices, parse_package_names, DeviceKind,
};

#[test]
fn devices_skip_header_and_classify() {
    let out = "List of devices attached\nR58M123ABC\tdevice\n192.168.1.5:5555\tdevice\nemulator-5554\toffline\n\n";
    let ds = parse_devices(out);
    assert_eq!(ds.len(), 2);
    assert_eq!(ds[0].identifier, "R58M123ABC");
    assert_eq!(ds[0].kind, DeviceKind::Usb);
    assert_eq!(ds[0].line, "R58M123ABC\tdevice");
    assert_eq!(ds[1].identifier, "192.168.1.5:5555");
    assert_eq!(ds[1].kind, DeviceKind::Wireless);
}

#[test]
fn devices_first_line_never_counts() {
    let out = "R58M123ABC\tdevice\n";
    assert!(parse_devices(out).is_empty());
    assert!(first_device(out).is_none());
}

#[test]
fn devices_with_crlf_line_ends() {
    let out = "List of devices attached\r\nABC123\tdevice\r\n";
    let d = first_device(out).unwrap();
    assert_eq!(d.identifier, "ABC123");
    assert_eq!(d.line, "ABC123\tdevice");
}

#[test]
fn devices_none_when_only_unauthorized() {
    let out = "List of devices attached\nABC123\tunauthorized\nXYZ\toffline\n";
    assert!(parse_devices(out).is_empty());
    assert!(first_device(out).is_none());
}

#[test]
fn first_device_is_first_listed() {
    let out = "List of devices attached\n10.0.0.2:5555\tdevice\nUSB1\tdevice\n";
    let d = first_device(out).unwrap();
    assert_eq!(d.identifier, "10.0.0.2:5555");
    assert_eq!(d.kind, DeviceKind::Wireless);
}

#[test]
fn package_names_strip_prefix_verbatim() {
    let out = "package:com.android.settings\nnoise line\npackage: spaced.name \npackage:com.facebook.katana";
    let names = parse_package_names(out);
    assert_eq!(names, vec!["com.android.settings", " spaced.name ", "com.facebook.katana"]);
}

#[test]
fn package_names_round_trip() {
    let out = "header\npackage:a.b\nxpackage:c\npackage:d.e\n";
    let names = parse_package_names(out);
    let rebuilt: Vec<String> = names.iter().map(|n| format!("package:{}", n)).collect();
    let filtered: Vec<&str> = out.lines().filter(|l| l.starts_with("package:")).collect();
    assert_eq!(rebuilt, filtered);
}

#[test]
fn package_names_empty_input() {
    assert!(parse_package_names("").is_empty());
    assert!(parse_package_names("no packages here\n").is_empty());
}

#[test]
fn ip_skips_inet6_and_strips_mask() {
    let out = "3: wlan0: <BROADCAST,MULTICAST,UP> mtu 1500\n    inet6 fe80::1/64 scope link\n    inet 192.168.1.42/24 brd 192.168.1.255 scope global wlan0\n";
    assert_eq!(extract_ip(out), Some("192.168.1.42".to_string()));
}

#[test]
fn ip_skips_loopback() {
    let out = "    inet 127.0.0.1/8 scope host lo\n    inet 10.1.2.3/16 scope global wlan0\n";
    assert_eq!(extract_ip(out), Some("10.1.2.3".to_string()));
}

#[test]
fn ip_without_mask() {
    assert_eq!(extract_ip("inet 172.16.0.9 peer"), Some("172.16.0.9".to_string()));
}

#[test]
fn ip_absent() {
    assert_eq!(extract_ip(""), None);
    assert_eq!(extract_ip("    inet6 fe80::1/64 scope link\n"), None);
    assert_eq!(extract_ip("link/ether 00:11:22:33:44:55\n"), None);
}

#[test]
fn ip_line_without_argument_is_passed_over() {
    let out = "xinet 1.2.3.4 inet\n inet 5.6.7.8/24\n";
    assert_eq!(extract_ip(out), Some("5.6.7.8".to_string()));
}
