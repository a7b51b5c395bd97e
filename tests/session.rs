use adb_debloater::catalog::{search, Probe};
use adb_debloater::session::{
    backup_file_name, critical_among, join_address, Connection, PairingResult, Session,
};

#[test]
fn new_session_is_disconnected() {
    let s = Session::new();
    assert_eq!(s.connection, Connection::Disconnected);
    assert_eq!(s.device, "");
    assert!(s.packages.is_empty());
    assert!(s.require_device().is_err());
}

#[test]
fn refresh_without_device_disconnects() {
    let mut s = Session::new();
    s.connect_wireless("10.0.0.2", "5555", true);
    assert_eq!(s.connection, Connection::WirelessConnected);
    let found = s.refresh("List of devices attached\nABC\tunauthorized\n\n");
    assert!(!found);
    assert_eq!(s.connection, Connection::Disconnected);
    assert_eq!(s.device, "");
}

#[test]
fn refresh_usb_and_wireless() {
    let mut s = Session::new();
    assert!(s.refresh("List of devices attached\nR58M123\tdevice\n"));
    assert_eq!(s.connection, Connection::UsbConnected);
    assert_eq!(s.device, "R58M123");
    assert!(s.can_enable_wireless());
    assert!(s.require_device().is_ok());
    assert!(s.refresh("List of devices attached\n192.168.0.7:5555\tdevice\n"));
    assert_eq!(s.connection, Connection::WirelessConnected);
    assert_eq!(s.device, "192.168.0.7:5555");
    assert!(!s.can_enable_wireless());
}

#[test]
fn connect_failure_leaves_state() {
    let mut s = Session::new();
    s.refresh("List of devices attached\nUSB1\tdevice\n");
    s.connect_wireless("10.0.0.2", "5555", false);
    assert_eq!(s.connection, Connection::UsbConnected);
    assert_eq!(s.device, "USB1");
    s.connect_wireless("10.0.0.2", "5555", true);
    assert_eq!(s.connection, Connection::WirelessConnected);
    assert_eq!(s.device, "10.0.0.2:5555");
}

#[test]
fn pairing_stages() {
    let mut s = Session::new();
    assert_eq!(s.pair_and_connect("10.0.0.3", "40000", false, true), PairingResult::PairingFailed);
    assert_eq!(s.connection, Connection::Disconnected);
    assert_eq!(s.pair_and_connect("10.0.0.3", "40000", true, false), PairingResult::ConnectFailed);
    assert_eq!(s.connection, Connection::Disconnected);
    assert_eq!(s.pair_and_connect("10.0.0.3", "40000", true, true), PairingResult::Connected);
    assert_eq!(s.connection, Connection::WirelessConnected);
    assert_eq!(s.device, "10.0.0.3:40000");
}

#[test]
fn disconnect_only_when_wireless() {
    let mut s = Session::new();
    s.refresh("List of devices attached\nUSB1\tdevice\n");
    assert_eq!(s.disconnect_wireless(), None);
    assert_eq!(s.connection, Connection::UsbConnected);
    s.connect_wireless("10.0.0.2", "5555", true);
    assert_eq!(s.disconnect_wireless(), Some("10.0.0.2:5555".to_string()));
    assert_eq!(s.connection, Connection::Disconnected);
    assert_eq!(s.device, "");
}

#[test]
fn address_joined_with_colon() {
    assert_eq!(join_address("192.168.1.4", "5555"), "192.168.1.4:5555");
    assert_eq!(join_address("", ""), ":");
}

#[test]
fn selection_operations() {
    let mut s = Session::new();
    s.load_system_packages("package:c\npackage:a\npackage:b\n");
    s.toggle_selection(1);
    assert!(s.packages[1].is_selected);
    assert_eq!(s.selected_names(), vec!["b"]);
    s.toggle_selection(1);
    assert!(s.selected_names().is_empty());
    s.select_all();
    assert_eq!(s.selected_names(), vec!["a", "b", "c"]);
    s.deselect_all();
    assert!(s.packages.iter().all(|p| !p.is_selected));
}

#[test]
fn scan_replaces_catalog_without_duplicates() {
    let mut s = Session::new();
    s.load_system_packages("package:x.y\n");
    let probe = |n: &str, o: &str| Probe { name: n.to_string(), output: o.to_string() };
    let probes = vec![
        probe("com.facebook.katana", "package:com.facebook.katana"),
        probe("com.facebook.katana", "package:com.facebook.katana"),
        probe("com.netflix.mediaclient", ""),
    ];
    s.scan_known_bloatware(&probes);
    let names: Vec<&str> = s.packages.iter().map(|p| p.name.as_str()).collect();
    assert_eq!(names, vec!["com.facebook.katana"]);
}

#[test]
fn search_leaves_catalog_alone() {
    let mut s = Session::new();
    s.load_system_packages("package:com.android.settings\npackage:com.android.phone\n");
    s.toggle_selection(0);
    let hits = search("package:com.spotify.music\npackage:com.android.phone\n", "spotify");
    assert_eq!(hits.len(), 1);
    assert_eq!(hits[0].name, "com.spotify.music");
    let names: Vec<&str> = s.packages.iter().map(|p| p.name.as_str()).collect();
    assert_eq!(names, vec!["com.android.phone", "com.android.settings"]);
    assert!(s.packages[0].is_selected);
}

#[test]
fn matching_indices_filter_view() {
    let mut s = Session::new();
    s.load_system_packages("package:com.google.maps\npackage:com.android.egg\npackage:com.Google.docs\n");
    // sorted: com.Google.docs, com.android.egg, com.google.maps
    assert_eq!(s.matching_indices("GOOGLE"), vec![0, 2]);
    assert!(s.matching_indices("nothing").is_empty());
}

#[test]
fn critical_gate_lists_critical_names() {
    let names = vec![
        "com.facebook.katana".to_string(),
        "com.android.phone".to_string(),
        "com.google.android.gms".to_string(),
    ];
    assert_eq!(critical_among(&names), vec!["com.android.phone", "com.google.android.gms"]);
    assert!(critical_among(&vec!["com.spotify.music".to_string()]).is_empty());
}

#[test]
fn backup_snapshot() {
    let mut s = Session::new();
    assert!(s.backup("20240101_120000").is_none());
    s.load_system_packages("package:b\npackage:a\n");
    let b = s.backup("20240101_120000").unwrap();
    assert_eq!(b.timestamp, "20240101_120000");
    assert_eq!(b.packages, vec!["a", "b"]);
    assert_eq!(backup_file_name("20240101_120000"), "backup_20240101_120000.json");
}
