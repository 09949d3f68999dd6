use scanbro::scanner::{HostAddr, ScannerInfo, Transport, TransportPref};
use scanbro::status::{FeederKind, ScannerStatus};

fn wifi(name: &str, ip: HostAddr, port: u16, service: &str) -> ScannerInfo {
    ScannerInfo {
        name: name.to_string(),
        hostname: "host".to_string(),
        ip,
        port,
        escl_root: "/eSCL/".to_string(),
        service_type: service.to_string(),
        via: Transport::Wifi,
        sane_device: None,
    }
}

fn usb(name: &str, device: Option<&str>, port: u16) -> ScannerInfo {
    ScannerInfo {
        name: name.to_string(),
        hostname: "usb".to_string(),
        ip: HostAddr::V4(127, 0, 0, 1),
        port,
        escl_root: "eSCL".to_string(),
        service_type: "usb".to_string(),
        via: Transport::Usb,
        sane_device: device.map(str::to_string),
    }
}

fn status(state: &str, adf: &str, reasons: &[&str]) -> ScannerStatus {
    ScannerStatus {
        state: state.to_string(),
        adf_state: adf.to_string(),
        battery_percent: None,
        reasons: reasons.iter().map(|r| r.to_string()).collect(),
    }
}

#[test]
fn transports_have_names() {
    assert_eq!(Transport::Wifi.label(), "Wi-Fi");
    assert_eq!(Transport::Usb.label(), "USB");
    assert_eq!(Transport::default(), Transport::Wifi);
    assert_eq!(TransportPref::default(), TransportPref::Auto);
}

#[test]
fn preferences_allow_their_transports() {
    let table = [
        (TransportPref::Auto, true, true),
        (TransportPref::Wifi, true, false),
        (TransportPref::Usb, false, true),
    ];
    for (pref, wifi, usb) in table {
        assert_eq!(pref.allows_wifi(), wifi);
        assert_eq!(pref.allows_usb(), usb);
        assert_eq!(pref.matches(Transport::Wifi), wifi);
        assert_eq!(pref.matches(Transport::Usb), usb);
    }
}

#[test]
fn urls_name_the_host() {
    let four = wifi("A", HostAddr::V4(192, 168, 1, 20), 8080, "_uscan._tcp.local.");
    assert_eq!(four.base_url(), "http://192.168.1.20:8080/eSCL");
    let six = wifi("A", HostAddr::V6("fe80::1".to_string()), 80, "_uscan._tcp.local.");
    assert_eq!(six.base_url(), "http://[fe80::1]:80/eSCL");
    assert_eq!(six.origin_url(), "http://[fe80::1]:80");
    let mut bare = four.clone();
    bare.escl_root = "//".to_string();
    assert_eq!(bare.base_url(), "http://192.168.1.20:8080/");
}

#[test]
fn wifi_routes_are_rated() {
    let v4 = HostAddr::V4(10, 0, 0, 2);
    assert_eq!(wifi("A", v4.clone(), 8080, "_uscan._tcp.local.").wifi_quality(), 70);
    assert_eq!(wifi("A", v4.clone(), 80, "_uscan._tcp.local.").wifi_quality(), 60);
    assert_eq!(wifi("A", v4.clone(), 443, "_uscans._tcp.local.").wifi_quality(), 20);
    let v6 = HostAddr::V6("::1".to_string());
    assert_eq!(wifi("A", v6, 443, "_uscans._tcp.local.").wifi_quality(), 0);
}

#[test]
fn devices_have_keys() {
    let v4 = HostAddr::V4(10, 0, 0, 2);
    assert_eq!(wifi("A", v4, 8080, "x").device_key(), "wifi:10.0.0.2");
    assert_eq!(usb("A", None, 60000).device_key(), "usb:ipp:60000");
    assert_eq!(usb("A", Some("brother5:bus1;dev2"), 0).device_key(), "usb:brother5:bus1;dev2");
}

#[test]
fn usb_and_the_known_model_score_higher() {
    let v4 = HostAddr::V4(10, 0, 0, 2);
    assert_eq!(usb("Brother", None, 60000).auto_score(), 1_000);
    assert_eq!(usb("brother ds-940dw", None, 60000).auto_score(), 1_050);
    assert_eq!(wifi("Brother MFC", v4.clone(), 8080, "x").auto_score(), 70);
    assert_eq!(wifi("Brother DS-940DW", v4, 8080, "x").auto_score(), 120);
}

#[test]
fn scanners_are_listed_by_name_and_route() {
    let v4 = HostAddr::V4(10, 0, 0, 2);
    assert_eq!(wifi("Brother", v4, 8080, "x").picker_line(), "Brother  Wi-Fi  10.0.0.2");
    assert_eq!(usb("Brother", None, 60000).picker_line(), "Brother  USB");
}

#[test]
fn a_loaded_feeder_is_ready() {
    for adf in ["ScannerAdfLoaded", "ScannerAdfReady", "READY"] {
        assert!(status("Idle", adf, &[]).paper_ready(), "{adf}");
        assert_eq!(status("Idle", adf, &[]).feeder_kind(), FeederKind::Loaded, "{adf}");
    }
    for adf in ["", "ScannerAdfEmpty", "LoadedJam", "ProcessingLoaded"] {
        assert!(!status("Idle", adf, &[]).paper_ready(), "{adf}");
    }
}

#[test]
fn feeder_states_are_told_apart() {
    let table = [
        ("ScannerAdfJam", FeederKind::Jam, "Jam"),
        ("ScannerAdfMispick", FeederKind::Mispick, "Mispick"),
        ("DoubleFeed", FeederKind::Mispick, "Mispick"),
        ("MultipickDetected", FeederKind::Mispick, "Mispick"),
        ("ScannerAdfProcessing", FeederKind::Pulling, "Pulling through"),
        ("ScannerAdfLoaded", FeederKind::Loaded, "Sheet loaded"),
        ("ScannerAdfEmpty", FeederKind::Empty, "Empty"),
        ("", FeederKind::Unknown, "Feeder"),
        ("Whatever", FeederKind::Unknown, "Feeder"),
    ];
    for (adf, kind, label) in table {
        assert_eq!(status("Idle", adf, &[]).feeder_kind(), kind, "{adf}");
        assert_eq!(kind.label(), label);
    }
}

#[test]
fn faults_are_told() {
    let table: Vec<(ScannerStatus, Option<&str>)> = vec![
        (status("Idle", "Jam", &["CoverOpen"]), Some("Paper jam. Clear the feeder.")),
        (status("Idle", "Mispick", &[]), Some("Feeder mispick. Reload the sheet.")),
        (status("Idle", "Loaded", &["MediaJam"]), Some("Paper jam. Clear the feeder.")),
        (status("Idle", "Loaded", &["CoverOpen"]), Some("Close the scanner cover.")),
        (status("Idle", "Loaded", &["DoorOpen"]), Some("Close the scanner cover.")),
        (status("Idle", "Loaded", &["InternalError"]), Some("InternalError")),
        (status("Idle", "Loaded", &["JobCompletedSuccessfully", "LampFailure"]), Some("LampFailure")),
        (status("Idle", "Loaded", &["None", "AttentionRequired"]), None),
        (status("Stopped", "Loaded", &[]), Some("Scanner stopped.")),
        (status("Down", "Loaded", &[]), Some("Scanner reported an error.")),
        (status("Idle", "Loaded", &["Paused"]), None),
    ];
    for (s, expected) in table {
        assert_eq!(s.fault_message().as_deref(), expected, "{s:?}");
    }
}
