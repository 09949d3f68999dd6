use scanbro::error::{AppError, RequestFailure};
use scanbro::scanner::{HostAddr, ScannerInfo, Transport, TransportPref};
use scanbro::state::{
    preferred_from_file, AppState, ConnectionState, ScanPreset, ScanProgress, Share,
};

fn wifi(name: &str, last: u8, port: u16) -> ScannerInfo {
    ScannerInfo {
        name: name.to_string(),
        hostname: "host".to_string(),
        ip: HostAddr::V4(192, 168, 1, last),
        port,
        escl_root: "eSCL".to_string(),
        service_type: "_uscan._tcp.local.".to_string(),
        via: Transport::Wifi,
        sane_device: None,
    }
}

fn usb(name: &str, device: &str) -> ScannerInfo {
    ScannerInfo {
        name: name.to_string(),
        hostname: "usb".to_string(),
        ip: HostAddr::V4(127, 0, 0, 1),
        port: 0,
        escl_root: String::new(),
        service_type: "sane".to_string(),
        via: Transport::Usb,
        sane_device: Some(device.to_string()),
    }
}

fn fresh() -> AppState {
    AppState::with_preferred(None)
}

fn in_use(state: &AppState) -> Option<String> {
    state.scanner.as_ref().map(|s| s.device_key())
}

fn known(state: &AppState) -> Vec<String> {
    state.discovered.iter().map(|s| s.device_key()).collect()
}

#[test]
fn the_application_starts_looking() {
    let state = fresh();
    assert_eq!(state.connection, ConnectionState::AwaitingConnection);
    assert_eq!(state.status_line, "Looking for your scanner…");
    assert_eq!(state.scan_preset, ScanPreset::Document);
    assert!(state.ocr_enabled && !state.continuous && !state.long_receipt);
    assert!(state.pages.is_empty() && state.last_seen.is_none());
    assert!(!state.busy_scan());
}

#[test]
fn a_choice_is_remembered_from_a_file() {
    assert_eq!(preferred_from_file(None), None);
    assert_eq!(preferred_from_file(Some(" \n".to_string())), None);
    assert_eq!(
        preferred_from_file(Some("wifi:10.0.0.2\n".to_string())).as_deref(),
        Some("wifi:10.0.0.2")
    );
}

#[test]
fn chosen_scanners_are_remembered() {
    let mut port = usb("A", "x");
    port.sane_device = None;
    port.port = 60000;
    for s in [wifi("A", 5, 8080), usb("A", "brother5:bus1;dev2"), port] {
        let key = s.device_key();
        assert_eq!(preferred_from_file(Some(format!("{key}\n"))), Some(key));
    }
}

#[test]
fn the_first_scanner_is_used() {
    let mut state = fresh();
    state.offer_scanner(wifi("Brother", 5, 8080));
    assert_eq!(in_use(&state).as_deref(), Some("wifi:192.168.1.5"));
    assert_eq!(state.connection, ConnectionState::Connected);
    assert_eq!(state.status_line, "Found Brother on Wi-Fi.");
    assert!(state.last_seen.is_some());
    assert!(state.status.is_none());
}

#[test]
fn a_usb_scanner_takes_over_and_counts_as_ready() {
    let mut state = fresh();
    state.offer_scanner(wifi("Brother DS-940DW", 5, 8080));
    state.offer_scanner(usb("Brother", "brother5:1"));
    assert_eq!(in_use(&state).as_deref(), Some("usb:brother5:1"));
    let status = state.status.as_ref().unwrap();
    assert_eq!((status.state.as_str(), status.adf_state.as_str()), ("Idle", "Ready"));
    state.offer_scanner(wifi("Brother DS-940DW", 6, 8080));
    assert_eq!(in_use(&state).as_deref(), Some("usb:brother5:1"));
    assert_eq!(known(&state).len(), 3);
}

#[test]
fn an_offer_replaces_the_entry_of_its_device() {
    let mut state = fresh();
    state.offer_scanner(wifi("Brother", 5, 443));
    state.offer_scanner(wifi("Brother", 5, 8080));
    assert_eq!(known(&state), vec!["wifi:192.168.1.5"]);
    assert_eq!(state.discovered[0].port, 8080);
    assert_eq!(state.scanner.as_ref().unwrap().port, 8080);
    state.offer_scanner(wifi("Brother", 5, 443));
    assert_eq!(state.discovered[0].port, 8080);
    assert_eq!(state.scanner.as_ref().unwrap().port, 443);
}

#[test]
fn an_unwanted_transport_changes_nothing() {
    let mut state = fresh();
    state.apply_transport(TransportPref::Usb);
    assert_eq!(state.status_line, "Using USB.");
    state.offer_scanner(wifi("Brother", 5, 8080));
    assert!(state.scanner.is_none() && state.discovered.is_empty());
    assert!(state.visible_scanners().is_empty());
}

#[test]
fn a_running_scan_keeps_its_own_scanner() {
    let mut state = fresh();
    state.offer_scanner(wifi("Brother", 5, 8080));
    state.connection = ConnectionState::Scanning;
    state.offer_scanner(usb("Brother", "brother5:1"));
    assert_eq!(in_use(&state).as_deref(), Some("wifi:192.168.1.5"));
    assert_eq!(known(&state).len(), 2);
    assert!(state.select_scanner("usb:brother5:1").is_none());
    assert_eq!(in_use(&state).as_deref(), Some("wifi:192.168.1.5"));
}

#[test]
fn the_moment_last_seen_stays_where_no_scanner_is_put_in_use() {
    let mut state = fresh();
    state.offer_scanner(wifi("Brother", 5, 8080));
    let seen = state.last_seen;
    state.offer_scanner(wifi("Brother", 6, 443));
    state.offer_scanner(wifi("Brother", 5, 443));
    assert!(state.select_scanner("wifi:none").is_none());
    state.forget_via(Transport::Usb, "unplugged");
    state.apply_transport(TransportPref::Wifi);
    assert_eq!(state.last_seen, seen);
    state.apply_transport(TransportPref::Auto);
    state.connection = ConnectionState::Scanning;
    state.offer_scanner(usb("Brother", "brother5:1"));
    assert!(state.select_scanner("usb:brother5:1").is_none());
    assert!(state.cycle_scanner(1).is_none());
    assert_eq!(state.last_seen, seen);
    assert_eq!(known(&state).len(), 3);
}

#[test]
fn a_turn_comes_to_every_scanner_once() {
    let mut state = fresh();
    for last in 5..9 {
        state.offer_scanner(wifi("Brother", last, 8080));
    }
    let start = in_use(&state).unwrap();
    let mut seen: Vec<String> = (0..4).map(|_| state.cycle_scanner(1).unwrap()).collect();
    assert_eq!(seen.last(), Some(&start));
    seen.sort();
    seen.dedup();
    assert_eq!(seen.len(), 4);
}

#[test]
fn a_choice_outlasts_better_offers() {
    let mut state = fresh();
    state.offer_scanner(wifi("A", 5, 8080));
    state.offer_scanner(wifi("B", 6, 8080));
    assert_eq!(state.select_scanner("wifi:192.168.1.6").as_deref(), Some("wifi:192.168.1.6"));
    assert_eq!(state.preferred_id.as_deref(), Some("wifi:192.168.1.6"));
    state.offer_scanner(usb("Brother", "brother5:1"));
    assert_eq!(in_use(&state).as_deref(), Some("wifi:192.168.1.6"));
    assert!(state.select_scanner("wifi:192.168.1.9").is_none());
    assert_eq!(in_use(&state).as_deref(), Some("wifi:192.168.1.6"));
}

#[test]
fn a_remembered_scanner_is_used_when_it_comes() {
    let mut state = AppState::with_preferred(Some("wifi:192.168.1.6".to_string()));
    state.offer_scanner(usb("Brother", "brother5:1"));
    assert_eq!(in_use(&state).as_deref(), Some("usb:brother5:1"));
    state.offer_scanner(wifi("B", 6, 443));
    assert_eq!(in_use(&state).as_deref(), Some("wifi:192.168.1.6"));
}

#[test]
fn cycling_goes_round_and_back() {
    let mut state = fresh();
    state.offer_scanner(wifi("A", 5, 8080));
    assert!(state.cycle_scanner(1).is_none());
    state.offer_scanner(wifi("B", 6, 8080));
    state.offer_scanner(wifi("C", 7, 8080));
    assert_eq!(in_use(&state).as_deref(), Some("wifi:192.168.1.5"));
    assert_eq!(state.cycle_scanner(1).as_deref(), Some("wifi:192.168.1.6"));
    assert_eq!(state.cycle_scanner(1).as_deref(), Some("wifi:192.168.1.7"));
    assert_eq!(state.cycle_scanner(1).as_deref(), Some("wifi:192.168.1.5"));
    assert_eq!(state.cycle_scanner(-1).as_deref(), Some("wifi:192.168.1.7"));
    assert_eq!(state.cycle_scanner(1).as_deref(), Some("wifi:192.168.1.5"));
}

#[test]
fn a_lost_scanner_gives_way_to_the_best_left() {
    let mut state = fresh();
    state.offer_scanner(wifi("A", 5, 443));
    state.offer_scanner(wifi("B", 6, 8080));
    state.offer_scanner(wifi("C", 7, 8080));
    assert_eq!(in_use(&state).as_deref(), Some("wifi:192.168.1.6"));
    state.mark_disconnected("gone");
    assert_eq!(in_use(&state).as_deref(), Some("wifi:192.168.1.7"));
    assert_eq!(known(&state), vec!["wifi:192.168.1.5", "wifi:192.168.1.7"]);
    state.mark_disconnected("gone");
    state.mark_disconnected("gone for good");
    assert!(state.scanner.is_none());
    assert_eq!(state.connection, ConnectionState::AwaitingConnection);
    assert_eq!(state.status_line, "gone for good");
}

#[test]
fn equal_scores_go_to_the_last_found() {
    let mut state = fresh();
    state.offer_scanner(usb("Brother", "brother5:1"));
    state.offer_scanner(wifi("A", 5, 8080));
    state.offer_scanner(wifi("B", 6, 8080));
    state.forget_via(Transport::Usb, "unplugged");
    assert_eq!(in_use(&state).as_deref(), Some("wifi:192.168.1.6"));
    assert_eq!(known(&state), vec!["wifi:192.168.1.5", "wifi:192.168.1.6"]);
}

#[test]
fn forgetting_another_transport_leaves_the_scanner() {
    let mut state = fresh();
    state.offer_scanner(usb("Brother", "brother5:1"));
    state.offer_scanner(wifi("A", 5, 8080));
    state.forget_via(Transport::Wifi, "no");
    assert_eq!(in_use(&state).as_deref(), Some("usb:brother5:1"));
    assert_eq!(known(&state), vec!["usb:brother5:1"]);
}

#[test]
fn a_scanner_lost_in_a_scan_is_not_replaced() {
    let mut state = fresh();
    state.offer_scanner(wifi("A", 5, 8080));
    state.offer_scanner(wifi("B", 6, 8080));
    state.connection = ConnectionState::Scanning;
    state.mark_disconnected("lost");
    assert!(state.scanner.is_none());
    assert_eq!(state.connection, ConnectionState::AwaitingConnection);
    assert_eq!(state.status_line, "lost");
}

#[test]
fn choosing_transports_lets_others_go() {
    let mut state = fresh();
    state.offer_scanner(usb("Brother", "brother5:1"));
    state.offer_scanner(wifi("A", 5, 8080));
    state.apply_transport(TransportPref::Wifi);
    assert_eq!(in_use(&state).as_deref(), Some("wifi:192.168.1.5"));
    state.apply_transport(TransportPref::Auto);
    assert_eq!(state.status_line, "Using Wi-Fi or USB.");
    state.forget_via(Transport::Usb, "unplugged");
    state.apply_transport(TransportPref::Usb);
    assert!(state.scanner.is_none());
    assert_eq!(state.status_line, "Looking for your scanner on USB…");
    state.apply_transport(TransportPref::Wifi);
    assert_eq!(state.status_line, "Using Wi-Fi.");
}

#[test]
fn presets_rise_in_resolution() {
    let all = ScanPreset::all();
    let dpis: Vec<u16> = all.iter().map(|p| p.dpi()).collect();
    assert_eq!(dpis, vec![150, 200, 300, 400, 600]);
    let labels: Vec<&str> = all.iter().map(|p| p.label()).collect();
    assert_eq!(
        labels,
        vec![
            "Web (150 dpi)",
            "Small (200 dpi)",
            "Document (300 dpi)",
            "Photo (400 dpi)",
            "Fine (600 dpi)"
        ]
    );
    assert_eq!(ScanPreset::default(), ScanPreset::Document);
}

#[test]
fn connection_states_have_names() {
    let table = [
        (ConnectionState::AwaitingConnection, "Awaiting Connection"),
        (ConnectionState::Connected, "Connected"),
        (ConnectionState::Scanning, "Scanning"),
        (ConnectionState::RunningOcr, "OCR"),
        (ConnectionState::Degraded, "Degraded"),
    ];
    for (c, name) in table {
        assert_eq!(c.label(), name);
    }
}

#[test]
fn progress_is_shared_out_over_the_sides() {
    let p = ScanProgress::default();
    assert_eq!(p.fraction(), Share { base: 4, span: 0 });
    let posted = ScanProgress { job_posted: true, ..p };
    assert_eq!(posted.fraction(), Share { base: 8, span: 40 });
    let front = ScanProgress { front_done: true, ..posted };
    assert_eq!(front.fraction(), Share { base: 52, span: 42 });
    let both = ScanProgress { back_done: true, ..front };
    assert_eq!(both.fraction(), Share { base: 100, span: 0 });
    let receipt = ScanProgress { one_sided: true, ..p };
    assert_eq!(receipt.fraction(), Share { base: 5, span: 0 });
    let receipt_posted = ScanProgress { job_posted: true, ..receipt };
    assert_eq!(receipt_posted.fraction(), Share { base: 8, span: 88 });
    let receipt_done = ScanProgress { front_done: true, ..receipt_posted };
    assert_eq!(receipt_done.fraction(), Share { base: 100, span: 0 });
}

#[test]
fn failures_have_sentences() {
    let s = || "x".to_string();
    let table: Vec<(AppError, &str)> = vec![
        (AppError::Network(s()), "x"),
        (AppError::Mdns(s()), "mDNS error: x"),
        (AppError::Xml(s()), "XML parse error: x"),
        (AppError::Image(s()), "image decode error: x"),
        (AppError::Escl(s()), "eSCL protocol error: x"),
        (AppError::Multipart(s()), "multipart parse error: x"),
        (AppError::Pdf(s()), "PDF error: x"),
        (AppError::Disconnected, "scanner unreachable"),
        (AppError::Io(s()), "I/O error: x"),
    ];
    for (e, sentence) in table {
        assert_eq!(e.message(), sentence);
    }
    let table = [
        (RequestFailure::Timeout, "The scanner took too long. Try Scan again."),
        (RequestFailure::Connect, "Couldn't connect to the scanner. Try Scan again."),
        (RequestFailure::Dropped, "The scanner dropped the connection. Try Scan again."),
    ];
    for (f, sentence) in table {
        match AppError::from_request(f) {
            AppError::Escl(s) => assert_eq!(s, sentence),
            other => panic!("{other:?}"),
        }
    }
}
