use scanbro::discovery::{
    display_name, friendly_device_name, handle_lan_find, handle_resolved, is_target,
    lan_candidates, lan_hosts, lan_scanner, pick_ipv4, resolved_line, scanner_from_info,
    wants_lan_probe, Interface, ServiceRecord,
};
use scanbro::error::AppError;
use scanbro::escl::status_url;
use scanbro::scan::usb_route;
use scanbro::scanner::{HostAddr, ScannerInfo, Transport, TransportPref};
use scanbro::state::{preferred_from_file, AppState, ConnectionState};
use scanbro::usb::{
    brother_usb, brother_usb_present, friendly_sane_error, handle_absence, holding_usb,
    ipp_candidates, is_usb_sane_device, list_brother_sane, load_pages, missing_page, page_files,
    register, sane_in_list, scan_args, source_at, work_dir_name, ScanOutput, UsbDevice, UsbJob,
    UsbStep,
};

fn record(fullname: &str, ty: Option<&str>, rs: Option<&str>, addresses: Vec<HostAddr>) -> ServiceRecord {
    ServiceRecord {
        fullname: fullname.to_string(),
        hostname: "BRW1234.local.".to_string(),
        service_type: "_uscan._tcp.local.".to_string(),
        port: 80,
        addresses,
        ty: ty.map(str::to_string),
        rs: rs.map(str::to_string),
    }
}

fn wifi(name: &str, last: u8, port: u16) -> ScannerInfo {
    ScannerInfo {
        name: name.to_string(),
        hostname: "host".to_string(),
        ip: HostAddr::V4(192, 168, 1, last),
        port,
        escl_root: "eSCL".to_string(),
        service_type: "_uscan._tcp.local.".to_string(),
        via: Transport::Wifi,
        sane_device: None,
    }
}

fn sane(device: &str) -> ScannerInfo {
    ScannerInfo {
        name: "Brother".to_string(),
        hostname: "usb".to_string(),
        ip: HostAddr::V4(127, 0, 0, 1),
        port: 0,
        escl_root: String::new(),
        service_type: "sane".to_string(),
        via: Transport::Usb,
        sane_device: Some(device.to_string()),
    }
}

fn output(success: bool, got_page: bool, killed: bool, stderr: &str, stdout: &str) -> ScanOutput {
    ScanOutput {
        success,
        got_page,
        killed,
        stderr: stderr.as_bytes().to_vec(),
        stdout: stdout.as_bytes().to_vec(),
    }
}

#[test]
fn announced_services_become_scanners() {
    let v4 = HostAddr::V4(192, 168, 1, 20);
    let v6 = HostAddr::V6("fe80::1".to_string());
    let s = scanner_from_info(&record(
        "Brother\\032DS-940DW._uscan._tcp.local.",
        Some("Brother DS-940DW"),
        Some("/eSCL/"),
        vec![v6.clone(), v4.clone()],
    ))
    .unwrap();
    assert_eq!(s.name, "Brother DS-940DW");
    assert_eq!(s.hostname, "BRW1234.local");
    assert_eq!(s.base_url(), "http://192.168.1.20:80/eSCL");
    assert_eq!(s.via, Transport::Wifi);
    assert!(s.sane_device.is_none());
    let s = scanner_from_info(&record(
        "Office\\032Scanner._uscan._tcp.local.",
        Some(""),
        Some("/"),
        vec![v4.clone()],
    ))
    .unwrap();
    assert_eq!(s.name, "Office Scanner");
    assert_eq!(s.escl_root, "eSCL");
    let s = scanner_from_info(&record("_uscan._tcp.local.", Some("  "), None, vec![v4])).unwrap();
    assert_eq!(s.name, "Brother DS-940DW");
    assert!(scanner_from_info(&record("x", None, None, vec![v6])).is_none());
}

#[test]
fn the_first_ipv4_address_counts() {
    let key = |a: Option<HostAddr>| a.map(|a| a.to_text());
    assert_eq!(key(pick_ipv4(&vec![])), None);
    assert_eq!(key(pick_ipv4(&vec![HostAddr::V4(0, 0, 0, 0), HostAddr::V4(1, 2, 3, 4)])), None);
    assert_eq!(
        key(pick_ipv4(&vec![HostAddr::V6("::".to_string()), HostAddr::V4(1, 2, 3, 4)])).as_deref(),
        Some("1.2.3.4")
    );
}

#[test]
fn service_names_are_cleaned() {
    assert_eq!(display_name("Brother\\032DS-940DW\\ [x]._uscan._tcp.local."), "Brother DS-940DW [x]");
    assert_eq!(display_name("plain"), "plain");
    assert_eq!(friendly_device_name("Brother\\032MFC"), "Brother MFC");
    assert_eq!(friendly_device_name(""), "Brother DS-940DW");
    assert_eq!(friendly_device_name("_scanner"), "Brother DS-940DW");
    assert_eq!(friendly_device_name("My USCAN thing"), "Brother DS-940DW");
    assert_eq!(friendly_device_name(" x "), "x");
}

#[test]
fn known_models_are_targets() {
    assert!(is_target("Brother DS-940DW"));
    assert!(is_target("ds940dw"));
    assert!(is_target("a ds-940 b"));
    assert!(!is_target("Brother ADS-4700W"));
}

#[test]
fn announcements_improve_the_route() {
    let mut state = AppState::with_preferred(None);
    handle_resolved(&mut state, wifi("Brother MFC", 5, 443));
    assert_eq!(state.status_line, "Found Brother MFC on Wi-Fi.");
    assert_eq!(state.connection, ConnectionState::Connected);
    handle_resolved(&mut state, wifi("Brother MFC", 5, 443));
    handle_resolved(&mut state, wifi("Brother MFC", 6, 8080));
    assert_eq!(state.scanner.as_ref().unwrap().port, 8080);
    handle_resolved(&mut state, wifi("Brother MFC", 7, 443));
    assert_eq!(state.scanner.as_ref().unwrap().port, 8080);
    handle_resolved(&mut state, wifi("Brother DS-940DW", 8, 443));
    assert_eq!(state.scanner.as_ref().unwrap().name, "Brother DS-940DW");
    assert!(state.discovered.is_empty());
}

#[test]
fn wifi_news_leaves_usb_alone() {
    let mut state = AppState::with_preferred(None);
    state.offer_scanner(sane("brother5:1"));
    handle_resolved(&mut state, wifi("Brother DS-940DW", 5, 8080));
    handle_lan_find(&mut state, wifi("Brother DS-940DW", 5, 8080));
    assert!(holding_usb(&state));
    assert!(wants_lan_probe(&state));
    let mut state = AppState::with_preferred(None);
    state.apply_transport(TransportPref::Usb);
    handle_resolved(&mut state, wifi("Brother DS-940DW", 5, 8080));
    handle_lan_find(&mut state, wifi("Brother DS-940DW", 5, 8080));
    assert!(state.scanner.is_none());
    assert!(!wants_lan_probe(&state));
}

#[test]
fn the_local_network_is_searched_until_a_scanner_is_found() {
    let mut state = AppState::with_preferred(None);
    assert!(wants_lan_probe(&state));
    handle_lan_find(&mut state, lan_scanner(0xC0A8_0105, 80));
    assert_eq!(state.scanner.as_ref().unwrap().ip.to_text(), "192.168.1.5");
    assert!(!wants_lan_probe(&state));
    handle_lan_find(&mut state, lan_scanner(0xC0A8_0106, 8080));
    assert_eq!(state.scanner.as_ref().unwrap().ip.to_text(), "192.168.1.6");
    handle_lan_find(&mut state, lan_scanner(0xC0A8_0107, 8080));
    assert_eq!(state.scanner.as_ref().unwrap().ip.to_text(), "192.168.1.6");
}

#[test]
fn neighbours_of_an_address_are_asked() {
    let face = |ip: u32, mask: u32| Interface { loopback: false, v4: Some((ip, mask)) };
    assert_eq!(lan_hosts(&vec![face(0x0A00_0002, 0xFFFF_FFFC)]), vec![0x0A00_0001]);
    assert_eq!(
        lan_hosts(&vec![face(0x0A00_0009, 0xFFFF_FFF8)]),
        vec![0x0A00_000A, 0x0A00_000B, 0x0A00_000C, 0x0A00_000D, 0x0A00_000E]
    );
    let all = lan_hosts(&vec![face(0xFFFF_FF10, 0xFFFF_FF00)]);
    assert_eq!(all.len(), 253);
    assert_eq!((all[0], all[252]), (0xFFFF_FF01, 0xFFFF_FFFE));
    assert!(!all.contains(&0xFFFF_FF10));
    assert!(lan_hosts(&vec![face(0x0A00_0002, 0xFFFF_0000)]).is_empty());
    assert!(lan_hosts(&vec![face(0x0A00_0002, 0xFFFF_FFFE)]).is_empty());
    assert!(lan_hosts(&vec![Interface { loopback: true, v4: Some((0x7F00_0001, 0xFFFF_FF00)) }]).is_empty());
    assert!(lan_hosts(&vec![Interface { loopback: false, v4: None }]).is_empty());
    let both = lan_hosts(&vec![face(0x0A00_0002, 0xFFFF_FFFC), face(0x0B00_0001, 0xFFFF_FFFC)]);
    assert_eq!(both, vec![0x0A00_0001, 0x0B00_0002]);
}

#[test]
fn candidates_stand_on_two_ports() {
    let list = lan_candidates(&vec![Interface {
        loopback: false,
        v4: Some((0x0A00_0002, 0xFFFF_FFFC)),
    }]);
    let urls: Vec<String> = list.iter().map(status_url).collect();
    assert_eq!(
        urls,
        vec![
            "http://10.0.0.1:8080/eSCL/ScannerStatus",
            "http://10.0.0.1:80/eSCL/ScannerStatus"
        ]
    );
    assert_eq!(list[0].hostname, "10.0.0.1");
    assert_eq!(
        resolved_line(&list[0]),
        "resolved  Brother DS-940DW  10.0.0.1:8080/eSCL  (10.0.0.1)"
    );
}

#[test]
fn brother_devices_are_found_on_the_bus() {
    let dev = |v: &str, p: &str| UsbDevice { vendor: v.to_string(), product: p.to_string() };
    assert_eq!(brother_usb(&vec![]), None);
    assert!(!brother_usb_present(&vec![dev("1d6b\n", "hub")]));
    let list = vec![dev("", ""), dev("04f9\n", " DS-940DW \n"), dev("04f9", "other")];
    assert_eq!(brother_usb(&list).as_deref(), Some("DS-940DW"));
    assert!(brother_usb_present(&list));
    assert_eq!(brother_usb(&vec![dev("04f9", "  ")]).as_deref(), Some("Brother DS-940DW"));
}

#[test]
fn usb_scanners_answer_on_local_ports() {
    let list = ipp_candidates(&None);
    let ports: Vec<u16> = list.iter().map(|s| s.port).collect();
    assert_eq!(ports, vec![60000, 60001, 60002, 60003, 631]);
    assert_eq!(list[0].name, "Brother");
    assert_eq!(status_url(&list[4]), "http://127.0.0.1:631/eSCL/ScannerStatus");
    assert_eq!(ipp_candidates(&Some("DS-940DW".to_string()))[1].name, "DS-940DW");
    assert_eq!(list[0].via, Transport::Usb);
}

#[test]
fn sane_devices_on_usb_are_known() {
    assert!(is_usb_sane_device(" brother5:bus1;dev2"));
    assert!(is_usb_sane_device("BROTHER4:net"));
    for d in ["escl:http://x", "airscan:e0", "v4l:/dev/video0", "brother:http://x", "brother5:https:x", "epson2"] {
        assert!(!is_usb_sane_device(d), "{d}");
    }
}

#[test]
fn device_lists_are_read() {
    let list = "device `v4l:/dev/video0' is a Noname webcam\n\
                device `airscan:e0:Brother' is a eSCL Brother ip=10.0.0.2\n\
                device `brother5:bus1;dev2' is a Brother DS-940DW USB scanner\n";
    let s = sane_in_list(list, "DS").unwrap();
    assert_eq!(s.sane_device.as_deref(), Some("brother5:bus1;dev2"));
    assert_eq!(s.name, "Brother DS-940DW USB scanner");
    assert_eq!((s.port, s.escl_root.as_str(), s.service_type.as_str()), (0, "", "sane"));
    let odd = "device `brother5:x' is a USCAN thing";
    assert_eq!(sane_in_list(odd, "DS-740D").unwrap().name, "DS-740D");
    assert_eq!(sane_in_list(odd, "").unwrap().name, "Brother DS-940DW");
    assert!(sane_in_list("No scanners were identified.", "DS").is_none());
    assert!(list_brother_sane(list.as_bytes(), &None).is_none());
    let raw = b"\xFFnoise\ndevice `brother5:\xFFa' is a Brother\n";
    let s = list_brother_sane(raw, &Some("DS".to_string())).unwrap();
    assert_eq!(s.sane_device.as_deref(), Some("brother5:\u{FFFD}a"));
}

#[test]
fn usb_scanners_are_registered_while_plugged() {
    let mut state = AppState::with_preferred(None);
    register(&mut state, sane("brother5:1"), false);
    assert!(state.scanner.is_none());
    register(&mut state, sane("brother5:1"), true);
    assert!(holding_usb(&state));
    let mut state = AppState::with_preferred(None);
    state.apply_transport(TransportPref::Wifi);
    register(&mut state, sane("brother5:1"), true);
    assert!(state.scanner.is_none());
}

#[test]
fn an_unplugged_scanner_is_forgotten() {
    let mut state = AppState::with_preferred(None);
    register(&mut state, sane("brother5:1"), true);
    handle_absence(&mut state, TransportPref::Auto, true);
    assert!(holding_usb(&state));
    handle_absence(&mut state, TransportPref::Auto, false);
    assert!(state.scanner.is_none() && state.discovered.is_empty());
    assert_eq!(state.status_line, "USB scanner unplugged. Looking again…");
    handle_absence(&mut state, TransportPref::Usb, false);
    assert_eq!(state.status_line, "No USB scanner plugged in. Power it on and use a data cable.");
    handle_absence(&mut state, TransportPref::Usb, true);
    assert_eq!(state.status_line, "USB scanner plugged in. Getting it ready…");
}

#[test]
fn sources_are_tried_in_order() {
    let list = |long: bool| {
        let mut v: Vec<&str> = Vec::new();
        while let Some(s) = source_at(long, v.len()) {
            v.push(s);
        }
        v
    };
    assert_eq!(
        list(false),
        vec![
            "Automatic Document Feeder(left aligned,Duplex)",
            "Automatic Document Feeder(Duplex)",
            "ADF Duplex",
            "Automatic Document Feeder(left aligned)",
            "Automatic Document Feeder",
            "ADF"
        ]
    );
    assert_eq!(
        list(true),
        vec![
            "Automatic Document Feeder(left aligned)",
            "Automatic Document Feeder",
            "ADF",
            "Automatic Document Feeder(simplex)"
        ]
    );
}

#[test]
fn scan_arguments_name_device_and_source() {
    assert_eq!(
        scan_args("brother5:1", "ADF Duplex", "/dev/shm/d/page%d.jpg", false, 300),
        vec![
            "-d",
            "brother5:1",
            "--format=jpeg",
            "--resolution=300",
            "--source=ADF Duplex",
            "--batch=/dev/shm/d/page%d.jpg",
            "--batch-count=2"
        ]
    );
    let long = scan_args("b", "ADF", "p", true, 150);
    assert_eq!(long[6..], ["--batch-count=1", "-y", "800"]);
}

#[test]
fn a_usb_scan_tries_source_after_source() {
    let mut state = AppState::with_preferred(None);
    let mut job = UsbJob::start("brother5:1", true, 300);
    let args = job.next_args(&mut state, "p").unwrap();
    assert_eq!(args[4], "--source=Automatic Document Feeder(left aligned)");
    assert_eq!(state.status_line, "Starting USB receipt scan…");
    assert!(state.progress.job_posted && state.progress.one_sided && state.progress.back_done);
    let tried = job.answered(&output(false, false, false, " scanimage: Device busy \n", "x"));
    assert_eq!(tried.unwrap(), UsbStep::TryNext);
    assert_eq!(job.failure().message(), "eSCL protocol error: Scanner is busy. Try again in a moment.");
    assert_eq!(job.next_args(&mut state, "p").unwrap()[4], "--source=Automatic Document Feeder");
    job.answered(&output(false, false, false, " ", " no documents ")).unwrap();
    assert_eq!(
        job.failure().message(),
        "eSCL protocol error: Load a page into the feeder, then scan."
    );
    job.answered(&output(false, false, false, "", "")).unwrap();
    assert_eq!(job.failure().message(), "eSCL protocol error: Couldn't scan over USB.");
    job.answered(&output(false, false, false, "", "")).unwrap();
    assert!(job.next_args(&mut state, "p").is_none());
}

#[test]
fn a_usb_scan_ends_with_a_page_or_a_crash() {
    let mut job = UsbJob::start("brother5:1", false, 300);
    assert_eq!(job.answered(&output(true, false, false, "", "")).unwrap(), UsbStep::Scanned);
    assert_eq!(job.answered(&output(false, true, true, "", "")).unwrap(), UsbStep::Scanned);
    assert_eq!(
        job.answered(&output(false, false, true, "", "")).unwrap_err().message(),
        "eSCL protocol error: USB scan crashed. Use Wi-Fi Scan instead if the scanner is on the network."
    );
    let mut state = AppState::with_preferred(None);
    job.next_args(&mut state, "p").unwrap();
    assert_eq!(state.status_line, "Starting USB scan…");
    assert!(!state.progress.back_done);
}

#[test]
fn sane_errors_are_told_plainly() {
    let table = [
        ("scanimage: sane_start: Document feeder out of documents", "Load a page into the feeder, then scan."),
        ("Device BUSY", "Scanner is busy. Try again in a moment."),
        ("Permission denied", "No permission to use the USB scanner."),
        ("Access to resource has been denied", "No permission to use the USB scanner."),
        ("Invalid argument", "USB scan settings weren't accepted. Try Scan again."),
        ("unknown option", "USB scan settings weren't accepted. Try Scan again."),
        ("", "Couldn't scan over USB."),
        ("Error during device I/O", "Couldn't scan over USB."),
    ];
    for (raw, told) in table {
        assert_eq!(friendly_sane_error(raw), told, "{raw}");
    }
}

#[test]
fn usb_pages_are_loaded() {
    let page = |b: &[u8]| Ok(std::sync::Arc::new(b.to_vec()));
    let mut state = AppState::with_preferred(None);
    let (front, back) = load_pages(&mut state, page(b"front"), page(b"bk")).unwrap();
    assert_eq!((front.len(), back.len()), (5, 2));
    assert_eq!((state.progress.front_bytes, state.progress.back_bytes), (5, 2));
    assert!(state.progress.front_done && state.progress.back_done);
    let (_, back) = load_pages(&mut state, page(b"f"), Err(missing_page(2))).unwrap();
    assert!(back.is_empty());
    assert_eq!(
        load_pages(&mut state, page(b""), page(b"x")).unwrap_err().message(),
        "eSCL protocol error: USB scan produced no pages."
    );
    let mut state = AppState::with_preferred(None);
    match load_pages(&mut state, Err(missing_page(1)), page(b"x")) {
        Err(AppError::Escl(e)) => assert_eq!(e, "missing USB page 1"),
        other => panic!("{other:?}"),
    }
    assert!(!state.progress.front_done);
}

#[test]
fn usb_files_are_named() {
    assert_eq!(
        page_files(2),
        vec!["page2.jpg", "page2.jpeg", "page2.pnm", "page2.png", "page2.tiff", "page2.tif"]
    );
    assert_eq!(work_dir_name(17, 1_700_000_000_123), "scanbro-17-1700000000123");
}

#[test]
fn a_listed_scanner_is_scanned_with_sane_and_remembered() {
    let list = "device ` brother5:bus1;dev3 ' is a Brother DS-940DW USB scanner\n";
    let s = sane_in_list(list, "DS").unwrap();
    assert_eq!(usb_route(&s).as_deref(), Some("brother5:bus1;dev3"));
    assert_eq!(preferred_from_file(Some(s.device_key())), Some(s.device_key()));
}
