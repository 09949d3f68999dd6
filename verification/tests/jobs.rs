use std::sync::Arc;

use scanbro::escl::{
    alt_routes, battery_urls, job_url_on_scanner, jobs_url, looks_like_image, multipart_boundary,
    page_answer, retry_wait, scan_settings, status_answer, status_url, PageAnswer,
};
use scanbro::job::{body_received, download_at, download_begun, part_received, DuplexJob};
use scanbro::poll::{battery_filled, known_charge, Poller};
use scanbro::scanner::{HostAddr, ScannerInfo, Transport};
use scanbro::state::{AppState, ConnectionState, Share};
use scanbro::status::ScannerStatus;

fn scanner(port: u16) -> ScannerInfo {
    ScannerInfo {
        name: "Brother DS-940DW".to_string(),
        hostname: "host".to_string(),
        ip: HostAddr::V4(192, 168, 1, 5),
        port,
        escl_root: "eSCL".to_string(),
        service_type: "_uscan._tcp.local.".to_string(),
        via: Transport::Wifi,
        sane_device: None,
    }
}

fn using(port: u16) -> AppState {
    let mut state = AppState::with_preferred(None);
    state.offer_scanner(scanner(port));
    state
}

fn page(b: &[u8]) -> Arc<Vec<u8>> {
    Arc::new(b.to_vec())
}

fn report(state: &str, battery: Option<u8>) -> ScannerStatus {
    ScannerStatus {
        state: state.to_string(),
        adf_state: "ScannerAdfLoaded".to_string(),
        battery_percent: battery,
        reasons: Vec::new(),
    }
}

#[test]
fn settings_ask_for_two_sides_or_a_long_receipt() {
    let duplex = scan_settings(false, 300);
    assert!(duplex.starts_with("<?xml version=\"1.0\" encoding=\"UTF-8\"?>\n<scan:ScanSettings "));
    assert!(duplex.contains("      <pwg:Width>2550</pwg:Width>\n      <pwg:Height>4200</pwg:Height>\n    </pwg:ScanRegion>\n"));
    assert!(duplex.contains("  <pwg:InputSource>Feeder</pwg:InputSource>\n  <scan:Duplex>true</scan:Duplex>\n  <scan:AutoCrop>true</scan:AutoCrop>\n"));
    assert!(duplex.contains("  <scan:XResolution>300</scan:XResolution>\n  <scan:YResolution>300</scan:YResolution>\n"));
    assert!(duplex.ends_with("  <pwg:DocumentFormat>image/jpeg</pwg:DocumentFormat>\n</scan:ScanSettings>\n"));
    let receipt = scan_settings(true, 600);
    assert!(receipt.contains("<pwg:Height>9450</pwg:Height>"));
    assert!(receipt.contains("<scan:Duplex>false</scan:Duplex>"));
    assert!(receipt.contains("<scan:XResolution>600</scan:XResolution>"));
    assert_eq!(duplex.lines().count(), 22);
}

#[test]
fn scanners_are_asked_at_their_urls() {
    let s = scanner(8080);
    assert_eq!(status_url(&s), "http://192.168.1.5:8080/eSCL/ScannerStatus");
    assert_eq!(jobs_url(&s), "http://192.168.1.5:8080/eSCL/ScanJobs");
    assert_eq!(
        battery_urls(&s),
        vec!["http://192.168.1.5:80/ft/gen_status", "http://192.168.1.5:8080/ft/gen_status"]
    );
}

#[test]
fn other_ports_are_tried() {
    let ports = |p: u16| alt_routes(&scanner(p)).iter().map(|s| s.port).collect::<Vec<u16>>();
    assert_eq!(ports(443), vec![8080, 80]);
    assert_eq!(ports(8080), vec![80]);
    assert_eq!(ports(80), vec![8080]);
    let mut sane = scanner(0);
    sane.sane_device = Some("brother5:1".to_string());
    assert!(alt_routes(&sane).is_empty());
    assert_eq!(alt_routes(&scanner(80))[0].device_key(), scanner(80).device_key());
}

#[test]
fn jobs_are_looked_for_on_the_scanner() {
    let s = scanner(8080);
    let table = [
        ("http://printer.local/eSCL/ScanJobs/7", "http://192.168.1.5:8080/eSCL/ScanJobs/7"),
        (" /eSCL/ScanJobs/7 ", "http://192.168.1.5:8080/eSCL/ScanJobs/7"),
        ("/other/7", "http://192.168.1.5:8080/other/7"),
        ("job7", "http://192.168.1.5:8080/eSCL/ScanJobs"),
        ("", "http://192.168.1.5:8080/eSCL/ScanJobs"),
    ];
    for (location, url) in table {
        assert_eq!(job_url_on_scanner(&s, location), url, "{location}");
    }
}

#[test]
fn boundaries_are_found() {
    let table = [
        ("image/jpeg", None),
        ("multipart/related", None),
        ("multipart/related; boundary=abc", Some("abc")),
        ("Multipart/Mixed; charset=x; boundary=\"a b\"", Some("a b")),
        ("multipart/related; boundary=", Some("")),
        ("text/plain; boundary=abc", None),
    ];
    for (content_type, boundary) in table {
        assert_eq!(multipart_boundary(content_type).as_deref(), boundary, "{content_type}");
    }
}

#[test]
fn images_are_known_by_their_start_or_length() {
    assert!(looks_like_image(&[0xFF, 0xD8, 0xFF]));
    assert!(looks_like_image(b"\x89PNG"));
    assert!(looks_like_image(&[0; 129]));
    assert!(!looks_like_image(&[0; 128]));
    assert!(!looks_like_image(&[0xFF, 0xD8]));
    assert!(!looks_like_image(b""));
}

#[test]
fn http_answers_are_understood() {
    assert!(status_answer(200).is_ok());
    assert!(status_answer(304).is_ok());
    assert_eq!(
        status_answer(404).unwrap_err().message(),
        "eSCL protocol error: Couldn't read scanner status."
    );
    assert_eq!(page_answer(200).unwrap(), PageAnswer::Page);
    assert_eq!(page_answer(404).unwrap(), PageAnswer::NoMore);
    assert_eq!(
        page_answer(503).unwrap_err().message(),
        "eSCL protocol error: Load a page in the feeder, then scan."
    );
    assert_eq!(
        page_answer(500).unwrap_err().message(),
        "eSCL protocol error: Couldn't download a scanned page."
    );
}

#[test]
fn waits_grow_from_try_to_try() {
    let waits: Vec<Option<u64>> = (0..7).map(retry_wait).collect();
    assert_eq!(
        waits,
        vec![Some(400), Some(650), Some(900), Some(1150), Some(1400), Some(1650), None]
    );
}

#[test]
fn a_duplex_job_gives_both_sides() {
    let mut state = using(8080);
    let mut job = DuplexJob::start(&scanner(8080), &mut state, false);
    assert!(!state.progress.one_sided && !state.progress.job_posted);
    let next = job.posted(&mut state, 201, Some("/eSCL/ScanJobs/1/".to_string())).unwrap();
    assert_eq!(next, "http://192.168.1.5:8080/eSCL/ScanJobs/1/NextDocument");
    assert_eq!(state.status_line, "Scanning front…");
    assert_eq!(state.progress.current_side, 1);
    download_begun(&mut state, Some(1000));
    download_at(&mut state, 400);
    assert_eq!((state.progress.current_bytes, state.progress.expected_bytes), (400, 1000));
    let next = job.received(&mut state, vec![page(b"front")]);
    assert_eq!(next.as_deref(), Some("http://192.168.1.5:8080/eSCL/ScanJobs/1/NextDocument"));
    assert_eq!(state.status_line, "Scanning back…");
    assert_eq!(state.front_image.as_deref().map(|b| b.as_slice()), Some(&b"front"[..]));
    assert_eq!((state.progress.current_bytes, state.progress.expected_bytes), (0, 0));
    assert!(job.received(&mut state, vec![page(b"backside")]).is_none());
    assert_eq!(state.back_image.as_deref().map(|b| b.as_slice()), Some(&b"backside"[..]));
    assert_eq!((state.progress.front_bytes, state.progress.back_bytes), (5, 8));
    assert_eq!(state.progress.fraction(), Share { base: 100, span: 0 });
    assert_eq!(job.job_url, "http://192.168.1.5:8080/eSCL/ScanJobs/1/");
    let (front, back) = job.finish().unwrap();
    assert_eq!((front.as_slice(), back.as_slice()), (&b"front"[..], &b"backside"[..]));
}

#[test]
fn a_receipt_job_gives_one_side() {
    let mut state = using(8080);
    let mut job = DuplexJob::start(&scanner(8080), &mut state, true);
    assert!(state.progress.one_sided && state.progress.back_done);
    job.posted(&mut state, 200, Some("/eSCL/ScanJobs/2".to_string())).unwrap();
    assert_eq!(state.status_line, "Scanning receipt…");
    assert!(job.received(&mut state, vec![page(b"receipt")]).is_none());
    assert_eq!(state.progress.fraction(), Share { base: 100, span: 0 });
    let (front, back) = job.finish().unwrap();
    assert_eq!(front.as_slice(), b"receipt");
    assert!(back.is_empty());
}

#[test]
fn an_answer_with_both_sides_fills_front_and_back() {
    let mut state = using(8080);
    let mut job = DuplexJob::start(&scanner(8080), &mut state, false);
    job.posted(&mut state, 201, Some("/eSCL/ScanJobs/3".to_string())).unwrap();
    assert!(job.received(&mut state, vec![page(b"a"), page(b"bb"), page(b"ccc")]).is_some());
    assert_eq!(state.front_image.as_deref().map(|b| b.len()), Some(1));
    assert_eq!(state.back_image.as_deref().map(|b| b.len()), Some(3));
    let (front, back) = job.finish().unwrap();
    assert_eq!((front.len(), back.len()), (1, 2));
}

#[test]
fn a_job_without_pages_fails() {
    let mut state = using(8080);
    let mut job = DuplexJob::start(&scanner(8080), &mut state, false);
    job.posted(&mut state, 201, Some("/eSCL/ScanJobs/4".to_string())).unwrap();
    assert_eq!(
        job.finish().unwrap_err().message(),
        "eSCL protocol error: scan job returned no pages"
    );
}

#[test]
fn refused_jobs_say_why() {
    let mut state = using(8080);
    let table = [
        (503, Some("/x"), "Scanner is busy. Load a page and try Scan again."),
        (409, Some("/x"), "Scanner couldn't start the scan. Load a page and try again."),
        (302, Some("/x"), "Scanner couldn't start the scan. Load a page and try again."),
        (201, None, "Scanner didn't return a scan job."),
    ];
    for (status, location, why) in table {
        let mut job = DuplexJob::start(&scanner(8080), &mut state, false);
        let e = job.posted(&mut state, status, location.map(str::to_string)).unwrap_err();
        assert_eq!(e.message(), format!("eSCL protocol error: {why}"));
        assert!(!state.progress.job_posted);
        assert!(job.job_url.is_empty());
    }
}

#[test]
fn bodies_become_pages() {
    let mut state = using(8080);
    let mut pages: Vec<Arc<Vec<u8>>> = Vec::new();
    part_received(&mut state, &mut pages, b"not an image".to_vec());
    assert_eq!(state.progress.current_bytes, 12);
    part_received(&mut state, &mut pages, vec![0xFF, 0xD8, 0xFF, 1]);
    assert_eq!(pages.len(), 1);
    assert_eq!(pages[0].as_slice(), &[0xFF, 0xD8, 0xFF, 1]);
    assert_eq!(body_received(vec![1]).unwrap()[0].as_slice(), &[1]);
    assert_eq!(
        body_received(Vec::new()).unwrap_err().message(),
        "eSCL protocol error: empty NextDocument body"
    );
    download_begun(&mut state, None);
    assert_eq!(state.progress.expected_bytes, 0);
}

#[test]
fn a_watch_gives_up_after_four_misses() {
    let mut state = using(8080);
    let mut watch = Poller::new();
    watch.on_miss(&mut state);
    assert_eq!(state.connection, ConnectionState::Degraded);
    assert_eq!(state.status_line, "Checking the scanner again…");
    watch.on_miss(&mut state);
    watch.on_miss(&mut state);
    assert!(state.scanner.is_some());
    watch.on_miss(&mut state);
    assert!(state.scanner.is_none());
    assert_eq!(state.status_line, "Scanner went offline. Looking again…");
    assert_eq!(watch.misses, 0);
}

#[test]
fn an_answer_starts_the_count_anew() {
    let mut state = using(8080);
    let mut watch = Poller::new();
    for _ in 0..3 {
        watch.on_miss(&mut state);
    }
    watch.on_status(&mut state, &scanner(8080), report("Idle", Some(50)));
    assert_eq!(state.connection, ConnectionState::Connected);
    assert_eq!(state.status_line, "Connected over Wi-Fi.");
    assert_eq!(known_charge(&state), Some(50));
    watch.on_miss(&mut state);
    assert_eq!(watch.misses, 1);
    assert!(state.scanner.is_some());
}

#[test]
fn a_scan_excuses_silence() {
    let mut state = using(8080);
    state.connection = ConnectionState::Scanning;
    let mut watch = Poller::new();
    for _ in 0..9 {
        watch.on_miss(&mut state);
    }
    assert_eq!(watch.misses, 0);
    assert_eq!(state.connection, ConnectionState::Scanning);
}

#[test]
fn another_route_is_taken_up() {
    let mut state = using(443);
    let mut watch = Poller::new();
    watch.on_miss(&mut state);
    watch.on_alt_route(&mut state, scanner(8080), report("Idle", None));
    assert_eq!(watch.misses, 0);
    assert_eq!(state.scanner.as_ref().unwrap().port, 8080);
    assert_eq!(state.connection, ConnectionState::Connected);
    assert_eq!(state.status_line, "Connected over Wi-Fi.");
}

#[test]
fn only_network_scanners_are_watched() {
    let mut state = AppState::with_preferred(None);
    assert!(Poller::target(&state).is_none());
    state.offer_scanner(scanner(8080));
    assert_eq!(Poller::target(&state).unwrap().port, 8080);
    state.scanner.as_mut().unwrap().sane_device = Some("brother5:1".to_string());
    assert!(Poller::target(&state).is_none());
}

#[test]
fn the_battery_is_filled_in() {
    assert_eq!(battery_filled(report("Idle", Some(1)), Some(2), Some(3)).battery_percent, Some(1));
    assert_eq!(battery_filled(report("Idle", None), Some(2), Some(3)).battery_percent, Some(2));
    assert_eq!(battery_filled(report("Idle", None), None, Some(3)).battery_percent, Some(3));
    assert_eq!(battery_filled(report("Idle", None), None, None).battery_percent, None);
}
