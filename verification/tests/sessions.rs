use std::sync::Arc;

use scanbro::dashboard::{Dashboard, Effect, LivePreview, Message, SavedFile};
use scanbro::error::AppError;
use scanbro::keys::{key_id, message_of_key, KeyEvent, KeyPress};
use scanbro::scan::{on_done, on_failure, on_sheet, on_texts, start_scan, usb_route};
use scanbro::scanner::{HostAddr, ScannerInfo, Transport, TransportPref};
use scanbro::state::{AppState, ConnectionState, ScanPreset};
use scanbro::status::ScannerStatus;
use scanbro::view::{
    control_column, feed_overlay, header_bar, last_pdf_line, page_caption, page_spinner,
    scan_jpeg_bytes, scan_stage, scanner_choices, selected_choice, stage_counter, StageItem, Tone,
};

fn wifi(name: &str, last: u8) -> ScannerInfo {
    ScannerInfo {
        name: name.to_string(),
        hostname: "host".to_string(),
        ip: HostAddr::V4(192, 168, 1, last),
        port: 8080,
        escl_root: "eSCL".to_string(),
        service_type: "_uscan._tcp.local.".to_string(),
        via: Transport::Wifi,
        sane_device: None,
    }
}

fn report(adf: &str) -> Option<ScannerStatus> {
    Some(ScannerStatus {
        state: "Idle".to_string(),
        adf_state: adf.to_string(),
        battery_percent: Some(80),
        reasons: Vec::new(),
    })
}

fn connected() -> AppState {
    let mut state = AppState::with_preferred(None);
    state.offer_scanner(wifi("Brother DS-940DW", 5));
    state.status = report("ScannerAdfLoaded");
    state
}

fn page(b: &[u8]) -> Arc<Vec<u8>> {
    Arc::new(b.to_vec())
}

fn with_document(front: &[u8], back: &[u8]) -> AppState {
    let mut state = connected();
    start_scan(&mut state).unwrap();
    on_sheet(&mut state, &page(front), &page(back), 300, false);
    on_done(&mut state);
    state
}

fn key(d: &mut Dashboard, state: &mut AppState, k: &str) -> Effect {
    let e = d.update(state, Message::KeyDown(k.to_string()));
    d.update(state, Message::KeyUp(k.to_string()));
    e
}

fn done(shown: &str, size: Option<u64>) -> Message {
    Message::PdfDone(Ok(SavedFile { shown: shown.to_string(), size }))
}

#[test]
fn a_scan_needs_a_connected_scanner_with_paper() {
    let mut state = AppState::with_preferred(None);
    assert!(start_scan(&mut state).is_none());
    assert_eq!(state.session.last_error.as_deref(), Some("Connect the scanner first."));
    let mut state = connected();
    state.status = report("ScannerAdfEmpty");
    assert!(start_scan(&mut state).is_none());
    assert_eq!(
        state.session.last_error.as_deref(),
        Some("Load a page into the feeder, then scan.")
    );
    assert_eq!(state.connection, ConnectionState::Connected);
}

#[test]
fn a_scan_without_a_scanner_is_cancelled() {
    let mut state = connected();
    state.scanner = None;
    state.discovered.clear();
    assert!(start_scan(&mut state).is_none());
    assert_eq!(state.connection, ConnectionState::AwaitingConnection);
    assert_eq!(state.status_line, "Scan cancelled. No scanner connected.");
}

#[test]
fn a_scan_begins_a_new_document() {
    let mut state = with_document(b"front", b"back");
    assert_eq!(state.status_line, "Scan complete. Sheet 1 · 2 pages.");
    assert_eq!(state.session.jobs_ok, 1);
    assert_eq!((state.session.last_front_bytes, state.session.last_back_bytes), (5, 4));
    state.session.last_error = Some("old".to_string());
    let order = start_scan(&mut state).unwrap();
    assert_eq!(order.dpi, 300);
    assert!(order.ocr_on && !order.long_receipt);
    assert_eq!(order.scanner.name, "Brother DS-940DW");
    assert_eq!(state.status_line, "Starting scan…");
    assert_eq!(state.connection, ConnectionState::Scanning);
    assert!(state.pages.is_empty() && state.page_texts.is_empty());
    assert_eq!((state.sheets, state.pages_dpi), (0, 0));
    assert!(state.session.last_error.is_none() && state.front_image.is_none());
}

#[test]
fn a_scan_that_goes_on_keeps_the_document() {
    let mut state = with_document(b"front", b"back");
    state.scan_append = true;
    state.scan_preset = ScanPreset::Web;
    start_scan(&mut state).unwrap();
    assert_eq!(state.status_line, "Scanning next page…");
    assert_eq!(state.pages.len(), 2);
    on_sheet(&mut state, &page(b"third"), &page(b""), 150, false);
    let lens: Vec<usize> = state.pages.iter().map(|p| p.len()).collect();
    assert_eq!(lens, vec![5, 4, 5]);
    assert_eq!(state.page_texts.len(), 3);
    assert_eq!((state.sheets, state.pages_dpi), (2, 300));
    assert_eq!(state.status_line, "Scan complete. Sheet 2 · 3 pages.");
}

#[test]
fn receipts_have_their_own_lines() {
    let mut state = connected();
    state.long_receipt = true;
    assert!(start_scan(&mut state).unwrap().long_receipt);
    assert_eq!(state.status_line, "Starting receipt scan…");
    state.connection = ConnectionState::Connected;
    state.scan_append = true;
    start_scan(&mut state).unwrap();
    assert_eq!(state.status_line, "Scanning next receipt…");
}

#[test]
fn texts_stand_beside_the_pages_of_their_sheet() {
    let mut state = with_document(b"one", b"two");
    state.scan_append = true;
    start_scan(&mut state).unwrap();
    on_sheet(&mut state, &page(b""), &page(b"back"), 300, true);
    assert_eq!(state.connection, ConnectionState::RunningOcr);
    assert_eq!(state.status_line, "Sheet 2 in preview. Reading text…");
    on_texts(&mut state, false, true, "F".to_string(), "B".to_string());
    assert_eq!(state.page_texts, vec!["", "", "B"]);
    assert_eq!((state.front_text.as_str(), state.back_text.as_str()), ("F", "B"));
    assert_eq!(state.connection, ConnectionState::Connected);
    assert_eq!(state.session.jobs_ok, 2);
    state.scan_append = true;
    start_scan(&mut state).unwrap();
    on_sheet(&mut state, &page(b"a"), &page(b"b"), 300, true);
    on_texts(&mut state, true, true, "A".to_string(), "BB".to_string());
    assert_eq!(state.page_texts, vec!["", "", "B", "A", "BB"]);
}

#[test]
fn continuous_scans_ask_for_the_next_sheet() {
    let mut state = connected();
    state.continuous = true;
    start_scan(&mut state).unwrap();
    on_sheet(&mut state, &page(b"a"), &page(b"b"), 300, false);
    assert!(state.prompt_continue && state.busy_scan());
    assert_eq!(state.status_line, "Sheet 1 added (2 pages). Continue or cancel.");
}

#[test]
fn a_failed_scan_keeps_or_loses_the_scanner() {
    let mut state = connected();
    start_scan(&mut state).unwrap();
    on_failure(&mut state, &AppError::Escl("no".to_string()));
    assert_eq!(state.connection, ConnectionState::Connected);
    assert_eq!(state.status_line, "Scan failed. The scanner is still connected.");
    assert_eq!(state.session.last_error.as_deref(), Some("eSCL protocol error: no"));
    assert_eq!(state.session.jobs_failed, 1);
    assert!(state.scanner.is_some());
    for e in [AppError::Disconnected, AppError::Network("cut".to_string())] {
        let mut state = connected();
        start_scan(&mut state).unwrap();
        on_failure(&mut state, &e);
        assert!(state.scanner.is_none());
        assert_eq!(state.connection, ConnectionState::AwaitingConnection);
        assert_eq!(state.status_line, "Lost the scanner during the scan. Looking again…");
    }
}

#[test]
fn sane_scanners_are_used_over_usb() {
    let route = |d: Option<&str>| {
        let mut s = wifi("A", 5);
        s.sane_device = d.map(str::to_string);
        usb_route(&s)
    };
    assert_eq!(route(Some("Brother5:bus1")).as_deref(), Some("Brother5:bus1"));
    assert_eq!(route(Some("escl:http://x")), None);
    assert_eq!(route(Some("brother:http://x")), None);
    assert_eq!(route(None), None);
}

#[test]
fn keys_have_names() {
    assert_eq!(key_id(&KeyPress::Enter), "enter");
    assert_eq!(key_id(&KeyPress::Escape), "escape");
    assert_eq!(key_id(&KeyPress::Character("S".to_string())), "s");
    assert_eq!(key_id(&KeyPress::Character("É".to_string())), "é");
    assert_eq!(key_id(&KeyPress::Other), "");
}

#[test]
fn keys_of_the_desktop_are_left_alone() {
    let event = |down: bool, captured: bool, control: bool, alt: bool, logo: bool| {
        message_of_key(&KeyEvent {
            key: KeyPress::Character("P".to_string()),
            down,
            captured,
            control,
            alt,
            logo,
        })
    };
    assert!(matches!(event(true, false, false, false, false), Some(Message::KeyDown(k)) if k == "p"));
    assert!(event(true, true, false, false, false).is_none());
    assert!(event(true, false, true, false, false).is_none());
    assert!(event(true, false, false, true, false).is_none());
    assert!(event(true, false, false, false, true).is_none());
    assert!(matches!(event(false, false, true, true, true), Some(Message::KeyUp(k)) if k == "p"));
    assert!(event(false, true, false, false, false).is_none());
}

#[test]
fn a_key_acts_once_until_it_is_let_go() {
    let mut d = Dashboard::new();
    let mut state = connected();
    d.update(&mut state, Message::KeyDown("o".to_string()));
    assert!(!state.ocr_enabled);
    d.update(&mut state, Message::KeyDown("o".to_string()));
    assert!(!state.ocr_enabled);
    d.update(&mut state, Message::KeyUp("o".to_string()));
    d.update(&mut state, Message::KeyDown("o".to_string()));
    assert!(state.ocr_enabled);
}

#[test]
fn every_button_has_a_key() {
    let mut d = Dashboard::new();
    let mut state = connected();
    assert!(matches!(key(&mut d, &mut state, "s"), Effect::Scan));
    assert!(matches!(key(&mut d, &mut state, "enter"), Effect::Scan));
    key(&mut d, &mut state, "c");
    key(&mut d, &mut state, "l");
    assert!(state.continuous && state.long_receipt);
    for (k, preset) in ["1", "2", "3", "4", "5"].iter().zip(ScanPreset::all()) {
        key(&mut d, &mut state, k);
        assert_eq!(state.scan_preset, preset);
    }
    key(&mut d, &mut state, "w");
    assert_eq!(state.transport_pref, TransportPref::Wifi);
    key(&mut d, &mut state, "a");
    assert_eq!(state.transport_pref, TransportPref::Auto);
    state.offer_scanner(wifi("B", 6));
    match key(&mut d, &mut state, "]") {
        Effect::Remember(k) => assert_eq!(k, "wifi:192.168.1.6"),
        other => panic!("{other:?}"),
    }
    assert!(matches!(key(&mut d, &mut state, "["), Effect::Remember(_)));
    key(&mut d, &mut state, "u");
    assert_eq!(state.transport_pref, TransportPref::Usb);
    assert!(state.scanner.is_none());
    assert!(matches!(key(&mut d, &mut state, "z"), Effect::Nothing));
    assert!(matches!(key(&mut d, &mut state, ""), Effect::Nothing));
    state.prompt_continue = true;
    key(&mut d, &mut state, "enter");
    assert!(state.waiting_for_paper);
    assert!(matches!(key(&mut d, &mut state, "enter"), Effect::Nothing));
    key(&mut d, &mut state, "escape");
    assert!(!state.waiting_for_paper);
    assert_eq!(state.status_line, "Scan cancelled.");
}

#[test]
fn clicks_change_the_settings() {
    let mut d = Dashboard::new();
    let mut state = connected();
    d.update(&mut state, Message::ToggleOcr(false));
    d.update(&mut state, Message::ToggleContinuous(true));
    d.update(&mut state, Message::ToggleLongReceipt(true));
    d.update(&mut state, Message::SetPreset(ScanPreset::Fine));
    d.update(&mut state, Message::SetTransport(TransportPref::Wifi));
    assert!(!state.ocr_enabled && state.continuous && state.long_receipt);
    assert_eq!(state.scan_preset, ScanPreset::Fine);
    assert_eq!(state.transport_pref, TransportPref::Wifi);
    let chosen = d.update(&mut state, Message::SelectScanner("wifi:192.168.1.5".to_string()));
    assert!(matches!(chosen, Effect::Remember(k) if k == "wifi:192.168.1.5"));
}

#[test]
fn nothing_changes_while_a_scan_runs() {
    let mut d = Dashboard::new();
    let mut state = connected();
    start_scan(&mut state).unwrap();
    assert!(matches!(d.update(&mut state, Message::Scan), Effect::Nothing));
    for m in [
        Message::SetPreset(ScanPreset::Fine),
        Message::ToggleOcr(false),
        Message::ToggleContinuous(true),
        Message::ToggleLongReceipt(true),
        Message::FlipOcr,
        Message::FlipContinuous,
        Message::FlipLongReceipt,
        Message::SetTransport(TransportPref::Usb),
        Message::SelectScanner("wifi:192.168.1.5".to_string()),
    ] {
        assert!(matches!(d.update(&mut state, m.clone()), Effect::Nothing), "{m:?}");
    }
    assert!(state.ocr_enabled && !state.continuous && !state.long_receipt);
    assert_eq!(state.scan_preset, ScanPreset::Document);
    assert_eq!(state.transport_pref, TransportPref::Auto);
    assert!(state.preferred_id.is_none());
}

#[test]
fn a_document_is_saved_once() {
    let mut d = Dashboard::new();
    let mut state = with_document(b"front", b"back");
    match d.update(&mut state, Message::SavePdf) {
        Effect::SavePdf(pages, dpi, pick) => {
            assert_eq!(pages.len(), 2);
            assert_eq!(pages[0].as_slice(), b"front");
            assert_eq!((dpi, pick), (300, true));
        }
        other => panic!("{other:?}"),
    }
    assert_eq!(state.status_line, "Saving PDF…");
    assert!(d.is_busy(&state));
    assert!(matches!(d.update(&mut state, Message::SavePdf), Effect::Nothing));
    assert!(matches!(d.update(&mut state, Message::EmailPdf), Effect::Nothing));
    state.session.last_error = Some("old".to_string());
    assert!(matches!(d.update(&mut state, done("/x/scan.pdf", Some(2048))), Effect::Nothing));
    assert_eq!(state.status_line, "saved /x/scan.pdf · 2 KB");
    assert_eq!(state.last_pdf.as_deref(), Some("/x/scan.pdf"));
    assert_eq!(state.last_pdf_dpi, Some(300));
    assert!(state.session.last_error.is_none() && !d.saving);
    d.update(&mut state, Message::SavePdf);
    d.update(&mut state, done("/x/b.pdf", None));
    assert_eq!(state.status_line, "saved /x/b.pdf");
}

#[test]
fn a_document_is_emailed() {
    let mut d = Dashboard::new();
    let mut state = with_document(b"front", b"back");
    assert!(matches!(d.update(&mut state, Message::EmailPdf), Effect::EmailPdf(p, 300) if p.len() == 2));
    assert_eq!(state.status_line, "Preparing a PDF under 5 MB…");
    assert!(d.email_after);
    assert!(matches!(
        d.update(&mut state, done("/x/scan-email.pdf", Some(1_572_864))),
        Effect::AttachEmail
    ));
    assert_eq!(state.status_line, "Opening mail with a 1.5 MB PDF…");
    assert!(state.last_pdf.is_none());
    d.update(&mut state, Message::EmailDone(Ok(())));
    assert_eq!(state.status_line, "Mail composer opened.");
    d.update(&mut state, Message::EmailDone(Err("no mail".to_string())));
    assert_eq!(state.session.last_error.as_deref(), Some("no mail"));
    d.update(&mut state, Message::EmailPdf);
    d.update(&mut state, done("/x/y.pdf", None));
    assert_eq!(state.status_line, "Opening mail with a 0.0 MB PDF…");
}

#[test]
fn a_failed_file_is_told() {
    let mut d = Dashboard::new();
    let mut state = with_document(b"front", b"");
    d.update(&mut state, Message::EmailPdf);
    d.update(&mut state, Message::PdfDone(Err("disk full".to_string())));
    assert_eq!(state.session.last_error.as_deref(), Some("disk full"));
    assert!(!d.saving && !d.email_after);
}

#[test]
fn without_pages_nothing_is_written() {
    let mut d = Dashboard::new();
    let mut state = connected();
    assert!(matches!(d.update(&mut state, Message::SavePdf), Effect::Nothing));
    assert_eq!(state.session.last_error.as_deref(), Some("Scan a page before saving a PDF."));
    assert!(matches!(d.update(&mut state, Message::EmailPdf), Effect::Nothing));
    assert_eq!(state.session.last_error.as_deref(), Some("Scan a page before emailing a PDF."));
    state.front_image = Some(page(b"f"));
    state.back_image = Some(page(b""));
    state.scan_preset = ScanPreset::Photo;
    let (pages, dpi) = Dashboard::collect_pages(&state);
    assert_eq!((pages.len(), dpi), (1, 400));
    assert!(matches!(d.save_pdf(&mut state, false), Effect::SavePdf(_, 400, false)));
}

#[test]
fn the_next_sheet_is_waited_for() {
    let mut d = Dashboard::new();
    let mut state = with_document(b"front", b"back");
    assert!(matches!(d.update(&mut state, Message::ContinueFeed), Effect::Nothing));
    state.prompt_continue = true;
    state.status = report("ScannerAdfEmpty");
    assert!(matches!(d.update(&mut state, Message::ContinueFeed), Effect::Nothing));
    assert!(state.waiting_for_paper && state.scan_append && !state.prompt_continue);
    assert_eq!(state.status_line, "Load the next page…");
    assert!(matches!(d.update(&mut state, Message::Tick), Effect::Refresh(_, false)));
    state.status = report("ScannerAdfLoaded");
    assert!(matches!(d.update(&mut state, Message::Tick), Effect::Refresh(_, true)));
    assert_eq!(state.status_line, "Paper detected. Scanning…");
    start_scan(&mut state).unwrap();
    assert_eq!(state.pages.len(), 2);
}

#[test]
fn a_sheet_in_the_feeder_is_scanned_at_once() {
    let mut d = Dashboard::new();
    let mut state = with_document(b"front", b"back");
    state.prompt_continue = true;
    assert!(matches!(d.update(&mut state, Message::ContinueFeed), Effect::Scan));
    assert!(!state.waiting_for_paper && state.scan_append);
}

#[test]
fn cancelling_closes_the_document() {
    let mut d = Dashboard::new();
    let mut state = with_document(b"front", b"back");
    state.prompt_continue = true;
    state.scan_append = true;
    d.update(&mut state, Message::CancelFeed);
    assert!(!state.prompt_continue && !state.scan_append && !state.busy_scan());
    assert_eq!(state.status_line, "Document ready (2 pages).");
}

#[test]
fn previews_follow_the_document() {
    let mut d = Dashboard::new();
    let mut state = with_document(b"front", b"back");
    let plan = d.sync_previews(&state);
    assert!(!plan.clear);
    assert_eq!(plan.add.len(), 2);
    assert!(matches!(&plan.front, LivePreview::Show(b) if b.as_slice() == b"front"));
    assert!(matches!(&plan.back, LivePreview::Show(b) if b.as_slice() == b"back"));
    assert_eq!((d.handles, d.page_lens.len()), (2, 2));
    let again = d.sync_previews(&state);
    assert!(!again.clear && again.add.is_empty());
    assert!(matches!(again.front, LivePreview::Keep) && matches!(again.back, LivePreview::Keep));
    state.scan_append = true;
    start_scan(&mut state).unwrap();
    let cleared = d.sync_previews(&state);
    assert!(matches!(cleared.front, LivePreview::Clear) && cleared.add.is_empty());
    on_sheet(&mut state, &page(b"third"), &page(b""), 300, false);
    let more = d.sync_previews(&state);
    assert!(!more.clear);
    assert_eq!(more.add.len(), 1);
    start_scan(&mut state).unwrap();
    let fresh = d.sync_previews(&state);
    assert!(fresh.clear && fresh.add.is_empty());
    assert_eq!(d.handles, 0);
}

#[test]
fn the_sign_turns_with_every_tick() {
    let mut d = Dashboard::new();
    let mut state = connected();
    d.spin_phase = 255;
    d.update(&mut state, Message::Tick);
    assert_eq!(d.spin_phase, 0);
    d.update(&mut state, Message::Tick);
    assert_eq!(d.spin_phase, 1);
    let frames: Vec<&str> = (0..5).map(page_spinner).collect();
    assert_eq!(frames, vec!["◐", "◓", "◑", "◒", "◐"]);
}

#[test]
fn the_header_tells_the_connection() {
    let labels = |state: &AppState| {
        header_bar(state).chips.iter().map(|c| (c.label.clone(), c.tone)).collect::<Vec<_>>()
    };
    let state = AppState::with_preferred(None);
    let header = header_bar(&state);
    assert_eq!(header.prompt, "▸  no scanner");
    assert_eq!(header.status_line, "Looking for your scanner…");
    assert_eq!(
        labels(&state),
        vec![
            ("LOOKING  —".to_string(), Some(Tone::Amber)),
            ("EMPTY".to_string(), Some(Tone::Muted)),
            ("DUPLEX  COLOR  300DPI".to_string(), None),
        ]
    );
    let mut state = with_document(b"front", b"back");
    assert_eq!(header_bar(&state).prompt, "▸  Brother DS-940DW  ·  Wi-Fi  192.168.1.5");
    assert_eq!(
        labels(&state),
        vec![
            ("CONNECTED  Wi-Fi".to_string(), Some(Tone::Green)),
            ("SHEET LOADED".to_string(), Some(Tone::Green)),
            ("DUPLEX  COLOR  300DPI".to_string(), None),
            ("SHEET 1  2P  9 B".to_string(), None),
            ("BAT 80%".to_string(), None),
        ]
    );
    state.status = report("ScannerAdfJam");
    state.connection = ConnectionState::Degraded;
    assert_eq!(header_bar(&state).fault.as_deref(), Some("Paper jam. Clear the feeder."));
    assert_eq!(labels(&state)[0], ("DEGRADED  Wi-Fi".to_string(), Some(Tone::Red)));
    assert_eq!(labels(&state)[1], ("JAM".to_string(), Some(Tone::Red)));
}

#[test]
fn the_header_follows_a_scan() {
    let labels = |state: &AppState| {
        header_bar(state).chips.iter().map(|c| (c.label.clone(), c.tone)).collect::<Vec<_>>()
    };
    let mut state = connected();
    start_scan(&mut state).unwrap();
    let chips = labels(&state);
    assert_eq!(chips[1], ("PULLING THROUGH".to_string(), Some(Tone::Amber)));
    assert_eq!(chips[3], ("SHEET 1  2P".to_string(), None));
    assert_eq!(chips[4], ("FRONT".to_string(), Some(Tone::Amber)));
    assert_eq!(chips[5], ("BACK".to_string(), Some(Tone::Muted)));
    state.progress.front_done = true;
    assert_eq!(labels(&state)[4], ("FRONT".to_string(), Some(Tone::Green)));
    assert_eq!(labels(&state)[5], ("BACK".to_string(), Some(Tone::Amber)));
    state.progress.back_done = true;
    assert_eq!(labels(&state)[5], ("BACK".to_string(), Some(Tone::Green)));
    state.long_receipt = true;
    let chips = labels(&state);
    assert_eq!(chips[2], ("RECEIPT  1-SIDE  300DPI".to_string(), None));
    assert_eq!(chips[3], ("SHEET 1  1P".to_string(), None));
    assert_eq!(chips[4], ("RECEIPT".to_string(), Some(Tone::Amber)));
}

#[test]
fn controls_follow_the_state() {
    let state = connected();
    let c = control_column(&state, false);
    assert!(c.can_scan && !c.can_save && !c.busy);
    assert_eq!((c.scan_label, c.save_label.as_str(), c.email_label.as_str()), ("Scan", "Save PDF", "Email PDF"));
    assert!(c.email_hint.is_none() && c.error.is_empty());
    let mut state = with_document(&[1; 1024], &[2; 1024]);
    assert_eq!(scan_jpeg_bytes(&state), 2048);
    let c = control_column(&state, false);
    assert!(c.can_scan && c.can_save);
    assert_eq!(c.save_label, "Save PDF  2 KB");
    assert_eq!(c.email_label, "Email PDF  2 KB");
    assert_eq!(c.email_hint.as_deref(), Some("2 KB — fits in email as-is."));
    assert_eq!(c.size_label, "2 KB");
    let c = control_column(&state, true);
    assert!(!c.can_scan && !c.can_save && c.busy);
    assert_eq!(c.save_label, "Working…");
    state.pages.push(Arc::new(vec![0; 6_000_000]));
    state.session.last_error = Some("oops".to_string());
    let c = control_column(&state, false);
    assert_eq!(c.email_label, "Email PDF  under 5 MB");
    assert_eq!(
        c.email_hint.as_deref(),
        Some("5.7 MB full scan. Email copy will be under 5 MB.")
    );
    assert_eq!(c.error, "oops");
    state.connection = ConnectionState::Scanning;
    let c = control_column(&state, false);
    assert_eq!((c.scan_label, c.save_label.as_str()), ("Scanning…", "Save PDF"));
    assert!(c.busy && !c.can_save);
}

#[test]
fn scanners_can_be_chosen() {
    let mut state = connected();
    state.offer_scanner(wifi("B", 6));
    let list = scanner_choices(&state);
    assert_eq!(list.len(), 2);
    assert_eq!((list[1].key.as_str(), list[1].line.as_str()), ("wifi:192.168.1.6", "B  Wi-Fi  192.168.1.6"));
    assert_eq!(selected_choice(&state), Some(0));
    state.select_scanner("wifi:192.168.1.6");
    assert_eq!(selected_choice(&state), Some(1));
    state.scanner = Some(wifi("C", 9));
    assert_eq!(selected_choice(&state), None);
    state.scanner = None;
    assert_eq!(selected_choice(&state), None);
}

#[test]
fn the_last_file_is_shown() {
    let file = |n: &str, size: Option<u64>| Some(SavedFile { shown: n.to_string(), size });
    assert_eq!(last_pdf_line(&None), "—");
    assert_eq!(last_pdf_line(&file("scan.pdf", Some(3_145_728))), "scan.pdf · 3.0 MB");
    assert_eq!(last_pdf_line(&file("scan.pdf", None)), "scan.pdf");
}

#[test]
fn the_preview_has_a_place_for_every_side() {
    assert_eq!(scan_stage(0, true, true, false, 3, false), vec![]);
    assert_eq!(
        scan_stage(2, false, false, true, 255, false),
        vec![StageItem::Page(0), StageItem::Page(1), StageItem::Spinner(255), StageItem::Spinner(0)]
    );
    assert_eq!(
        scan_stage(0, true, true, true, 0, false),
        vec![StageItem::LiveFront, StageItem::LiveBack]
    );
    assert_eq!(scan_stage(0, false, true, true, 7, true), vec![StageItem::Spinner(7)]);
    assert_eq!(page_caption(0), "Page 1");
    assert_eq!(page_caption(9), "Page 10");
}

#[test]
fn the_preview_counts_pages_and_sheets() {
    let mut state = connected();
    assert_eq!(stage_counter(0, &state), "");
    start_scan(&mut state).unwrap();
    assert_eq!(stage_counter(2, &state), "Page 1 of 2  ·  Sheet 1 · 2 pages");
    let state = with_document(b"front", b"back");
    assert_eq!(stage_counter(1, &state), "Page 1 of 2  ·  Sheet 1 · 2 pages");
}

#[test]
fn overlays_ask_and_wait() {
    let mut state = with_document(b"front", b"back");
    assert!(feed_overlay(&state).is_none());
    state.waiting_for_paper = true;
    let o = feed_overlay(&state).unwrap();
    assert_eq!(o.title, "Waiting for paper…");
    assert_eq!(
        o.body,
        "Sheet 1 · 2 pages so far. Load the next sheet — scanning starts automatically. Cancel finishes the document."
    );
    assert!(!o.show_continue);
    state.prompt_continue = true;
    let o = feed_overlay(&state).unwrap();
    assert_eq!(o.title, "Next sheet?");
    assert_eq!(
        o.body,
        "Sheet 1 · 2 pages in this document. Load the next sheet, then Continue. Cancel finishes the document."
    );
    assert!(o.show_continue);
}
