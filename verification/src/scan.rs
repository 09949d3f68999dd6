//! A scan as the user sees it: how it begins, what becomes of its pages, and how it ends.

use std::sync::Arc;

use vstd::prelude::*;

use crate::error;
use crate::error::{AppError, ErrorModel};
use crate::images;
use crate::laws;
use crate::number;
use crate::scanner;
use crate::scanner::{ScannerInfo, ScannerModel};
use crate::state;
use crate::state::{AppState, ConnectionState, ScanProgress, SessionModel, StateModel};
use crate::status;
use crate::status::FeederKind;
use crate::text;

verus! {

/// A scan that is to be made.
#[derive(Debug)]
pub struct ScanOrder {
    pub scanner: ScannerInfo,
    pub ocr_on: bool,
    pub long_receipt: bool,
    pub dpi: u16,
}

/// What a `ScanOrder` says.
#[verifier::ext_equal]
pub struct OrderModel {
    pub scanner: ScannerModel,
    pub ocr_on: bool,
    pub long_receipt: bool,
    pub dpi: u16,
}

impl View for ScanOrder {
    type V = OrderModel;

    open spec fn view(&self) -> OrderModel {
        OrderModel {
            scanner: self.scanner@,
            ocr_on: self.ocr_on,
            long_receipt: self.long_receipt,
            dpi: self.dpi,
        }
    }
}

/// The view of an optional order.
pub open spec fn order_of(o: Option<ScanOrder>) -> Option<OrderModel> {
    match o {
        Some(o) => Some(o@),
        None => None,
    }
}

/// The state with a failure to tell.
pub open spec fn with_error(m: StateModel, e: Option<Seq<char>>) -> StateModel {
    StateModel { session: SessionModel { last_error: e, ..m.session }, ..m }
}

/// Why no scan can begin.
pub open spec fn refusal(m: StateModel) -> Option<Seq<char>> {
    if m.connection != ConnectionState::Connected {
        Some("Connect the scanner first."@)
    } else if m.status is Some && status::feeder(m.status->0) == FeederKind::Empty {
        Some("Load a page into the feeder, then scan."@)
    } else {
        None
    }
}

/// What is shown while a scan begins.
pub open spec fn begin_line(long_receipt: bool, append: bool) -> Seq<char> {
    if long_receipt {
        if append {
            "Scanning next receipt…"@
        } else {
            "Starting receipt scan…"@
        }
    } else if append {
        "Scanning next page…"@
    } else {
        "Starting scan…"@
    }
}

/// The state in which a scan begins: a new document unless the scan goes on with one.
pub open spec fn begun(m: StateModel) -> StateModel {
    let base = StateModel {
        scan_append: false,
        connection: ConnectionState::Scanning,
        status_line: begin_line(m.long_receipt, m.scan_append),
        progress: state::no_progress(),
        front_image: None,
        back_image: None,
        front_text: Seq::empty(),
        back_text: Seq::empty(),
        ..with_error(m, None)
    };
    if m.scan_append {
        base
    } else {
        StateModel {
            pages: Seq::empty(),
            page_texts: Seq::empty(),
            sheets: 0,
            pages_dpi: 0,
            ..base
        }
    }
}

/// The state after the user asked for a scan.
pub open spec fn scan_asked(m: StateModel) -> StateModel {
    match refusal(m) {
        Some(why) => with_error(m, Some(why)),
        None => if m.scanner is None {
            state::disconnected(begun(m), "Scan cancelled. No scanner connected."@)
        } else {
            begun(m)
        },
    }
}

/// The scan that the user asked for; none where it is refused.
pub open spec fn order(m: StateModel) -> Option<OrderModel> {
    if refusal(m) is None && m.scanner is Some {
        Some(
            OrderModel {
                scanner: m.scanner->0,
                ocr_on: m.ocr_enabled,
                long_receipt: m.long_receipt,
                dpi: state::preset_dpi(m.scan_preset),
            },
        )
    } else {
        None
    }
}

fn begin(state: &mut AppState)
    ensures
        final(state)@ == begun(old(state)@),
        final(state).last_seen == old(state).last_seen,
{
    let append = state.scan_append;
    state.scan_append = false;
    state.connection = ConnectionState::Scanning;
    state.status_line =
    if state.long_receipt {
        if append {
            "Scanning next receipt…".to_owned()
        } else {
            "Starting receipt scan…".to_owned()
        }
    } else if append {
        "Scanning next page…".to_owned()
    } else {
        "Starting scan…".to_owned()
    };
    state.session.last_error = None;
    state.progress = ScanProgress::default();
    state.front_image = None;
    state.back_image = None;
    state.front_text = String::new();
    state.back_text = String::new();
    if !append {
        state.pages = Vec::new();
        state.page_texts = Vec::new();
        state.sheets = 0;
        state.pages_dpi = 0;
    }
    assert(state@ =~= begun(old(state)@));
}

/// The user asked for a scan. Gives the scan that is to be made, where none stands against it.
pub fn start_scan(state: &mut AppState) -> (r: Option<ScanOrder>)
    ensures
        final(state)@ == scan_asked(old(state)@),
        order_of(r) == order(old(state)@),
        final(state).last_seen == old(state).last_seen,
{
    if state.connection != ConnectionState::Connected {
        state.session.last_error = Some("Connect the scanner first.".to_owned());
        return None;
    }
    let mut empty = false;
    if let Some(s) = &state.status {
        empty = s.feeder_kind() == FeederKind::Empty;
    }
    if empty {
        state.session.last_error = Some("Load a page into the feeder, then scan.".to_owned());
        return None;
    }
    begin(state);
    let mut found: Option<ScannerInfo> = None;
    if let Some(s) = &state.scanner {
        found = Some(s.clone());
    }
    match found {
        Some(s) => Some(
            ScanOrder {
                scanner: s,
                ocr_on: state.ocr_enabled,
                long_receipt: state.long_receipt,
                dpi: state.scan_preset.dpi(),
            },
        ),
        None => {
            state.mark_disconnected("Scan cancelled. No scanner connected.");
            None
        },
    }
}

/// The SANE device over which a scanner is used; none where it is used over the network protocol.
pub open spec fn sane_route(s: ScannerModel) -> Option<Seq<char>> {
    match s.sane_device {
        Some(d) => if text::begins(text::lower(d), "brother"@) && !text::begins(
            text::lower(d),
            "escl:"@,
        ) && !text::has(text::lower(d), "://"@) {
            Some(d)
        } else {
            None
        },
        None => None,
    }
}

/// The SANE device over which a scanner is used; none where it is used over the network protocol.
pub fn usb_route(scanner: &ScannerInfo) -> (r: Option<String>)
    ensures
        text::text_of(r) == sane_route(scanner@),
{
    match &scanner.sane_device {
        Some(d) => {
            let l = text::to_lower(d.as_str());
            if text::starts_with(l.as_str(), "brother") && !text::starts_with(l.as_str(), "escl:")
                && !text::contains(l.as_str(), "://") {
                Some(d.clone())
            } else {
                None
            }
        },
        None => None,
    }
}

/// The sides of a sheet that hold anything.
pub open spec fn sides_present(front: Seq<u8>, back: Seq<u8>) -> Seq<Seq<u8>> {
    (if front.len() > 0 {
        seq![front]
    } else {
        Seq::empty()
    }) + (if back.len() > 0 {
        seq![back]
    } else {
        Seq::empty()
    })
}

/// As many empty texts.
pub open spec fn blank_texts(n: nat) -> Seq<Seq<char>> {
    Seq::new(n, |i: int| Seq::empty())
}

/// The resolution of a document with one more sheet.
pub open spec fn document_dpi(before: u16, dpi: u16) -> u16 {
    if before == 0 || dpi > before {
        dpi
    } else {
        before
    }
}

/// What is shown when a sheet was added to a document that may go on.
pub open spec fn added_line(sheets: u32, pages: nat) -> Seq<char> {
    "Sheet "@ + number::decimal(sheets as nat) + " added ("@ + number::decimal(pages)
        + " pages). Continue or cancel."@
}

/// What is shown when a document is complete.
pub open spec fn complete_line(sheets: u32, pages: nat) -> Seq<char> {
    "Scan complete. Sheet "@ + number::decimal(sheets as nat) + " · "@ + number::decimal(pages)
        + " pages."@
}

/// What is shown while the text of a sheet is read.
pub open spec fn reading_line(sheets: u32) -> Seq<char> {
    "Sheet "@ + number::decimal(sheets as nat) + " in preview. Reading text…"@
}

/// The state with the pages of a sheet in the document.
pub open spec fn sheet_kept(m: StateModel, front: Seq<u8>, back: Seq<u8>, dpi: u16) -> StateModel {
    let sides = sides_present(front, back);
    StateModel {
        session: SessionModel {
            last_front_bytes: front.len() as usize,
            last_back_bytes: back.len() as usize,
            ..m.session
        },
        pages: m.pages + sides,
        page_texts: m.page_texts + blank_texts(sides.len()),
        front_image: if front.len() > 0 {
            Some(front)
        } else {
            m.front_image
        },
        back_image: if back.len() > 0 {
            Some(back)
        } else {
            m.back_image
        },
        sheets: (m.sheets + 1) as u32,
        pages_dpi: document_dpi(m.pages_dpi, dpi),
        progress: ScanProgress { front_done: true, back_done: true, ..m.progress },
        ..m
    }
}

/// The state after a sheet is done: the user is asked for the next one, or the document is
/// complete.
pub open spec fn sheet_closed(m: StateModel) -> StateModel {
    StateModel {
        connection: ConnectionState::Connected,
        prompt_continue: m.continuous || m.prompt_continue,
        status_line: if m.continuous {
            added_line(m.sheets, m.pages.len())
        } else {
            complete_line(m.sheets, m.pages.len())
        },
        ..m
    }
}

/// The state after a sheet was scanned: its text is read next, or it is done.
pub open spec fn sheet_scanned(
    m: StateModel,
    front: Seq<u8>,
    back: Seq<u8>,
    dpi: u16,
    run_ocr: bool,
) -> StateModel {
    let kept = sheet_kept(m, front, back, dpi);
    if run_ocr {
        StateModel {
            connection: ConnectionState::RunningOcr,
            status_line: reading_line(kept.sheets),
            ..kept
        }
    } else {
        sheet_closed(kept)
    }
}

fn add_page(pages: &mut Vec<Arc<Vec<u8>>>, texts: &mut Vec<String>, page: &Arc<Vec<u8>>)
    ensures
        state::images_of(final(pages)@) == state::images_of(old(pages)@) + sides_present(
            page@,
            Seq::empty(),
        ),
        text::texts_of(final(texts)@) == text::texts_of(old(texts)@) + blank_texts(
            sides_present(page@, Seq::empty()).len(),
        ),
{
    let ghost pages0 = state::images_of(pages@);
    let ghost texts0 = text::texts_of(texts@);
    if page.len() > 0 {
        let copy = images::share(page);
        let blank = String::new();
        proof {
            state::lemma_images_push(pages@, copy);
            text::lemma_texts_push(texts@, blank);
            assert(blank@ =~= Seq::empty());
        }
        pages.push(copy);
        texts.push(blank);
    }
    assert(state::images_of(pages@) =~= pages0 + sides_present(page@, Seq::empty()));
    assert(text::texts_of(texts@) =~= texts0 + blank_texts(
        sides_present(page@, Seq::empty()).len(),
    ));
}

fn add_sides(
    pages: &mut Vec<Arc<Vec<u8>>>,
    texts: &mut Vec<String>,
    front: &Arc<Vec<u8>>,
    back: &Arc<Vec<u8>>,
)
    ensures
        state::images_of(final(pages)@) == state::images_of(old(pages)@) + sides_present(
            front@,
            back@,
        ),
        text::texts_of(final(texts)@) == text::texts_of(old(texts)@) + blank_texts(
            sides_present(front@, back@).len(),
        ),
{
    let ghost pages0 = state::images_of(pages@);
    let ghost texts0 = text::texts_of(texts@);
    add_page(pages, texts, front);
    add_page(pages, texts, back);
    assert(state::images_of(pages@) =~= pages0 + sides_present(front@, back@));
    assert(text::texts_of(texts@) =~= texts0 + blank_texts(sides_present(front@, back@).len()));
}

fn keep_pages(state: &mut AppState, front: &Arc<Vec<u8>>, back: &Arc<Vec<u8>>)
    ensures
        final(state)@ == (StateModel {
            pages: old(state)@.pages + sides_present(front@, back@),
            page_texts: old(state)@.page_texts + blank_texts(sides_present(front@, back@).len()),
            ..old(state)@
        }),
        final(state).last_seen == old(state).last_seen,
{
    add_sides(&mut state.pages, &mut state.page_texts, front, back);
}

fn keep_images(state: &mut AppState, front: &Arc<Vec<u8>>, back: &Arc<Vec<u8>>)
    ensures
        final(state)@ == (StateModel {
            front_image: if front@.len() > 0 {
                Some(front@)
            } else {
                old(state)@.front_image
            },
            back_image: if back@.len() > 0 {
                Some(back@)
            } else {
                old(state)@.back_image
            },
            ..old(state)@
        }),
        final(state).last_seen == old(state).last_seen,
{
    if front.len() > 0 {
        state.front_image = Some(images::share(front));
    }
    if back.len() > 0 {
        state.back_image = Some(images::share(back));
    }
}

fn count_sheet(state: &mut AppState, front: usize, back: usize, dpi: u16)
    requires
        old(state)@.sheets < u32::MAX,
    ensures
        final(state)@ == (StateModel {
            session: SessionModel {
                last_front_bytes: front,
                last_back_bytes: back,
                ..old(state)@.session
            },
            sheets: (old(state)@.sheets + 1) as u32,
            pages_dpi: document_dpi(old(state)@.pages_dpi, dpi),
            progress: ScanProgress {
                front_done: true,
                back_done: true,
                ..old(state)@.progress
            },
            ..old(state)@
        }),
        final(state).last_seen == old(state).last_seen,
{
    state.session.last_front_bytes = front;
    state.session.last_back_bytes = back;
    state.sheets = state.sheets + 1;
    if state.pages_dpi == 0 || dpi > state.pages_dpi {
        state.pages_dpi = dpi;
    }
    state.progress.front_done = true;
    state.progress.back_done = true;
}

fn keep_sheet(state: &mut AppState, front: &Arc<Vec<u8>>, back: &Arc<Vec<u8>>, dpi: u16)
    requires
        old(state)@.sheets < u32::MAX,
    ensures
        final(state)@ == sheet_kept(old(state)@, front@, back@, dpi),
        final(state).last_seen == old(state).last_seen,
{
    keep_pages(state, front, back);
    keep_images(state, front, back);
    count_sheet(state, front.len(), back.len(), dpi);
}

fn close_sheet(state: &mut AppState)
    ensures
        final(state)@ == sheet_closed(old(state)@),
        final(state).last_seen == old(state).last_seen,
{
    state.connection = ConnectionState::Connected;
    let sheets = number::decimal_text(state.sheets as u128);
    let pages = number::decimal_text(state.pages.len() as u128);
    if state.continuous {
        state.prompt_continue = true;
        let mut s = "Sheet ".to_owned();
        s.append(sheets.as_str());
        s.append(" added (");
        s.append(pages.as_str());
        s.append(" pages). Continue or cancel.");
        state.status_line = s;
    } else {
        let mut s = "Scan complete. Sheet ".to_owned();
        s.append(sheets.as_str());
        s.append(" · ");
        s.append(pages.as_str());
        s.append(" pages.");
        state.status_line = s;
    }
}

/// A sheet was scanned; `run_ocr` says whether its text is read next.
pub fn on_sheet(
    state: &mut AppState,
    front: &Arc<Vec<u8>>,
    back: &Arc<Vec<u8>>,
    dpi: u16,
    run_ocr: bool,
)
    requires
        old(state)@.sheets < u32::MAX,
    ensures
        final(state)@ == sheet_scanned(old(state)@, front@, back@, dpi, run_ocr),
        final(state).last_seen == old(state).last_seen,
{
    keep_sheet(state, front, back, dpi);
    if run_ocr {
        state.connection = ConnectionState::RunningOcr;
        let mut s = "Sheet ".to_owned();
        s.append(number::decimal_text(state.sheets as u128).as_str());
        s.append(" in preview. Reading text…");
        state.status_line = s;
    } else {
        close_sheet(state);
    }
}

/// The texts with `t` at place `i`, where there is one.
pub open spec fn text_put(texts: Seq<Seq<char>>, i: int, t: Seq<char>) -> Seq<Seq<char>> {
    if 0 <= i < texts.len() {
        texts.update(i, t)
    } else {
        texts
    }
}

/// The place of the first page of a sheet among the pages of the document.
pub open spec fn sheet_place(pages: nat, has_front: bool, has_back: bool) -> int {
    let n: int = (if has_front {
        1int
    } else {
        0
    }) + (if has_back {
        1int
    } else {
        0
    });
    if pages >= n {
        pages - n
    } else {
        0
    }
}

/// The texts of the pages with those of the last sheet.
pub open spec fn texts_put(
    texts: Seq<Seq<char>>,
    pages: nat,
    has_front: bool,
    has_back: bool,
    front: Seq<char>,
    back: Seq<char>,
) -> Seq<Seq<char>> {
    let at = sheet_place(pages, has_front, has_back);
    let first = if has_front {
        text_put(texts, at, front)
    } else {
        texts
    };
    if has_back {
        text_put(
            first,
            at + if has_front {
                1int
            } else {
                0
            },
            back,
        )
    } else {
        first
    }
}

/// One more job went well.
pub open spec fn job_counted(m: StateModel) -> StateModel {
    StateModel {
        session: SessionModel { jobs_ok: (m.session.jobs_ok + 1) as u32, ..m.session },
        ..m
    }
}

/// The state after the text of a sheet was read.
pub open spec fn sheet_read(
    m: StateModel,
    has_front: bool,
    has_back: bool,
    front: Seq<char>,
    back: Seq<char>,
) -> StateModel {
    sheet_closed(
        job_counted(
            StateModel {
                front_text: front,
                back_text: back,
                page_texts: texts_put(
                    m.page_texts,
                    m.pages.len(),
                    has_front,
                    has_back,
                    front,
                    back,
                ),
                ..m
            },
        ),
    )
}

fn put_text(texts: &mut Vec<String>, i: usize, t: &String)
    ensures
        text::texts_of(final(texts)@) == text_put(text::texts_of(old(texts)@), i as int, t@),
{
    if i < texts.len() {
        let copy = t.clone();
        let ghost before = texts@;
        texts.set(i, copy);
        assert(text::texts_of(texts@) =~= text::texts_of(before).update(i as int, t@));
    }
}

fn put_texts(
    texts: &mut Vec<String>,
    pages: usize,
    has_front: bool,
    has_back: bool,
    front: &String,
    back: &String,
)
    ensures
        text::texts_of(final(texts)@) == texts_put(
            text::texts_of(old(texts)@),
            pages as nat,
            has_front,
            has_back,
            front@,
            back@,
        ),
{
    if has_front && has_back {
        let at: usize = if pages >= 2 {
            pages - 2
        } else {
            0
        };
        put_text(texts, at, front);
        put_text(texts, at + 1, back);
    } else if has_front || has_back {
        let at: usize = if pages >= 1 {
            pages - 1
        } else {
            0
        };
        put_text(
            texts,
            at,
            if has_front {
                front
            } else {
                back
            },
        );
    }
}

/// The text of a sheet was read, of which a side holds something or not.
pub fn on_texts(
    state: &mut AppState,
    has_front: bool,
    has_back: bool,
    front_text: String,
    back_text: String,
)
    requires
        old(state)@.session.jobs_ok < u32::MAX,
    ensures
        final(state)@ == sheet_read(old(state)@, has_front, has_back, front_text@, back_text@),
        final(state).last_seen == old(state).last_seen,
{
    let pages: usize = state.pages.len();
    put_texts(&mut state.page_texts, pages, has_front, has_back, &front_text, &back_text);
    state.front_text = front_text;
    state.back_text = back_text;
    state.session.jobs_ok = state.session.jobs_ok + 1;
    close_sheet(state);
}

/// A scan without a reading of its text went well.
pub fn on_done(state: &mut AppState)
    requires
        old(state)@.session.jobs_ok < u32::MAX,
    ensures
        final(state)@ == job_counted(old(state)@),
        final(state).last_seen == old(state).last_seen,
{
    state.session.jobs_ok = state.session.jobs_ok + 1;
}

/// A failure that means that the scanner is gone.
pub open spec fn loses_scanner(e: ErrorModel) -> bool {
    e is Network || e is Disconnected
}

/// The state after a scan failed.
pub open spec fn scan_failed(m: StateModel, e: ErrorModel) -> StateModel {
    let told = StateModel {
        session: SessionModel {
            jobs_failed: (m.session.jobs_failed + 1) as u32,
            last_error: Some(error::error_text(e)),
            ..m.session
        },
        ..m
    };
    if loses_scanner(e) {
        state::disconnected(told, "Lost the scanner during the scan. Looking again…"@)
    } else {
        StateModel {
            connection: ConnectionState::Connected,
            status_line: "Scan failed. The scanner is still connected."@,
            ..told
        }
    }
}

/// A scan failed.
pub fn on_failure(state: &mut AppState, e: &AppError)
    requires
        old(state)@.session.jobs_failed < u32::MAX,
    ensures
        final(state)@ == scan_failed(old(state)@, e@),
        !(loses_scanner(e@) && final(state)@.scanner is Some) ==> final(state).last_seen
            == old(state).last_seen,
{
    state.session.jobs_failed = state.session.jobs_failed + 1;
    state.session.last_error = Some(e.message());
    match e {
        AppError::Network(_) | AppError::Disconnected => {
            state.mark_disconnected("Lost the scanner during the scan. Looking again…");
        },
        _ => {
            state.connection = ConnectionState::Connected;
            state.status_line = "Scan failed. The scanner is still connected.".to_owned();
        },
    }
}

/// A refused scan changes nothing but the failure that is told, and a scan is refused exactly
/// where no scanner is connected or its feeder is empty.
pub proof fn a_refused_scan_changes_nothing(m: StateModel)
    requires
        m.connection != ConnectionState::Connected || (m.status is Some && status::feeder(
            m.status->0,
        ) == FeederKind::Empty),
    ensures
        order(m) is None,
        scan_asked(m).session.last_error is Some,
        with_error(scan_asked(m), m.session.last_error) == m,
{
}

/// A scan that begins leaves no trace of the last one but the document that it goes on with.
pub proof fn a_scan_begins_clean(m: StateModel)
    requires
        order(m) is Some,
    ensures
        ({
            let n = scan_asked(m);
            &&& n.connection == ConnectionState::Scanning
            &&& n.session.last_error is None
            &&& n.front_image is None && n.back_image is None
            &&& n.progress == state::no_progress()
            &&& !n.scan_append
            &&& m.scan_append ==> n.pages == m.pages && n.page_texts == m.page_texts && n.sheets
                == m.sheets
            &&& !m.scan_append ==> n.pages.len() == 0 && n.page_texts.len() == 0 && n.sheets == 0
        }),
{
}

/// Every page keeps its text beside it through a scan.
pub proof fn scans_keep_the_state_tidy(
    m: StateModel,
    front: Seq<u8>,
    back: Seq<u8>,
    dpi: u16,
    run_ocr: bool,
    front_text: Seq<char>,
    back_text: Seq<char>,
    e: ErrorModel,
)
    requires
        laws::tidy(m),
    ensures
        laws::tidy(scan_asked(m)),
        laws::tidy(sheet_scanned(m, front, back, dpi, run_ocr)),
        laws::tidy(sheet_read(m, front.len() > 0, back.len() > 0, front_text, back_text)),
        laws::tidy(job_counted(m)),
        laws::tidy(scan_failed(m, e)),
{
    laws::a_loss_keeps_the_state_tidy(begun(m), "Scan cancelled. No scanner connected."@);
    let told = StateModel {
        session: SessionModel {
            jobs_failed: (m.session.jobs_failed + 1) as u32,
            last_error: Some(error::error_text(e)),
            ..m.session
        },
        ..m
    };
    laws::a_loss_keeps_the_state_tidy(
        told,
        "Lost the scanner during the scan. Looking again…"@,
    );
}

/// A sheet adds the sides that hold anything to the end of the document, front before back, and
/// leaves the earlier pages alone.
pub proof fn a_sheet_is_added_at_the_end(
    m: StateModel,
    front: Seq<u8>,
    back: Seq<u8>,
    dpi: u16,
    run_ocr: bool,
)
    ensures
        ({
            let n = sheet_scanned(m, front, back, dpi, run_ocr);
            &&& n.pages.take(m.pages.len() as int) == m.pages
            &&& n.pages.skip(m.pages.len() as int) == sides_present(front, back)
            &&& n.pages_dpi >= m.pages_dpi
            &&& n.pages_dpi >= dpi
        }),
{
    let n = sheet_scanned(m, front, back, dpi, run_ocr);
    assert(n.pages.take(m.pages.len() as int) =~= m.pages);
    assert(n.pages.skip(m.pages.len() as int) =~= sides_present(front, back));
}

/// The texts of a sheet stand beside its pages, and those of the earlier pages stay.
pub proof fn texts_stand_beside_their_pages(
    m: StateModel,
    front: Seq<u8>,
    back: Seq<u8>,
    dpi: u16,
    front_text: Seq<char>,
    back_text: Seq<char>,
    i: int,
)
    requires
        laws::tidy(m),
    ensures
        ({
            let n = sheet_read(
                sheet_scanned(m, front, back, dpi, true),
                front.len() > 0,
                back.len() > 0,
                front_text,
                back_text,
            );
            let at = m.pages.len() as int;
            &&& 0 <= i < at ==> n.page_texts[i] == m.page_texts[i]
            &&& front.len() > 0 ==> n.pages[at] == front && n.page_texts[at] == front_text
            &&& back.len() > 0 ==> n.pages.last() == back && n.page_texts.last() == back_text
        }),
{
}

/// However a scan ends, it is over: the scanner is connected or looked for again.
pub proof fn a_failed_scan_is_over(m: StateModel, e: ErrorModel)
    requires
        !m.prompt_continue,
        !m.waiting_for_paper,
    ensures
        !state::busy(scan_failed(m, e)),
        scan_failed(m, e).session.last_error == Some(error::error_text(e)),
        !loses_scanner(e) ==> scan_failed(m, e).scanner == m.scanner,
{
}

/// A scan is made exactly where a scanner is in use and connected and its feeder is not known to be
/// empty, on that scanner, with the settings and at the resolution that the user chose.
pub proof fn a_scan_is_made_as_chosen(m: StateModel)
    ensures
        order(m) is Some <==> m.connection == ConnectionState::Connected && m.scanner is Some && !(
        m.status is Some && status::feeder(m.status->0) == FeederKind::Empty),
        order(m) matches Some(o) ==> {
            &&& Some(o.scanner) == m.scanner
            &&& o.ocr_on == m.ocr_enabled
            &&& o.long_receipt == m.long_receipt
            &&& o.dpi == state::preset_dpi(m.scan_preset)
        },
{
}

/// A scan that begins leaves the scanners, their status, the choices and the files alone.
pub proof fn a_scan_leaves_the_rest_alone(m: StateModel)
    requires
        order(m) is Some,
    ensures
        ({
            let n = scan_asked(m);
            &&& n == (StateModel {
                connection: n.connection,
                status_line: n.status_line,
                session: n.session,
                progress: n.progress,
                front_image: n.front_image,
                back_image: n.back_image,
                front_text: n.front_text,
                back_text: n.back_text,
                scan_append: n.scan_append,
                pages: n.pages,
                page_texts: n.page_texts,
                sheets: n.sheets,
                pages_dpi: n.pages_dpi,
                ..m
            })
            &&& n.session.jobs_ok == m.session.jobs_ok
            &&& n.session.jobs_failed == m.session.jobs_failed
            &&& n.front_text.len() == 0 && n.back_text.len() == 0
            &&& m.scan_append ==> n.pages_dpi == m.pages_dpi
            &&& !m.scan_append ==> n.pages_dpi == 0
            &&& m.long_receipt && m.scan_append ==> n.status_line == "Scanning next receipt…"@
            &&& m.long_receipt && !m.scan_append ==> n.status_line == "Starting receipt scan…"@
            &&& !m.long_receipt && m.scan_append ==> n.status_line == "Scanning next page…"@
            &&& !m.long_receipt && !m.scan_append ==> n.status_line == "Starting scan…"@
        }),
{
}

/// A refused scan tells why.
pub proof fn a_refused_scan_tells_why(m: StateModel)
    ensures
        m.connection != ConnectionState::Connected ==> scan_asked(m).session.last_error == Some(
            "Connect the scanner first."@,
        ),
        m.connection == ConnectionState::Connected && m.status is Some && status::feeder(
            m.status->0,
        ) == FeederKind::Empty ==> scan_asked(m).session.last_error == Some(
            "Load a page into the feeder, then scan."@,
        ),
{
}

/// A sheet that was scanned is counted, its sides that hold anything are the last pages of the
/// document and in view, and the document has the highest resolution of its sheets.
pub proof fn a_sheet_is_counted(
    m: StateModel,
    front: Seq<u8>,
    back: Seq<u8>,
    dpi: u16,
    run_ocr: bool,
)
    requires
        m.sheets < u32::MAX,
        front.len() <= usize::MAX,
        back.len() <= usize::MAX,
    ensures
        ({
            let n = sheet_scanned(m, front, back, dpi, run_ocr);
            &&& n.sheets == m.sheets + 1
            &&& front.len() > 0 && back.len() > 0 ==> n.pages == m.pages.push(front).push(back)
            &&& front.len() > 0 && back.len() == 0 ==> n.pages == m.pages.push(front)
            &&& front.len() == 0 && back.len() > 0 ==> n.pages == m.pages.push(back)
            &&& front.len() == 0 && back.len() == 0 ==> n.pages == m.pages
            &&& front.len() > 0 ==> n.front_image == Some(front)
            &&& back.len() > 0 ==> n.back_image == Some(back)
            &&& front.len() == 0 ==> n.front_image == m.front_image
            &&& back.len() == 0 ==> n.back_image == m.back_image
            &&& n.session.last_front_bytes == front.len()
            &&& n.session.last_back_bytes == back.len()
            &&& n.session.jobs_ok == m.session.jobs_ok
            &&& n.session.jobs_failed == m.session.jobs_failed
            &&& dpi >= m.pages_dpi ==> n.pages_dpi == dpi
            &&& dpi < m.pages_dpi ==> n.pages_dpi == m.pages_dpi
            &&& n.progress.front_done && n.progress.back_done
            &&& n.scanner == m.scanner && n.status == m.status
            &&& n.scan_preset == m.scan_preset && n.continuous == m.continuous
            &&& n.discovered == m.discovered && n.preferred_id == m.preferred_id
        }),
{
    let n = sheet_scanned(m, front, back, dpi, run_ocr);
    if front.len() > 0 && back.len() > 0 {
        assert(n.pages =~= m.pages.push(front).push(back));
    } else if front.len() > 0 {
        assert(n.pages =~= m.pages.push(front));
    } else if back.len() > 0 {
        assert(n.pages =~= m.pages.push(back));
    } else {
        assert(n.pages =~= m.pages);
    }
}

/// After a sheet the text is read where it is wanted; else the scanner is free again, and the user
/// is asked for the next sheet where sheets are scanned one after another.
pub proof fn a_sheet_is_followed_up(
    m: StateModel,
    front: Seq<u8>,
    back: Seq<u8>,
    dpi: u16,
    run_ocr: bool,
)
    ensures
        ({
            let n = sheet_scanned(m, front, back, dpi, run_ocr);
            &&& run_ocr ==> n.connection == ConnectionState::RunningOcr && n.prompt_continue
                == m.prompt_continue
            &&& !run_ocr ==> n.connection == ConnectionState::Connected
            &&& !run_ocr && m.continuous ==> n.prompt_continue
            &&& !run_ocr && !m.continuous ==> n.prompt_continue == m.prompt_continue
            &&& n.waiting_for_paper == m.waiting_for_paper
            &&& n.scan_append == m.scan_append
        }),
{
}

/// The texts that were read are kept and the job is counted; then it goes on as after a sheet
/// without text. The pages and their images stay.
pub proof fn read_texts_are_kept(
    m: StateModel,
    has_front: bool,
    has_back: bool,
    front: Seq<char>,
    back: Seq<char>,
)
    requires
        m.session.jobs_ok < u32::MAX,
    ensures
        ({
            let n = sheet_read(m, has_front, has_back, front, back);
            &&& n.front_text == front && n.back_text == back
            &&& n.session.jobs_ok == m.session.jobs_ok + 1
            &&& n.session.jobs_failed == m.session.jobs_failed
            &&& n.connection == ConnectionState::Connected
            &&& m.continuous ==> n.prompt_continue
            &&& !m.continuous ==> n.prompt_continue == m.prompt_continue
            &&& n.page_texts.len() == m.page_texts.len()
            &&& n == (StateModel {
                front_text: front,
                back_text: back,
                page_texts: n.page_texts,
                session: n.session,
                connection: n.connection,
                prompt_continue: n.prompt_continue,
                status_line: n.status_line,
                ..m
            })
            &&& job_counted(m) == (StateModel { session: job_counted(m).session, ..m })
            &&& job_counted(m).session == (SessionModel {
                jobs_ok: (m.session.jobs_ok + 1) as u32,
                ..m.session
            })
        }),
{
}

/// The line after a sheet tells how many sheets and pages the document has.
pub proof fn the_document_is_counted_aloud(m: StateModel)
    ensures
        ({
            let line = sheet_closed(m).status_line;
            let sheets = number::decimal(m.sheets as nat);
            let pages = number::decimal(m.pages.len());
            &&& m.continuous ==> line == "Sheet "@ + sheets + " added ("@ + pages
                + " pages). Continue or cancel."@
            &&& !m.continuous ==> line == "Scan complete. Sheet "@ + sheets + " · "@ + pages
                + " pages."@
        }),
{
}

/// A failed scan is counted and told, and costs no page. Only a scanner that is out of reach is
/// given up for it.
pub proof fn a_failed_scan_costs_no_page(m: StateModel, e: ErrorModel)
    requires
        m.session.jobs_failed < u32::MAX,
    ensures
        ({
            let n = scan_failed(m, e);
            &&& n.session.jobs_failed == m.session.jobs_failed + 1
            &&& n.session.jobs_ok == m.session.jobs_ok
            &&& n.session.last_error == Some(error::error_text(e))
            &&& n.pages == m.pages && n.page_texts == m.page_texts && n.sheets == m.sheets
            &&& n.pages_dpi == m.pages_dpi
            &&& !(e is Network) && !(e is Disconnected) ==> n.scanner == m.scanner && n.connection
                == ConnectionState::Connected && n.discovered == m.discovered && n.status
                == m.status
            &&& (e is Network || e is Disconnected) ==> (m.scanner matches Some(cur) ==> (
            n.scanner matches Some(s) ==> scanner::key(s) != scanner::key(cur)))
        }),
{
    if m.scanner is Some && loses_scanner(e) {
        let told = StateModel {
            session: SessionModel {
                jobs_failed: (m.session.jobs_failed + 1) as u32,
                last_error: Some(error::error_text(e)),
                ..m.session
            },
            ..m
        };
        laws::a_lost_scanner_is_gone(told, "Lost the scanner during the scan. Looking again…"@);
    }
}

/// A scanner is used with SANE only over a device of its own, and that device is handed on as it
/// is; a scanner without one is used over the network protocol.
pub proof fn a_sane_device_is_used_as_it_is(s: ScannerModel, rest: Seq<char>)
    ensures
        sane_route(s) is Some ==> sane_route(s) == s.sane_device,
        s.sane_device is None ==> sane_route(s) is None,
        s.sane_device == Some("brother"@ + rest) && !text::has(text::lower("brother"@ + rest), "://"@)
            ==> sane_route(s) == s.sane_device,
        (s.sane_device matches Some(d) && text::has(text::lower(d), "://"@)) ==> sane_route(s) is None,
{
    reveal_strlit("brother");
    reveal_strlit("escl:");
    let d = "brother"@ + rest;
    assert(text::lower(d).subrange(0, 7) =~= "brother"@);
    assert(text::begins(text::lower(d), "brother"@));
    if text::begins(text::lower(d), "escl:"@) {
        assert(text::lower(d).subrange(0, 5)[0] == text::lower(d)[0]);
        assert(text::lower(d)[0] == 'b');
    }
}

/// A scan that failed tells what became of the scanner, and keeps the settings.
pub proof fn a_failed_scan_is_told(m: StateModel, e: ErrorModel)
    ensures
        ({
            let n = scan_failed(m, e);
            let lost = e is Network || e is Disconnected;
            &&& !lost ==> n == (StateModel {
                connection: ConnectionState::Connected,
                status_line: "Scan failed. The scanner is still connected."@,
                session: n.session,
                ..m
            })
            &&& n.session.last_front_bytes == m.session.last_front_bytes
            &&& n.session.last_back_bytes == m.session.last_back_bytes
            &&& n.scan_preset == m.scan_preset && n.ocr_enabled == m.ocr_enabled
            &&& n.continuous == m.continuous && n.long_receipt == m.long_receipt
            &&& n.front_image == m.front_image && n.back_image == m.back_image
        }),
{
}

} // verus!
