//! What is known of the scanners in reach, of the one in use and of the document being
//! scanned, and how each piece of news changes it.

use std::sync::Arc;
use std::time::Instant;

use vstd::prelude::*;

use crate::number;
use crate::scanner;
use crate::scanner::{ScannerInfo, ScannerModel, Transport, TransportPref};
use crate::status;
use crate::status::{ScannerStatus, StatusModel};
use crate::text;

verus! {

/// `std::time::Instant`, carried and never looked into.
#[verifier::external_type_specification]
#[verifier::external_body]
pub struct ExInstant(Instant);

/// `Instant::now` gives the present moment; nothing is claimed of it.
pub assume_specification[ Instant::now ]() -> Instant
;

/// How far the application is with a scanner.
#[derive(Debug, Clone, Copy, PartialEq, Eq, Structural)]
pub enum ConnectionState {
    AwaitingConnection,
    Connected,
    Scanning,
    RunningOcr,
    Degraded,
}

/// The name of a connection state.
pub open spec fn connection_name(c: ConnectionState) -> Seq<char> {
    match c {
        ConnectionState::AwaitingConnection => "Awaiting Connection"@,
        ConnectionState::Connected => "Connected"@,
        ConnectionState::Scanning => "Scanning"@,
        ConnectionState::RunningOcr => "OCR"@,
        ConnectionState::Degraded => "Degraded"@,
    }
}

impl ConnectionState {
    /// The name of this connection state.
    pub fn label(self) -> (r: &'static str)
        ensures
            r@ == connection_name(self),
    {
        match self {
            ConnectionState::AwaitingConnection => "Awaiting Connection",
            ConnectionState::Connected => "Connected",
            ConnectionState::Scanning => "Scanning",
            ConnectionState::RunningOcr => "OCR",
            ConnectionState::Degraded => "Degraded",
        }
    }
}

/// How far a scan job is.
#[derive(Debug, Clone, Copy, PartialEq, Eq, Structural)]
pub struct ScanProgress {
    pub job_posted: bool,
    pub current_side: u8,
    pub current_bytes: usize,
    pub expected_bytes: usize,
    pub front_bytes: usize,
    pub back_bytes: usize,
    pub front_done: bool,
    pub back_done: bool,
    pub one_sided: bool,
}

/// The progress of a job that has not begun.
pub open spec fn no_progress() -> ScanProgress {
    ScanProgress {
        job_posted: false,
        current_side: 0,
        current_bytes: 0,
        expected_bytes: 0,
        front_bytes: 0,
        back_bytes: 0,
        front_done: false,
        back_done: false,
        one_sided: false,
    }
}

impl Default for ScanProgress {
    fn default() -> (r: Self)
        ensures
            r == no_progress(),
    {
        ScanProgress {
            job_posted: false,
            current_side: 0,
            current_bytes: 0,
            expected_bytes: 0,
            front_bytes: 0,
            back_bytes: 0,
            front_done: false,
            back_done: false,
            one_sided: false,
        }
    }
}

/// A share of the whole job, in hundredths: what is behind it, and what the side that is being
/// downloaded adds when it is complete.
#[derive(Debug, Clone, Copy, PartialEq, Eq, Structural)]
pub struct Share {
    pub base: u8,
    pub span: u8,
}

/// The share of the job that is done before the current side, and that the current side has.
pub open spec fn share(p: ScanProgress) -> Share {
    if p.one_sided {
        if p.front_done {
            Share { base: 100, span: 0 }
        } else if !p.job_posted {
            Share { base: 5, span: 0 }
        } else {
            Share { base: 8, span: 88 }
        }
    } else if p.front_done && p.back_done {
        Share { base: 100, span: 0 }
    } else if !p.job_posted {
        Share { base: 4, span: 0 }
    } else if !p.front_done {
        Share { base: 8, span: 40 }
    } else {
        Share { base: 52, span: 42 }
    }
}

impl ScanProgress {
    /// The share of the job that is done before the current side, and that the current side has.
    pub fn fraction(self) -> (r: Share)
        ensures
            r == share(self),
    {
        if self.one_sided {
            if self.front_done {
                return Share { base: 100, span: 0 };
            }
            return if !self.job_posted {
                Share { base: 5, span: 0 }
            } else {
                Share { base: 8, span: 88 }
            };
        }
        if self.front_done && self.back_done {
            return Share { base: 100, span: 0 };
        }
        if !self.job_posted {
            Share { base: 4, span: 0 }
        } else if !self.front_done {
            Share { base: 8, span: 40 }
        } else {
            Share { base: 52, span: 42 }
        }
    }
}

/// A share never passes the whole, and it is full exactly when every side is done.
pub proof fn share_is_within_the_whole(p: ScanProgress)
    ensures
        share(p).base + share(p).span <= 100,
        share(p).base == 100 <==> p.front_done && (p.one_sided || p.back_done),
{
}

/// What the session has done so far.
#[derive(Debug)]
pub struct SessionStats {
    pub jobs_ok: u32,
    pub jobs_failed: u32,
    pub last_front_bytes: usize,
    pub last_back_bytes: usize,
    pub last_error: Option<String>,
}

/// What a `SessionStats` says.
#[verifier::ext_equal]
pub struct SessionModel {
    pub jobs_ok: u32,
    pub jobs_failed: u32,
    pub last_front_bytes: usize,
    pub last_back_bytes: usize,
    pub last_error: Option<Seq<char>>,
}

impl View for SessionStats {
    type V = SessionModel;

    open spec fn view(&self) -> SessionModel {
        SessionModel {
            jobs_ok: self.jobs_ok,
            jobs_failed: self.jobs_failed,
            last_front_bytes: self.last_front_bytes,
            last_back_bytes: self.last_back_bytes,
            last_error: text::text_of(self.last_error),
        }
    }
}

/// A session that has done nothing.
pub open spec fn new_session() -> SessionModel {
    SessionModel {
        jobs_ok: 0,
        jobs_failed: 0,
        last_front_bytes: 0,
        last_back_bytes: 0,
        last_error: None,
    }
}

impl Default for SessionStats {
    fn default() -> (r: Self)
        ensures
            r@ == new_session(),
    {
        SessionStats {
            jobs_ok: 0,
            jobs_failed: 0,
            last_front_bytes: 0,
            last_back_bytes: 0,
            last_error: None,
        }
    }
}

/// A scan quality to choose.
#[derive(Debug, Clone, Copy, PartialEq, Eq, Structural, Hash)]
pub enum ScanPreset {
    Web,
    Email,
    Document,
    Photo,
    Fine,
}

impl Default for ScanPreset {
    fn default() -> (r: Self)
        ensures
            r == ScanPreset::Document,
    {
        ScanPreset::Document
    }
}

/// The resolution of a preset in dots per inch.
pub open spec fn preset_dpi(p: ScanPreset) -> u16 {
    match p {
        ScanPreset::Web => 150,
        ScanPreset::Email => 200,
        ScanPreset::Document => 300,
        ScanPreset::Photo => 400,
        ScanPreset::Fine => 600,
    }
}

/// The name of a preset.
pub open spec fn preset_name(p: ScanPreset) -> Seq<char> {
    match p {
        ScanPreset::Web => "Web (150 dpi)"@,
        ScanPreset::Email => "Small (200 dpi)"@,
        ScanPreset::Document => "Document (300 dpi)"@,
        ScanPreset::Photo => "Photo (400 dpi)"@,
        ScanPreset::Fine => "Fine (600 dpi)"@,
    }
}

/// Every preset, from the coarsest to the finest.
pub open spec fn every_preset() -> Seq<ScanPreset> {
    seq![
        ScanPreset::Web,
        ScanPreset::Email,
        ScanPreset::Document,
        ScanPreset::Photo,
        ScanPreset::Fine,
    ]
}

impl ScanPreset {
    /// Every preset, from the coarsest to the finest.
    pub fn all() -> (r: Vec<ScanPreset>)
        ensures
            r@ == every_preset(),
    {
        let r = vec![
            ScanPreset::Web,
            ScanPreset::Email,
            ScanPreset::Document,
            ScanPreset::Photo,
            ScanPreset::Fine,
        ];
        assert(r@ =~= every_preset());
        r
    }

    /// The resolution of this preset in dots per inch.
    pub fn dpi(self) -> (r: u16)
        ensures
            r == preset_dpi(self),
    {
        match self {
            ScanPreset::Web => 150,
            ScanPreset::Email => 200,
            ScanPreset::Document => 300,
            ScanPreset::Photo => 400,
            ScanPreset::Fine => 600,
        }
    }

    /// The name of this preset.
    pub fn label(self) -> (r: &'static str)
        ensures
            r@ == preset_name(self),
    {
        match self {
            ScanPreset::Web => "Web (150 dpi)",
            ScanPreset::Email => "Small (200 dpi)",
            ScanPreset::Document => "Document (300 dpi)",
            ScanPreset::Photo => "Photo (400 dpi)",
            ScanPreset::Fine => "Fine (600 dpi)",
        }
    }
}

/// The list of presets holds each once, in rising resolution.
pub proof fn presets_rise(p: ScanPreset, i: int, j: int)
    ensures
        every_preset().contains(p),
        0 <= i < j < every_preset().len() ==> preset_dpi(every_preset()[i]) < preset_dpi(
            every_preset()[j],
        ),
{
    let all = every_preset();
    assert(all[0] == ScanPreset::Web);
    assert(all[1] == ScanPreset::Email);
    assert(all[2] == ScanPreset::Document);
    assert(all[3] == ScanPreset::Photo);
    assert(all[4] == ScanPreset::Fine);
}

/// Everything that the application knows.
#[derive(Debug)]
pub struct AppState {
    pub connection: ConnectionState,
    pub scanner: Option<ScannerInfo>,
    pub status: Option<ScannerStatus>,
    pub session: SessionStats,
    pub progress: ScanProgress,
    pub front_image: Option<Arc<Vec<u8>>>,
    pub back_image: Option<Arc<Vec<u8>>>,
    pub front_text: String,
    pub back_text: String,
    pub last_seen: Option<Instant>,
    pub status_line: String,
    pub last_pdf: Option<String>,
    pub last_pdf_dpi: Option<u16>,
    pub pages_dpi: u16,
    pub scan_preset: ScanPreset,
    pub ocr_enabled: bool,
    pub continuous: bool,
    pub long_receipt: bool,
    pub prompt_continue: bool,
    pub waiting_for_paper: bool,
    pub scan_append: bool,
    pub pages: Vec<Arc<Vec<u8>>>,
    pub page_texts: Vec<String>,
    pub sheets: u32,
    pub transport_pref: TransportPref,
    pub discovered: Vec<ScannerInfo>,
    pub preferred_id: Option<String>,
    pub last_escl_job: Option<String>,
}

/// What an `AppState` says. Of the moment at which a scanner was last seen it says whether there
/// was one.
#[verifier::ext_equal]
pub struct StateModel {
    pub connection: ConnectionState,
    pub scanner: Option<ScannerModel>,
    pub status: Option<StatusModel>,
    pub session: SessionModel,
    pub progress: ScanProgress,
    pub front_image: Option<Seq<u8>>,
    pub back_image: Option<Seq<u8>>,
    pub front_text: Seq<char>,
    pub back_text: Seq<char>,
    pub seen: bool,
    pub status_line: Seq<char>,
    pub last_pdf: Option<Seq<char>>,
    pub last_pdf_dpi: Option<u16>,
    pub pages_dpi: u16,
    pub scan_preset: ScanPreset,
    pub ocr_enabled: bool,
    pub continuous: bool,
    pub long_receipt: bool,
    pub prompt_continue: bool,
    pub waiting_for_paper: bool,
    pub scan_append: bool,
    pub pages: Seq<Seq<u8>>,
    pub page_texts: Seq<Seq<char>>,
    pub sheets: u32,
    pub transport_pref: TransportPref,
    pub discovered: Seq<ScannerModel>,
    pub preferred_id: Option<Seq<char>>,
    pub last_escl_job: Option<Seq<char>>,
}

/// The view of an optional image.
pub open spec fn image_of(i: Option<Arc<Vec<u8>>>) -> Option<Seq<u8>> {
    match i {
        Some(b) => Some(b@),
        None => None,
    }
}

/// The views of a list of images.
pub open spec fn images_of(v: Seq<Arc<Vec<u8>>>) -> Seq<Seq<u8>> {
    v.map_values(|b: Arc<Vec<u8>>| b@)
}

/// One more image is one more view.
pub proof fn lemma_images_push(v: Seq<Arc<Vec<u8>>>, b: Arc<Vec<u8>>)
    ensures
        images_of(v.push(b)) == images_of(v).push(b@),
{
    assert(images_of(v.push(b)) =~= images_of(v).push(b@));
}

/// The views of a list of scanners.
pub open spec fn scanners_of(v: Seq<ScannerInfo>) -> Seq<ScannerModel> {
    v.map_values(|s: ScannerInfo| s@)
}

impl View for AppState {
    type V = StateModel;

    open spec fn view(&self) -> StateModel {
        StateModel {
            connection: self.connection,
            scanner: scanner::scanner_of(self.scanner),
            status: status::status_of(self.status),
            session: self.session@,
            progress: self.progress,
            front_image: image_of(self.front_image),
            back_image: image_of(self.back_image),
            front_text: self.front_text@,
            back_text: self.back_text@,
            seen: self.last_seen is Some,
            status_line: self.status_line@,
            last_pdf: text::text_of(self.last_pdf),
            last_pdf_dpi: self.last_pdf_dpi,
            pages_dpi: self.pages_dpi,
            scan_preset: self.scan_preset,
            ocr_enabled: self.ocr_enabled,
            continuous: self.continuous,
            long_receipt: self.long_receipt,
            prompt_continue: self.prompt_continue,
            waiting_for_paper: self.waiting_for_paper,
            scan_append: self.scan_append,
            pages: images_of(self.pages@),
            page_texts: text::texts_of(self.page_texts@),
            sheets: self.sheets,
            transport_pref: self.transport_pref,
            discovered: scanners_of(self.discovered@),
            preferred_id: text::text_of(self.preferred_id),
            last_escl_job: text::text_of(self.last_escl_job),
        }
    }
}

/// The state in which the application starts.
pub open spec fn start_state(preferred: Option<Seq<char>>) -> StateModel {
    StateModel {
        connection: ConnectionState::AwaitingConnection,
        scanner: None,
        status: None,
        session: new_session(),
        progress: no_progress(),
        front_image: None,
        back_image: None,
        front_text: Seq::empty(),
        back_text: Seq::empty(),
        seen: false,
        status_line: "Looking for your scanner…"@,
        last_pdf: None,
        last_pdf_dpi: None,
        pages_dpi: 0,
        scan_preset: ScanPreset::Document,
        ocr_enabled: true,
        continuous: false,
        long_receipt: false,
        prompt_continue: false,
        waiting_for_paper: false,
        scan_append: false,
        pages: Seq::empty(),
        page_texts: Seq::empty(),
        sheets: 0,
        transport_pref: TransportPref::Auto,
        discovered: Seq::empty(),
        preferred_id: preferred,
        last_escl_job: None,
    }
}

/// A scan is running, or waits for the user or for paper.
pub open spec fn busy(m: StateModel) -> bool {
    ||| m.connection == ConnectionState::Scanning
    ||| m.connection == ConnectionState::RunningOcr
    ||| m.prompt_continue
    ||| m.waiting_for_paper
}

/// The scanners of a list over the transports that are wanted, in their order.
pub open spec fn visible_in(list: Seq<ScannerModel>, pref: TransportPref) -> Seq<ScannerModel> {
    list.filter(|s: ScannerModel| scanner::wanted(pref, s.via))
}

/// The scanners over the transports that the user wants, in the order of their discovery.
pub open spec fn visible(m: StateModel) -> Seq<ScannerModel> {
    visible_in(m.discovered, m.transport_pref)
}

/// The scanners of a list that are not reached over `via`, in their order.
pub open spec fn not_over(list: Seq<ScannerModel>, via: Transport) -> Seq<ScannerModel> {
    list.filter(|s: ScannerModel| s.via != via)
}

/// The scanners of a list with another key than `k`, in their order.
pub open spec fn not_keyed(list: Seq<ScannerModel>, k: Seq<char>) -> Seq<ScannerModel> {
    list.filter(|s: ScannerModel| scanner::key(s) != k)
}

/// The first place in `list` of a scanner with key `k`.
pub open spec fn place_of(list: Seq<ScannerModel>, k: Seq<char>) -> Option<int>
    decreases list.len(),
{
    if list.len() == 0 {
        None
    } else {
        match place_of(list.drop_last(), k) {
            Some(i) => Some(i),
            None => if scanner::key(list.last()) == k {
                Some(list.len() - 1)
            } else {
                None
            },
        }
    }
}

/// The list with a discovered scanner: in the place of the one with its key unless that one
/// has the better score, else at the end.
pub open spec fn with_scanner(list: Seq<ScannerModel>, s: ScannerModel) -> Seq<ScannerModel> {
    match place_of(list, scanner::key(s)) {
        Some(i) => if scanner::score(s) >= scanner::score(list[i]) {
            list.update(i, s)
        } else {
            list
        },
        None => list.push(s),
    }
}

/// The report that stands for a USB scanner, which gives none.
pub open spec fn usb_report() -> StatusModel {
    StatusModel {
        state: "Idle"@,
        adf_state: "Ready"@,
        battery_percent: None,
        reasons: Seq::empty(),
    }
}

/// A connection that was awaited or in doubt is made.
pub open spec fn connected(c: ConnectionState) -> ConnectionState {
    if c == ConnectionState::AwaitingConnection || c == ConnectionState::Degraded {
        ConnectionState::Connected
    } else {
        c
    }
}

/// The state with `s` in use.
pub open spec fn applied(m: StateModel, s: ScannerModel) -> StateModel {
    StateModel {
        status: if s.via == Transport::Usb {
            Some(usb_report())
        } else {
            m.status
        },
        scanner: Some(s),
        seen: true,
        connection: connected(m.connection),
        status_line: "Found "@ + s.name + " on "@ + scanner::transport_name(s.via) + "."@,
        ..m
    }
}

/// The scanner that the user chose is in reach and wanted.
pub open spec fn preferred_live(m: StateModel) -> bool {
    &&& m.preferred_id is Some
    &&& exists|i: int|
        0 <= i < m.discovered.len() && scanner::key(#[trigger] m.discovered[i])
            == m.preferred_id->0 && scanner::wanted(m.transport_pref, m.discovered[i].via)
}

/// The state with scanner `s` among those in reach.
pub open spec fn noted(m: StateModel, s: ScannerModel) -> StateModel {
    StateModel { discovered: with_scanner(m.discovered, s), ..m }
}

/// A discovered scanner is put in use: it is wanted and not in use yet, no scan is running, and it
/// is the one that the user chose, or where that one is not in reach, better than the one in use.
pub open spec fn takes(m: StateModel, s: ScannerModel) -> bool {
    &&& scanner::wanted(m.transport_pref, s.via)
    &&& !(m.scanner is Some && scanner::key(m.scanner->0) == scanner::key(s))
    &&& !busy(m)
    &&& if preferred_live(noted(m, s)) {
        m.preferred_id == Some(scanner::key(s))
    } else {
        m.scanner is None || scanner::score(s) > scanner::score(m.scanner->0)
    }
}

/// The state after scanner `s` was discovered.
pub open spec fn offered(m: StateModel, s: ScannerModel) -> StateModel {
    if !scanner::wanted(m.transport_pref, s.via) {
        m
    } else if m.scanner is Some && scanner::key(m.scanner->0) == scanner::key(s) {
        StateModel { scanner: Some(s), ..noted(m, s) }
    } else if takes(m, s) {
        applied(noted(m, s), s)
    } else {
        noted(m, s)
    }
}

/// The first scanner with key `k` that is wanted.
pub open spec fn chosen(list: Seq<ScannerModel>, pref: TransportPref, k: Seq<char>) -> Option<
    ScannerModel,
>
    decreases list.len(),
{
    if list.len() == 0 {
        None
    } else {
        match chosen(list.drop_last(), pref, k) {
            Some(s) => Some(s),
            None => if scanner::key(list.last()) == k && scanner::wanted(pref, list.last().via) {
                Some(list.last())
            } else {
                None
            },
        }
    }
}

/// The state after the user chose the scanner with key `k`.
pub open spec fn selected(m: StateModel, k: Seq<char>) -> StateModel {
    match chosen(m.discovered, m.transport_pref, k) {
        Some(s) => if busy(m) {
            m
        } else {
            applied(StateModel { preferred_id: Some(k), ..m }, s)
        },
        None => m,
    }
}

/// The choice of the scanner with key `k` is taken.
pub open spec fn selects(m: StateModel, k: Seq<char>) -> bool {
    !busy(m) && chosen(m.discovered, m.transport_pref, k) is Some
}

/// The place from which the choice moves on: that of the scanner in use, else the first.
pub open spec fn cycle_start(m: StateModel) -> int {
    match m.scanner {
        Some(s) => match place_of(visible(m), scanner::key(s)) {
            Some(i) => i,
            None => 0,
        },
        None => 0,
    }
}

/// The place to which the choice moves among `n` scanners: back or on by one, around the ends.
pub open spec fn cycle_next(at: int, n: int, dir: int) -> int {
    if dir < 0 {
        (at + n - 1) % n
    } else {
        (at + 1) % n
    }
}

/// The key to which the choice moves; none where there is no other scanner.
pub open spec fn cycle_key(m: StateModel, dir: int) -> Option<Seq<char>> {
    let list = visible(m);
    if list.len() < 2 {
        None
    } else {
        Some(scanner::key(list[cycle_next(cycle_start(m), list.len() as int, dir)]))
    }
}

/// The choice moves, and is taken.
pub open spec fn cycles(m: StateModel, dir: int) -> bool {
    match cycle_key(m, dir) {
        Some(k) => selects(m, k),
        None => false,
    }
}

/// The state after the choice moved.
pub open spec fn cycled(m: StateModel, dir: int) -> StateModel {
    match cycle_key(m, dir) {
        Some(k) => selected(m, k),
        None => m,
    }
}

/// The last of the scanners with the best score.
pub open spec fn best(list: Seq<ScannerModel>) -> ScannerModel
    decreases list.len(),
{
    if list.len() <= 1 {
        list[0]
    } else {
        let b = best(list.drop_last());
        if scanner::score(list.last()) >= scanner::score(b) {
            list.last()
        } else {
            b
        }
    }
}

/// The state after a scanner in reach was looked for: the one the user chose, else the best.
pub open spec fn auto_connected(m: StateModel) -> StateModel {
    let list = visible(m);
    if list.len() == 0 {
        m
    } else if m.preferred_id is Some && place_of(list, m.preferred_id->0) is Some {
        applied(m, list[place_of(list, m.preferred_id->0)->0])
    } else {
        applied(m, best(list))
    }
}

/// The state with no scanner in use.
pub open spec fn released(m: StateModel) -> StateModel {
    StateModel { scanner: None, status: None, progress: no_progress(), ..m }
}

/// The state after the scanner in use was lost: another takes its place unless a scan is
/// running, else the reason is shown.
pub open spec fn dropped(m: StateModel, reason: Seq<char>) -> StateModel {
    let free = released(m);
    let next = if busy(free) {
        free
    } else {
        auto_connected(free)
    };
    if next.scanner is None {
        StateModel {
            connection: ConnectionState::AwaitingConnection,
            status_line: reason,
            ..next
        }
    } else {
        next
    }
}

/// The scanner in use is reached over `via`.
pub open spec fn lost_over(m: StateModel, via: Transport) -> bool {
    m.scanner is Some && m.scanner->0.via == via
}

/// The state after every scanner over `via` was lost.
pub open spec fn without_via(m: StateModel, via: Transport, reason: Seq<char>) -> StateModel {
    let left = StateModel { discovered: not_over(m.discovered, via), ..m };
    if lost_over(m, via) {
        dropped(left, reason)
    } else {
        left
    }
}

/// The state after the scanner in use was lost.
pub open spec fn disconnected(m: StateModel, reason: Seq<char>) -> StateModel {
    let left = match m.scanner {
        Some(cur) => StateModel {
            discovered: not_keyed(m.discovered, scanner::key(cur)),
            ..m
        },
        None => m,
    };
    dropped(left, reason)
}

/// What is shown while no scanner over the wanted transports is in reach.
pub open spec fn looking_line(pref: TransportPref) -> Seq<char> {
    match pref {
        TransportPref::Usb => "Looking for your scanner on USB…"@,
        TransportPref::Wifi => "Looking for your scanner on Wi-Fi…"@,
        TransportPref::Auto => "Looking for your scanner…"@,
    }
}

/// What is shown when the wanted transports change and the scanner in use stays.
pub open spec fn using_line(pref: TransportPref) -> Seq<char> {
    match pref {
        TransportPref::Usb => "Using USB."@,
        TransportPref::Wifi => "Using Wi-Fi."@,
        TransportPref::Auto => "Using Wi-Fi or USB."@,
    }
}

/// The state after the user chose transports.
pub open spec fn with_transport(m: StateModel, pref: TransportPref) -> StateModel {
    let m = StateModel { transport_pref: pref, ..m };
    if m.scanner is Some && !scanner::wanted(pref, m.scanner->0.via) {
        let next = auto_connected(released(m));
        if next.scanner is None {
            StateModel {
                connection: ConnectionState::AwaitingConnection,
                status_line: looking_line(pref),
                ..next
            }
        } else {
            next
        }
    } else {
        StateModel { status_line: using_line(pref), ..m }
    }
}

/// The choice of transports lets the scanner in use go, and another one takes its place.
pub open spec fn switches(m: StateModel, pref: TransportPref) -> bool {
    m.scanner is Some && !scanner::wanted(pref, m.scanner->0.via) && with_transport(
        m,
        pref,
    ).scanner is Some
}

proof fn lemma_scanners_push(v: Seq<ScannerInfo>, s: ScannerInfo)
    ensures
        scanners_of(v.push(s)) == scanners_of(v).push(s@),
{
    assert(scanners_of(v.push(s)) =~= scanners_of(v).push(s@));
}

proof fn lemma_next(list: Seq<ScannerModel>, i: int)
    requires
        0 <= i < list.len(),
    ensures
        list.take(i + 1).drop_last() == list.take(i),
        list.take(i + 1).last() == list[i],
        list.take(list.len() as int) == list,
{
    assert(list.take(i + 1).drop_last() =~= list.take(i));
    assert(list.take(list.len() as int) =~= list);
}

/// The place of a key is the first scanner that has it.
pub proof fn lemma_place_bounds(list: Seq<ScannerModel>, k: Seq<char>)
    ensures
        match place_of(list, k) {
            Some(i) => 0 <= i < list.len() && scanner::key(list[i]) == k && forall|j: int|
                0 <= j < i ==> scanner::key(#[trigger] list[j]) != k,
            None => forall|j: int|
                0 <= j < list.len() ==> scanner::key(#[trigger] list[j]) != k,
        },
    decreases list.len(),
{
    if list.len() > 0 {
        let t = list.drop_last();
        lemma_place_bounds(t, k);
        assert forall|j: int| 0 <= j < t.len() implies #[trigger] list[j] == t[j] by {}
    }
}

/// The first place of a scanner with key `k`.
fn position(list: &Vec<ScannerInfo>, k: &str) -> (r: Option<usize>)
    ensures
        match r {
            Some(i) => i < list@.len() && place_of(scanners_of(list@), k@) == Some(i as int),
            None => place_of(scanners_of(list@), k@) is None,
        },
{
    let ghost all = scanners_of(list@);
    let mut i: usize = 0;
    while i < list.len()
        invariant
            i <= list@.len(),
            all == scanners_of(list@),
            place_of(all.take(i as int), k@) is None,
        decreases list@.len() - i,
    {
        proof {
            lemma_next(all, i as int);
        }
        if text::same(list[i].device_key().as_str(), k) {
            proof {
                lemma_place_bounds(all, k@);
                lemma_place_bounds(all.take(i as int), k@);
                let p = place_of(all, k@);
                assert(scanner::key(all[i as int]) == k@);
                assert(p is Some);
                if p->0 < i {
                    assert(all.take(i as int)[p->0] == all[p->0]);
                }
            }
            return Some(i);
        }
        i += 1;
    }
    assert(all.take(i as int) =~= all);
    None
}

/// The text of a remembered choice, where the file that keeps it holds one.
pub open spec fn remembered(file: Option<Seq<char>>) -> Option<Seq<char>> {
    match file {
        Some(s) => if text::trimmed(s).len() > 0 {
            Some(text::trimmed(s))
        } else {
            None
        },
        None => None,
    }
}

/// The choice that the text of a file remembers; none where the file could not be read.
pub fn preferred_from_file(file: Option<String>) -> (r: Option<String>)
    ensures
        text::text_of(r) == remembered(text::text_of(file)),
{
    match file {
        Some(s) => {
            let t = text::trim(s.as_str());
            if t.as_str().is_empty() {
                None
            } else {
                Some(t)
            }
        },
        None => None,
    }
}

impl AppState {
    /// The state in which the application starts, with the scanner that the user chose before.
    pub fn with_preferred(preferred: Option<String>) -> (r: Self)
        ensures
            r@ == start_state(text::text_of(preferred)),
    {
        let r = AppState {
            connection: ConnectionState::AwaitingConnection,
            scanner: None,
            status: None,
            session: SessionStats::default(),
            progress: ScanProgress::default(),
            front_image: None,
            back_image: None,
            front_text: String::new(),
            back_text: String::new(),
            last_seen: None,
            status_line: "Looking for your scanner…".to_owned(),
            last_pdf: None,
            last_pdf_dpi: None,
            pages_dpi: 0,
            scan_preset: ScanPreset::Document,
            ocr_enabled: true,
            continuous: false,
            long_receipt: false,
            prompt_continue: false,
            waiting_for_paper: false,
            scan_append: false,
            pages: Vec::new(),
            page_texts: Vec::new(),
            sheets: 0,
            transport_pref: TransportPref::Auto,
            discovered: Vec::new(),
            preferred_id: preferred,
            last_escl_job: None,
        };
        assert(r@ =~= start_state(text::text_of(preferred)));
        r
    }

    /// A scan is running, or waits for the user or for paper.
    pub fn busy_scan(&self) -> (r: bool)
        ensures
            r == busy(self@),
    {
        self.connection == ConnectionState::Scanning || self.connection
            == ConnectionState::RunningOcr || self.prompt_continue || self.waiting_for_paper
    }

    /// The scanners over the transports that the user wants, in the order of their discovery.
    pub fn visible_scanners(&self) -> (r: Vec<&ScannerInfo>)
        ensures
            r@.map_values(|s: &ScannerInfo| s@) == visible(self@),
    {
        let mut out: Vec<&ScannerInfo> = Vec::new();
        let ghost all = self@.discovered;
        let ghost pref = self.transport_pref;
        let ghost shown = |s: &ScannerInfo| s@;
        let mut i: usize = 0;
        assert(visible_in(all.take(0), pref) =~= Seq::empty()) by {
            reveal(Seq::filter);
        }
        assert(out@.map_values(shown) =~= Seq::empty());
        while i < self.discovered.len()
            invariant
                i <= self.discovered@.len(),
                all == scanners_of(self.discovered@),
                pref == self.transport_pref,
                shown == (|s: &ScannerInfo| s@),
                out@.map_values(shown) == visible_in(all.take(i as int), pref),
            decreases self.discovered@.len() - i,
        {
            proof {
                lemma_next(all, i as int);
                reveal(Seq::filter);
            }
            let ghost before = out@;
            if self.transport_pref.matches(self.discovered[i].via) {
                out.push(&self.discovered[i]);
                assert(out@.map_values(shown) =~= before.map_values(shown).push(all[i as int]));
            }
            i += 1;
        }
        assert(all.take(i as int) =~= all);
        out
    }

    /// The state with `scanner` in use.
    fn apply_scanner(&mut self, scanner: ScannerInfo)
        ensures
            final(self)@ == applied(old(self)@, scanner@),
    {
        let mut line = "Found ".to_owned();
        line.append(scanner.name.as_str());
        line.append(" on ");
        line.append(scanner.via.label());
        line.append(".");
        if scanner.via == Transport::Usb {
            let report = ScannerStatus {
                state: "Idle".to_owned(),
                adf_state: "Ready".to_owned(),
                battery_percent: None,
                reasons: Vec::new(),
            };
            assert(report@ =~= usb_report());
            self.status = Some(report);
        }
        self.scanner = Some(scanner);
        self.last_seen = Some(Instant::now());
        if self.connection == ConnectionState::AwaitingConnection || self.connection
            == ConnectionState::Degraded {
            self.connection = ConnectionState::Connected;
        }
        self.status_line = line;
    }

    /// Takes note of a discovered scanner.
    fn note_scanner(&mut self, scanner: &ScannerInfo, key: &str)
        requires
            key@ == scanner::key(scanner@),
        ensures
            final(self)@ == noted(old(self)@, scanner@),
            final(self).last_seen == old(self).last_seen,
    {
        match position(&self.discovered, key) {
            Some(i) => {
                if scanner.auto_score() >= self.discovered[i].auto_score() {
                    let copy = scanner.clone();
                    let ghost list = self.discovered@;
                    self.discovered.set(i, copy);
                    assert(scanners_of(self.discovered@) =~= scanners_of(list).update(
                        i as int,
                        scanner@,
                    ));
                }
            },
            None => {
                let copy = scanner.clone();
                proof {
                    lemma_scanners_push(self.discovered@, copy);
                }
                self.discovered.push(copy);
            },
        }
    }

    /// Takes note of a discovered scanner, and uses it where it is the one that the user chose, or
    /// where it is better than the one in use.
    pub fn offer_scanner(&mut self, scanner: ScannerInfo)
        ensures
            final(self)@ == offered(old(self)@, scanner@),
            !takes(old(self)@, scanner@) ==> final(self).last_seen == old(self).last_seen,
    {
        if !self.transport_pref.matches(scanner.via) {
            return ;
        }
        let key = scanner.device_key();
        self.note_scanner(&scanner, key.as_str());
        let mut current = false;
        if let Some(s) = &self.scanner {
            current = text::same(s.device_key().as_str(), key.as_str());
        }
        if current {
            self.scanner = Some(scanner);
            return ;
        }
        if self.busy_scan() {
            return ;
        }
        if self.has_preferred() {
            let mut is_it = false;
            if let Some(pref) = &self.preferred_id {
                is_it = text::same(pref.as_str(), key.as_str());
            }
            if is_it {
                self.apply_scanner(scanner);
            }
            return ;
        }
        let mut take = true;
        if let Some(cur) = &self.scanner {
            take = scanner.auto_score() > cur.auto_score();
        }
        if take {
            self.apply_scanner(scanner);
        }
    }

    /// The scanner that the user chose is in reach and wanted.
    fn has_preferred(&self) -> (r: bool)
        ensures
            r == preferred_live(self@),
    {
        match &self.preferred_id {
            Some(pref) => {
                let ghost all = self@.discovered;
                let mut i: usize = 0;
                while i < self.discovered.len()
                    invariant
                        i <= self.discovered@.len(),
                        all == scanners_of(self.discovered@),
                        all == self@.discovered,
                        self@.preferred_id == Some(pref@),
                        forall|j: int|
                            0 <= j < i ==> !(scanner::key(#[trigger] all[j]) == pref@
                                && scanner::wanted(self@.transport_pref, all[j].via)),
                    decreases self.discovered@.len() - i,
                {
                    let s = &self.discovered[i];
                    assert(all[i as int] == s@);
                    if text::same(s.device_key().as_str(), pref.as_str())
                        && self.transport_pref.matches(s.via) {
                        return true;
                    }
                    i += 1;
                }
                false
            },
            None => false,
        }
    }

    /// The first scanner with key `k` that is wanted.
    fn choice(&self, k: &str) -> (r: Option<ScannerInfo>)
        ensures
            scanner::scanner_of(r) == chosen(self@.discovered, self@.transport_pref, k@),
    {
        let ghost all = self@.discovered;
        let ghost pref = self@.transport_pref;
        let mut i: usize = 0;
        let mut found: Option<ScannerInfo> = None;
        while i < self.discovered.len()
            invariant
                i <= self.discovered@.len(),
                all == scanners_of(self.discovered@),
                pref == self.transport_pref,
                scanner::scanner_of(found) == chosen(all.take(i as int), pref, k@),
            decreases self.discovered@.len() - i,
        {
            proof {
                lemma_next(all, i as int);
            }
            let s = &self.discovered[i];
            if found.is_none() && text::same(s.device_key().as_str(), k)
                && self.transport_pref.matches(s.via) {
                found = Some(s.clone());
            }
            i += 1;
        }
        assert(all.take(i as int) =~= all);
        found
    }

    /// Copies of the scanners over the transports that the user wants.
    fn visible_copies(&self) -> (r: Vec<ScannerInfo>)
        ensures
            scanners_of(r@) == visible(self@),
    {
        let list = self.visible_scanners();
        let ghost shown = |s: &ScannerInfo| s@;
        let ghost all = visible(self@);
        let mut out: Vec<ScannerInfo> = Vec::new();
        let mut i: usize = 0;
        assert(scanners_of(out@) =~= all.take(0));
        while i < list.len()
            invariant
                i <= list@.len(),
                shown == (|s: &ScannerInfo| s@),
                all == list@.map_values(shown),
                scanners_of(out@) == all.take(i as int),
            decreases list@.len() - i,
        {
            let s = list[i].clone();
            proof {
                lemma_scanners_push(out@, s);
                assert(all[i as int] == list@[i as int]@);
            }
            out.push(s);
            i += 1;
            assert(all.take(i as int) =~= all.take(i - 1).push(all[i - 1]));
        }
        assert(all.take(i as int) =~= all);
        out
    }

    /// Uses the scanner with key `k` where it is in reach and wanted and no scan is running.
    /// Gives the key back where the choice is taken, to be remembered.
    pub fn select_scanner(&mut self, k: &str) -> (r: Option<String>)
        ensures
            final(self)@ == selected(old(self)@, k@),
            text::text_of(r) == (if selects(old(self)@, k@) {
                Some(k@)
            } else {
                None
            }),
            !selects(old(self)@, k@) ==> final(self).last_seen == old(self).last_seen,
    {
        if self.busy_scan() {
            return None;
        }
        match self.choice(k) {
            Some(s) => {
                self.preferred_id = Some(k.to_owned());
                self.apply_scanner(s);
                Some(k.to_owned())
            },
            None => None,
        }
    }

    /// Moves the choice to the scanner before or after the one in use. Gives its key back where
    /// the choice is taken, to be remembered.
    pub fn cycle_scanner(&mut self, dir: i32) -> (r: Option<String>)
        ensures
            final(self)@ == cycled(old(self)@, dir as int),
            text::text_of(r) == (if cycles(old(self)@, dir as int) {
                cycle_key(old(self)@, dir as int)
            } else {
                None
            }),
            !cycles(old(self)@, dir as int) ==> final(self).last_seen == old(self).last_seen,
    {
        let list = self.visible_copies();
        let ghost all = visible(self@);
        let n: usize = list.len();
        if n < 2 {
            return None;
        }
        let mut at: usize = 0;
        if let Some(s) = &self.scanner {
            if let Some(i) = position(&list, s.device_key().as_str()) {
                at = i;
            }
        }
        assert(at == cycle_start(self@));
        let next: usize = if dir < 0 {
            if at == 0 {
                n - 1
            } else {
                at - 1
            }
        } else if at + 1 == n {
            0
        } else {
            at + 1
        };
        proof {
            lemma_cycle(at as int, n as int, dir as int);
            assert(all[next as int] == list@[next as int]@);
        }
        let k = list[next].device_key();
        self.select_scanner(k.as_str())
    }

    /// Looks for a scanner in reach to use: the one the user chose, else the best.
    fn try_auto_connect(&mut self)
        ensures
            final(self)@ == auto_connected(old(self)@),
            visible(old(self)@).len() == 0 ==> final(self).last_seen == old(self).last_seen,
    {
        let list = self.visible_copies();
        let ghost all = visible(self@);
        if list.len() == 0 {
            return ;
        }
        let mut found: Option<usize> = None;
        if let Some(pref) = &self.preferred_id {
            found = position(&list, pref.as_str());
        }
        let i: usize = match found {
            Some(i) => i,
            None => best_of(&list),
        };
        assert(all[i as int] == list@[i as int]@);
        let s = list[i].clone();
        self.apply_scanner(s);
    }

    /// The scanner in use is lost: another takes its place unless a scan is running, else the
    /// reason is shown.
    fn drop_current(&mut self, reason: &str)
        ensures
            final(self)@ == dropped(old(self)@, reason@),
            final(self)@.scanner is None ==> final(self).last_seen == old(self).last_seen,
    {
        self.scanner = None;
        self.status = None;
        self.progress = ScanProgress::default();
        assert(self@ == released(old(self)@));
        if !self.busy_scan() {
            self.try_auto_connect();
        }
        if self.scanner.is_none() {
            self.connection = ConnectionState::AwaitingConnection;
            self.status_line = reason.to_owned();
        }
    }

    /// Every scanner over `via` is lost.
    pub fn forget_via(&mut self, via: Transport, reason: &str)
        ensures
            final(self)@ == without_via(old(self)@, via, reason@),
            !(lost_over(old(self)@, via) && final(self)@.scanner is Some) ==> final(self).last_seen
                == old(self).last_seen,
    {
        let mut hit = false;
        if let Some(s) = &self.scanner {
            hit = s.via == via;
        }
        let ghost all = self@.discovered;
        let mut left: Vec<ScannerInfo> = Vec::new();
        let mut i: usize = 0;
        proof {
            reveal(Seq::filter);
            assert(scanners_of(left@) =~= not_over(all.take(0), via));
        }
        while i < self.discovered.len()
            invariant
                i <= self.discovered@.len(),
                self@ == old(self)@,
                all == scanners_of(self.discovered@),
                scanners_of(left@) == not_over(all.take(i as int), via),
            decreases self.discovered@.len() - i,
        {
            proof {
                lemma_next(all, i as int);
                reveal(Seq::filter);
            }
            if self.discovered[i].via != via {
                let s = self.discovered[i].clone();
                proof {
                    lemma_scanners_push(left@, s);
                }
                left.push(s);
            }
            i += 1;
        }
        assert(all.take(i as int) =~= all);
        self.discovered = left;
        if hit {
            self.drop_current(reason);
        }
    }

    /// The scanner in use is lost, and no longer in reach.
    pub fn mark_disconnected(&mut self, reason: &str)
        ensures
            final(self)@ == disconnected(old(self)@, reason@),
            final(self)@.scanner is None ==> final(self).last_seen == old(self).last_seen,
    {
        let mut lost: Option<String> = None;
        if let Some(s) = &self.scanner {
            lost = Some(s.device_key());
        }
        if let Some(k) = lost {
            let left = self.without_key(k.as_str());
            self.discovered = left;
        }
        self.drop_current(reason);
    }

    fn without_key(&self, k: &str) -> (r: Vec<ScannerInfo>)
        ensures
            scanners_of(r@) == not_keyed(self@.discovered, k@),
    {
        let ghost all = self@.discovered;
        let mut left: Vec<ScannerInfo> = Vec::new();
        let mut i: usize = 0;
        proof {
            reveal(Seq::filter);
            assert(scanners_of(left@) =~= not_keyed(all.take(0), k@));
        }
        while i < self.discovered.len()
            invariant
                i <= self.discovered@.len(),
                all == scanners_of(self.discovered@),
                scanners_of(left@) == not_keyed(all.take(i as int), k@),
            decreases self.discovered@.len() - i,
        {
            proof {
                lemma_next(all, i as int);
                reveal(Seq::filter);
            }
            if !text::same(self.discovered[i].device_key().as_str(), k) {
                let s = self.discovered[i].clone();
                proof {
                    lemma_scanners_push(left@, s);
                }
                left.push(s);
            }
            i += 1;
        }
        assert(all.take(i as int) =~= all);
        left
    }

    /// The user chose transports: a scanner over another one is let go.
    pub fn apply_transport(&mut self, pref: TransportPref)
        ensures
            final(self)@ == with_transport(old(self)@, pref),
            !switches(old(self)@, pref) ==> final(self).last_seen == old(self).last_seen,
    {
        self.transport_pref = pref;
        let mut unwanted = false;
        if let Some(s) = &self.scanner {
            unwanted = !pref.matches(s.via);
        }
        if unwanted {
            self.scanner = None;
            self.status = None;
            self.progress = ScanProgress::default();
            assert(self@ == released(StateModel { transport_pref: pref, ..old(self)@ }));
            self.try_auto_connect();
            if self.scanner.is_none() {
                self.connection = ConnectionState::AwaitingConnection;
                self.status_line = match pref {
                    TransportPref::Usb => "Looking for your scanner on USB…".to_owned(),
                    TransportPref::Wifi => "Looking for your scanner on Wi-Fi…".to_owned(),
                    TransportPref::Auto => "Looking for your scanner…".to_owned(),
                };
            }
        } else {
            self.status_line = match pref {
                TransportPref::Usb => "Using USB.".to_owned(),
                TransportPref::Wifi => "Using Wi-Fi.".to_owned(),
                TransportPref::Auto => "Using Wi-Fi or USB.".to_owned(),
            };
        }
    }
}

proof fn lemma_cycle(at: int, n: int, dir: int)
    requires
        0 <= at < n,
        2 <= n,
    ensures
        dir < 0 ==> cycle_next(at, n, dir) == (if at == 0 {
            n - 1
        } else {
            at - 1
        }),
        dir >= 0 ==> cycle_next(at, n, dir) == (if at + 1 == n {
            0
        } else {
            at + 1
        }),
{
    if dir < 0 {
        if at == 0 {
            vstd::arithmetic::div_mod::lemma_small_mod((n - 1) as nat, n as nat);
        } else {
            vstd::arithmetic::div_mod::lemma_mod_add_multiples_vanish(at - 1, n);
            vstd::arithmetic::div_mod::lemma_small_mod((at - 1) as nat, n as nat);
        }
    } else if at + 1 == n {
        vstd::arithmetic::div_mod::lemma_mod_self_0(n);
    } else {
        vstd::arithmetic::div_mod::lemma_small_mod((at + 1) as nat, n as nat);
    }
}

/// The place of the last of the scanners with the best score.
fn best_of(list: &Vec<ScannerInfo>) -> (r: usize)
    requires
        list@.len() > 0,
    ensures
        r < list@.len(),
        list@[r as int]@ == best(scanners_of(list@)),
{
    let ghost all = scanners_of(list@);
    let mut b: usize = 0;
    let mut i: usize = 1;
    while i < list.len()
        invariant
            1 <= i <= list@.len(),
            b < i,
            all == scanners_of(list@),
            all[b as int] == best(all.take(i as int)),
        decreases list@.len() - i,
    {
        proof {
            lemma_next(all, i as int);
        }
        if list[i].auto_score() >= list[b].auto_score() {
            b = i;
        }
        i += 1;
    }
    assert(all.take(i as int) =~= all);
    b
}

/// The name of a preset tells its resolution.
pub proof fn presets_tell_their_resolution(p: ScanPreset)
    ensures
        exists|word: Seq<char>|
            preset_name(p) == #[trigger] (word + " ("@ + number::decimal(preset_dpi(p) as nat)
                + " dpi)"@),
{
    reveal_with_fuel(number::decimal, 4);
    reveal_strlit("Web (150 dpi)");
    reveal_strlit("Small (200 dpi)");
    reveal_strlit("Document (300 dpi)");
    reveal_strlit("Photo (400 dpi)");
    reveal_strlit("Fine (600 dpi)");
    reveal_strlit(" (");
    reveal_strlit(" dpi)");
    let n: int = match p {
        ScanPreset::Web => 3,
        ScanPreset::Email => 5,
        ScanPreset::Document => 8,
        ScanPreset::Photo => 5,
        ScanPreset::Fine => 4,
    };
    let word = preset_name(p).take(n);
    let dpi = number::decimal(preset_dpi(p) as nat);
    assert(dpi.len() == 3);
    assert(preset_name(p) =~= word + " ("@ + dpi + " dpi)"@);
}

/// A discovered scanner changes the list at its own place alone: it takes that place unless the
/// entry there has the better score, and every other scanner stays where it was.
pub proof fn an_offer_leaves_others_alone(m: StateModel, s: ScannerModel, i: int)
    requires
        scanner::wanted(m.transport_pref, s.via),
    ensures
        ({
            let list = offered(m, s).discovered;
            &&& m.discovered.len() <= list.len() <= m.discovered.len() + 1
            &&& 0 <= i < m.discovered.len() && scanner::key(m.discovered[i]) != scanner::key(s)
                ==> list[i] == m.discovered[i]
            &&& 0 <= i < list.len() ==> list[i] == s || (i < m.discovered.len() && list[i]
                == m.discovered[i])
            &&& (forall|j: int|
                0 <= j < m.discovered.len() ==> scanner::key(#[trigger] m.discovered[j])
                    != scanner::key(s)) ==> list == m.discovered.push(s)
        }),
{
    lemma_place_bounds(m.discovered, scanner::key(s));
}

/// A scanner that is offered again takes the place of its older entry where it is at least as
/// good, and the scanner in use always takes what is new of itself.
pub proof fn an_offer_brings_the_entry_up_to_date(m: StateModel, s: ScannerModel, i: int)
    requires
        scanner::wanted(m.transport_pref, s.via),
        0 <= i < m.discovered.len(),
        scanner::key(m.discovered[i]) == scanner::key(s),
        forall|j: int|
            0 <= j < i ==> scanner::key(#[trigger] m.discovered[j]) != scanner::key(s),
    ensures
        scanner::score(s) >= scanner::score(m.discovered[i]) ==> offered(m, s).discovered
            == m.discovered.update(i, s),
        scanner::score(s) < scanner::score(m.discovered[i]) ==> offered(m, s).discovered
            == m.discovered,
        (m.scanner matches Some(cur) && scanner::key(cur) == scanner::key(s)) ==> offered(
            m,
            s,
        ).scanner == Some(s),
{
    lemma_place_bounds(m.discovered, scanner::key(s));
}

/// A scanner is put in use when it is discovered while none is, or when it is better than the one
/// in use, unless a scan runs or the user chose another that is in reach; one that the user chose
/// is put in use in any case. Else the one in use stays.
pub proof fn the_better_scanner_is_put_in_use(m: StateModel, s: ScannerModel)
    requires
        scanner::wanted(m.transport_pref, s.via),
        !(m.scanner matches Some(cur) && scanner::key(cur) == scanner::key(s)),
    ensures
        m.connection != ConnectionState::Scanning && m.connection != ConnectionState::RunningOcr
            && !m.prompt_continue && !m.waiting_for_paper && m.preferred_id is None ==> (offered(
            m,
            s,
        ).scanner == Some(s) <==> m.scanner is None || scanner::score(s) > scanner::score(
            m.scanner->0,
        ) || m.scanner == Some(s)),
        m.connection != ConnectionState::Scanning && m.connection != ConnectionState::RunningOcr
            && !m.prompt_continue && !m.waiting_for_paper && m.preferred_id == Some(
            scanner::key(s),
        ) ==> offered(m, s).scanner == Some(s),
        offered(m, s).scanner == Some(s) || offered(m, s).scanner == m.scanner,
        offered(m, s).pages == m.pages && offered(m, s).preferred_id == m.preferred_id && offered(
            m,
            s,
        ).transport_pref == m.transport_pref,
        offered(m, s).scanner != m.scanner ==> {
            let n = offered(m, s);
            &&& n.connection != ConnectionState::AwaitingConnection
            &&& n.connection != ConnectionState::Degraded
            &&& s.via == Transport::Usb ==> n.status is Some && n.status->0.adf_state == "Ready"@
                && n.status->0.state == "Idle"@
            &&& s.via == Transport::Wifi ==> n.status == m.status
            &&& n.status_line == "Found "@ + s.name + " on "@ + scanner::transport_name(s.via)
                + "."@
        },
{
    let n = noted(m, s);
    lemma_place_bounds(m.discovered, scanner::key(s));
    if m.preferred_id == Some(scanner::key(s)) {
        match place_of(m.discovered, scanner::key(s)) {
            Some(i) => {
                keys_tell_the_transport(s, m.discovered[i]);
                if scanner::score(s) >= scanner::score(m.discovered[i]) {
                    assert(n.discovered[i] == s);
                } else {
                    assert(n.discovered[i] == m.discovered[i]);
                }
            },
            None => {
                assert(n.discovered[m.discovered.len() as int] == s);
            },
        }
    }
}

/// Scanners with the same key are reached over the same transport.
pub proof fn keys_tell_the_transport(a: ScannerModel, b: ScannerModel)
    requires
        scanner::key(a) == scanner::key(b),
    ensures
        a.via == b.via,
{
    reveal_strlit("usb:");
    reveal_strlit("usb:ipp:");
    reveal_strlit("wifi:");
    assert(scanner::key(a)[0] == (if a.via == Transport::Usb {
        'u'
    } else {
        'w'
    }));
    assert(scanner::key(b)[0] == (if b.via == Transport::Usb {
        'u'
    } else {
        'w'
    }));
}

proof fn lemma_chosen_first(list: Seq<ScannerModel>, pref: TransportPref, k: Seq<char>)
    ensures
        match chosen(list, pref, k) {
            Some(s) => scanner::key(s) == k && scanner::wanted(pref, s.via) && list.contains(s),
            None => forall|i: int|
                0 <= i < list.len() ==> !(scanner::key(#[trigger] list[i]) == k
                    && scanner::wanted(pref, list[i].via)),
        },
    decreases list.len(),
{
    if list.len() > 0 {
        let t = list.drop_last();
        lemma_chosen_first(t, pref, k);
        assert forall|i: int| 0 <= i < t.len() implies #[trigger] list[i] == t[i] by {}
        assert(list[list.len() - 1] == list.last());
        match chosen(t, pref, k) {
            Some(s) => {
                let i = choose|i: int| 0 <= i < t.len() && t[i] == s;
                assert(list[i] == s);
            },
            None => {},
        }
    }
}

/// The user's choice is taken exactly where a scanner with that key is in reach over a wanted
/// transport and no scan runs: such a scanner is then in use, and remembered. Else nothing changes.
pub proof fn a_choice_is_taken(m: StateModel, k: Seq<char>)
    ensures
        selects(m, k) <==> !busy(m) && exists|i: int|
            0 <= i < m.discovered.len() && scanner::key(#[trigger] m.discovered[i]) == k
                && scanner::wanted(m.transport_pref, m.discovered[i].via),
        !selects(m, k) ==> selected(m, k) == m,
        selects(m, k) ==> {
            let n = selected(m, k);
            &&& n.scanner matches Some(s) && scanner::key(s) == k && m.discovered.contains(s)
                && scanner::wanted(m.transport_pref, s.via)
            &&& n.preferred_id == Some(k)
            &&& n.connection != ConnectionState::AwaitingConnection
            &&& n.connection != ConnectionState::Degraded
            &&& n.discovered == m.discovered && n.pages == m.pages && n.transport_pref
                == m.transport_pref
        },
{
    lemma_chosen_first(m.discovered, m.transport_pref, k);
    if selects(m, k) {
        let s = chosen(m.discovered, m.transport_pref, k)->0;
        let i = choose|i: int| 0 <= i < m.discovered.len() && m.discovered[i] == s;
        assert(scanner::key(m.discovered[i]) == k);
    }
}

/// A scan is going on exactly while a sheet is scanned or read, or while the next one is waited
/// for.
pub proof fn busy_means_a_scan_goes_on(m: StateModel)
    ensures
        m.connection == ConnectionState::Scanning ==> busy(m),
        m.connection == ConnectionState::RunningOcr ==> busy(m),
        m.prompt_continue || m.waiting_for_paper ==> busy(m),
        busy(m) ==> m.connection == ConnectionState::Scanning || m.connection
            == ConnectionState::RunningOcr || m.prompt_continue || m.waiting_for_paper,
{
}

proof fn lemma_filter_keeps(list: Seq<ScannerModel>, keep: spec_fn(ScannerModel) -> bool)
    ensures
        forall|x: ScannerModel| #[trigger]
            list.filter(keep).contains(x) <==> list.contains(x) && keep(x),
    decreases list.len(),
{
    reveal(Seq::filter);
    if list.len() > 0 {
        let t = list.drop_last();
        lemma_filter_keeps(t, keep);
        let f = list.filter(keep);
        let ft = t.filter(keep);
        assert forall|x: ScannerModel| #[trigger] f.contains(x) <==> list.contains(x) && keep(x) by {
            if list.contains(x) && keep(x) {
                let i = choose|i: int| 0 <= i < list.len() && list[i] == x;
                if i < t.len() {
                    assert(t[i] == x);
                    assert(ft.contains(x));
                    let j = choose|j: int| 0 <= j < ft.len() && ft[j] == x;
                    assert(f[j] == x);
                } else {
                    assert(f[f.len() - 1] == x);
                }
            }
            if f.contains(x) {
                let j = choose|j: int| 0 <= j < f.len() && f[j] == x;
                if j < ft.len() {
                    assert(ft[j] == x);
                    assert(ft.contains(x));
                    assert(t.contains(x));
                    let i = choose|i: int| 0 <= i < t.len() && t[i] == x;
                    assert(list[i] == x);
                } else {
                    assert(list[list.len() - 1] == x);
                }
            }
        }
    }
}

/// The loss of a transport costs just the scanners over it. Where the one in use is reached over
/// another, nothing else changes.
pub proof fn a_lost_transport_costs_its_scanners(
    m: StateModel,
    via: Transport,
    reason: Seq<char>,
    x: ScannerModel,
)
    ensures
        without_via(m, via, reason).discovered.contains(x) <==> m.discovered.contains(x) && x.via
            != via,
        !(m.scanner matches Some(s) && s.via == via) ==> without_via(m, via, reason) == (
        StateModel { discovered: without_via(m, via, reason).discovered, ..m }),
        without_via(m, via, reason).pages == m.pages,
        without_via(m, via, reason).preferred_id == m.preferred_id,
{
    lemma_filter_keeps(m.discovered, |s: ScannerModel| s.via != via);
}

/// The loss of the scanner in use costs that scanner alone, and no page. While a scan waits, none
/// takes its place.
pub proof fn a_loss_costs_one_scanner(m: StateModel, reason: Seq<char>, x: ScannerModel)
    requires
        m.scanner is Some,
    ensures
        disconnected(m, reason).discovered.contains(x) <==> m.discovered.contains(x)
            && scanner::key(x) != scanner::key(m.scanner->0),
        disconnected(m, reason).pages == m.pages,
        disconnected(m, reason).page_texts == m.page_texts,
        disconnected(m, reason).preferred_id == m.preferred_id,
        disconnected(m, reason).transport_pref == m.transport_pref,
        busy(m) ==> disconnected(m, reason).scanner is None && disconnected(m, reason).status is None,
        disconnected(m, reason).progress == no_progress(),
        disconnected(m, reason).session == m.session,
{
    lemma_filter_keeps(m.discovered, |s: ScannerModel| scanner::key(s) != scanner::key(m.scanner->0));
}

/// The scanners shown are those in reach over a wanted transport.
pub proof fn wanted_scanners_are_shown(m: StateModel, x: ScannerModel)
    ensures
        visible(m).contains(x) <==> m.discovered.contains(x) && scanner::wanted(
            m.transport_pref,
            x.via,
        ),
        m.transport_pref == TransportPref::Auto ==> (visible(m).contains(x)
            <==> m.discovered.contains(x)),
{
    lemma_filter_keeps(m.discovered, |s: ScannerModel| scanner::wanted(m.transport_pref, s.via));
}

/// A choice of transports is kept, and costs no scanner in reach and no page. The scanner in use
/// stays where it is reached over one of them.
pub proof fn a_choice_of_transports_is_kept(m: StateModel, pref: TransportPref)
    ensures
        with_transport(m, pref).transport_pref == pref,
        with_transport(m, pref).discovered == m.discovered,
        with_transport(m, pref).pages == m.pages,
        with_transport(m, pref).preferred_id == m.preferred_id,
        m.scanner is None ==> with_transport(m, pref) == (StateModel {
            transport_pref: pref,
            status_line: with_transport(m, pref).status_line,
            ..m
        }),
        (m.scanner matches Some(s) && scanner::wanted(pref, s.via)) ==> with_transport(m, pref) == (
        StateModel { transport_pref: pref, status_line: with_transport(m, pref).status_line, ..m }),
        (m.scanner matches Some(s) && !scanner::wanted(pref, s.via)) && with_transport(
            m,
            pref,
        ).scanner is None ==> with_transport(m, pref).connection
            == ConnectionState::AwaitingConnection,
{
}

/// A transport is wanted where the user chose it, or either.
pub proof fn transports_are_wanted_as_chosen(via: Transport)
    ensures
        scanner::wanted(TransportPref::Auto, via),
        scanner::wanted(TransportPref::Wifi, via) <==> via == Transport::Wifi,
        scanner::wanted(TransportPref::Usb, via) <==> via == Transport::Usb,
{
}

/// Where a scanner is looked for, the one that the user chose is put in use if it is in reach.
pub proof fn the_chosen_scanner_is_looked_for_first(m: StateModel, i: int)
    requires
        0 <= i < visible(m).len(),
        m.preferred_id == Some(scanner::key(visible(m)[i])),
    ensures
        auto_connected(m).scanner matches Some(s) && Some(scanner::key(s)) == m.preferred_id,
{
    lemma_place_bounds(visible(m), m.preferred_id->0);
}

/// The choice moves by one place in the order of the scanners shown, from the last to the first
/// and back.
pub proof fn the_choice_moves_by_one(m: StateModel, i: int)
    requires
        visible(m).len() >= 2,
        0 <= i < visible(m).len(),
        m.scanner matches Some(s) && scanner::key(s) == scanner::key(visible(m)[i]),
        forall|j: int|
            0 <= j < i ==> scanner::key(#[trigger] visible(m)[j]) != scanner::key(visible(m)[i]),
    ensures
        i + 1 < visible(m).len() ==> cycle_key(m, 1) == Some(scanner::key(visible(m)[i + 1])),
        i + 1 == visible(m).len() ==> cycle_key(m, 1) == Some(scanner::key(visible(m)[0])),
        i > 0 ==> cycle_key(m, -1) == Some(scanner::key(visible(m)[i - 1])),
        i == 0 ==> cycle_key(m, -1) == Some(scanner::key(visible(m).last())),
{
    lemma_place_bounds(visible(m), scanner::key(visible(m)[i]));
    lemma_cycle(i, visible(m).len() as int, 1);
    lemma_cycle(i, visible(m).len() as int, -1);
}

/// The parts of a scan are shared out: nothing is done before the job is posted, a receipt is done
/// with its side, and the back follows the front.
pub proof fn progress_rises(p: ScanProgress)
    ensures
        !p.job_posted && !p.front_done ==> share(p).span == 0 && share(p).base < 10,
        p.job_posted && !p.front_done ==> 0 < share(p).base < share(p).base + share(p).span < 100,
        p.job_posted && !p.one_sided && p.front_done && !p.back_done ==> share(p).base > share(
            ScanProgress { front_done: false, ..p },
        ).base + share(ScanProgress { front_done: false, ..p }).span,
{
}

/// A choice of a scanner costs no page, no text and no scanner in reach.
pub proof fn a_choice_keeps_the_document(m: StateModel, k: Seq<char>)
    ensures
        selected(m, k).pages == m.pages,
        selected(m, k).page_texts == m.page_texts,
        selected(m, k).sheets == m.sheets,
        selected(m, k).discovered == m.discovered,
        selected(m, k).transport_pref == m.transport_pref,
        selected(m, k).scan_preset == m.scan_preset,
{
}

/// A choice of the transports costs no page, no text and no scanner in reach.
pub proof fn a_choice_of_transports_keeps_the_document(m: StateModel, p: TransportPref)
    ensures
        with_transport(m, p).pages == m.pages,
        with_transport(m, p).page_texts == m.page_texts,
        with_transport(m, p).sheets == m.sheets,
        with_transport(m, p).discovered == m.discovered,
        with_transport(m, p).scan_preset == m.scan_preset,
{
}

/// At the start nothing is scanned and no scanner is known but the one that was chosen last; a scan
/// would be a document in two-sided colour with its text read.
pub proof fn the_start_is_empty(preferred: Option<Seq<char>>)
    ensures
        ({
            let m = start_state(preferred);
            &&& m.connection == ConnectionState::AwaitingConnection
            &&& m.scanner is None && m.status is None && !m.seen
            &&& m.discovered.len() == 0
            &&& m.preferred_id == preferred
            &&& m.transport_pref == TransportPref::Auto
            &&& m.scan_preset == ScanPreset::Document
            &&& m.ocr_enabled && !m.continuous && !m.long_receipt
            &&& !m.prompt_continue && !m.waiting_for_paper && !m.scan_append
            &&& m.pages.len() == 0 && m.page_texts.len() == 0 && m.sheets == 0 && m.pages_dpi == 0
            &&& m.front_image is None && m.back_image is None
            &&& m.front_text.len() == 0 && m.back_text.len() == 0
            &&& m.last_pdf is None && m.last_pdf_dpi is None && m.last_escl_job is None
            &&& m.session.jobs_ok == 0 && m.session.jobs_failed == 0
            &&& m.session.last_front_bytes == 0 && m.session.last_back_bytes == 0
            &&& m.session.last_error is None
            &&& m.status_line == "Looking for your scanner…"@
            &&& !busy(m)
            &&& visible(m).len() == 0
        }),
        ({
            let p = no_progress();
            &&& !p.job_posted && !p.front_done && !p.back_done && !p.one_sided
            &&& p.current_side == 0 && p.current_bytes == 0 && p.expected_bytes == 0
            &&& p.front_bytes == 0 && p.back_bytes == 0
        }),
{
}

/// The connection is told in words.
pub proof fn connections_are_told_in_words(c: ConnectionState)
    ensures
        c == ConnectionState::AwaitingConnection ==> connection_name(c) == "Awaiting Connection"@,
        c == ConnectionState::Connected ==> connection_name(c) == "Connected"@,
        c == ConnectionState::Scanning ==> connection_name(c) == "Scanning"@,
        c == ConnectionState::RunningOcr ==> connection_name(c) == "OCR"@,
        c == ConnectionState::Degraded ==> connection_name(c) == "Degraded"@,
{
}

/// The scanner that was written down is remembered without the white space about it, and nothing
/// is remembered where nothing was written.
pub proof fn a_written_choice_is_remembered(s: Seq<char>)
    ensures
        remembered(None) is None,
        s.len() == 0 ==> remembered(Some(s)) is None,
        s.len() > 0 && !text::is_white(s[0]) && !text::is_white(s.last()) ==> remembered(Some(s))
            == Some(s),
        remembered(Some(s)) matches Some(k) ==> k.len() > 0 && k == text::trimmed(s),
        remembered(Some(s)) is None <==> text::trimmed(s).len() == 0,
{
}

/// Without a scanner in use the choice moves from the first that is shown; one that is shown alone
/// is no choice.
pub proof fn the_choice_begins_at_the_first(m: StateModel)
    ensures
        visible(m).len() < 2 ==> cycle_key(m, 1) is None && cycle_key(m, -1) is None,
        visible(m).len() >= 2 && m.scanner is None ==> cycle_key(m, 1) == Some(
            scanner::key(visible(m)[1]),
        ) && cycle_key(m, -1) == Some(scanner::key(visible(m).last())),
{
    if visible(m).len() >= 2 {
        lemma_cycle(0, visible(m).len() as int, 1);
        lemma_cycle(0, visible(m).len() as int, -1);
    }
}

/// The progress of each step of a scan: the job, the front and the back, or the one side of a
/// receipt.
pub proof fn every_step_has_its_share(p: ScanProgress)
    ensures
        !p.one_sided && !p.job_posted && !(p.front_done && p.back_done) ==> share(p).base == 4
            && share(p).span == 0,
        p.one_sided && !p.job_posted && !p.front_done ==> share(p).base == 5 && share(p).span == 0,
        !p.one_sided && p.job_posted && !p.front_done ==> share(p).base == 8 && share(p).span == 40,
        p.one_sided && p.job_posted && !p.front_done ==> share(p).base == 8 && share(p).span == 88,
        !p.one_sided && p.job_posted && p.front_done && !p.back_done ==> share(p).base == 52
            && share(p).span == 42,
        p.front_done && (p.one_sided || p.back_done) ==> share(p).base == 100 && share(p).span == 0,
{
}

} // verus!
