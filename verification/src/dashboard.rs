//! What the user does at the dashboard, and what follows from it.

use std::sync::Arc;

use vstd::prelude::*;

use crate::images;
use crate::number;
use crate::pdf;
use crate::scan;
use crate::scanner::TransportPref;
use crate::state;
use crate::state::{AppState, ConnectionState, ScanPreset, StateModel};
use crate::status;
use crate::text;

verus! {

/// A PDF file that was written: its path as it is shown, and its length where it can be told.
#[derive(Debug)]
pub struct SavedFile {
    pub shown: String,
    pub size: Option<u64>,
}

/// What the dashboard is told.
#[derive(Debug)]
pub enum Message {
    Tick,
    Scan,
    SavePdf,
    EmailPdf,
    SetPreset(ScanPreset),
    ToggleOcr(bool),
    ToggleContinuous(bool),
    ToggleLongReceipt(bool),
    ContinueFeed,
    CancelFeed,
    SetTransport(TransportPref),
    SelectScanner(String),
    FlipOcr,
    FlipContinuous,
    FlipLongReceipt,
    KeyDown(String),
    KeyUp(String),
    PdfDone(Result<SavedFile, String>),
    EmailDone(Result<(), String>),
}

/// What a `Message` says.
pub enum MessageModel {
    Tick,
    Scan,
    SavePdf,
    EmailPdf,
    SetPreset(ScanPreset),
    ToggleOcr(bool),
    ToggleContinuous(bool),
    ToggleLongReceipt(bool),
    ContinueFeed,
    CancelFeed,
    SetTransport(TransportPref),
    SelectScanner(Seq<char>),
    FlipOcr,
    FlipContinuous,
    FlipLongReceipt,
    KeyDown(Seq<char>),
    KeyUp(Seq<char>),
    PdfDone(Result<(Seq<char>, Option<u64>), Seq<char>>),
    EmailDone(Result<(), Seq<char>>),
}

impl View for Message {
    type V = MessageModel;

    open spec fn view(&self) -> MessageModel {
        match *self {
            Message::Tick => MessageModel::Tick,
            Message::Scan => MessageModel::Scan,
            Message::SavePdf => MessageModel::SavePdf,
            Message::EmailPdf => MessageModel::EmailPdf,
            Message::SetPreset(p) => MessageModel::SetPreset(p),
            Message::ToggleOcr(b) => MessageModel::ToggleOcr(b),
            Message::ToggleContinuous(b) => MessageModel::ToggleContinuous(b),
            Message::ToggleLongReceipt(b) => MessageModel::ToggleLongReceipt(b),
            Message::ContinueFeed => MessageModel::ContinueFeed,
            Message::CancelFeed => MessageModel::CancelFeed,
            Message::SetTransport(p) => MessageModel::SetTransport(p),
            Message::SelectScanner(k) => MessageModel::SelectScanner(k@),
            Message::FlipOcr => MessageModel::FlipOcr,
            Message::FlipContinuous => MessageModel::FlipContinuous,
            Message::FlipLongReceipt => MessageModel::FlipLongReceipt,
            Message::KeyDown(k) => MessageModel::KeyDown(k@),
            Message::KeyUp(k) => MessageModel::KeyUp(k@),
            Message::PdfDone(Ok(f)) => MessageModel::PdfDone(Ok((f.shown@, f.size))),
            Message::PdfDone(Err(e)) => MessageModel::PdfDone(Err(e@)),
            Message::EmailDone(Ok(())) => MessageModel::EmailDone(Ok(())),
            Message::EmailDone(Err(e)) => MessageModel::EmailDone(Err(e@)),
        }
    }
}

impl Clone for Message {
    fn clone(&self) -> (r: Self)
        ensures
            r@ == self@,
    {
        match self {
            Message::Tick => Message::Tick,
            Message::Scan => Message::Scan,
            Message::SavePdf => Message::SavePdf,
            Message::EmailPdf => Message::EmailPdf,
            Message::SetPreset(p) => Message::SetPreset(*p),
            Message::ToggleOcr(b) => Message::ToggleOcr(*b),
            Message::ToggleContinuous(b) => Message::ToggleContinuous(*b),
            Message::ToggleLongReceipt(b) => Message::ToggleLongReceipt(*b),
            Message::ContinueFeed => Message::ContinueFeed,
            Message::CancelFeed => Message::CancelFeed,
            Message::SetTransport(p) => Message::SetTransport(*p),
            Message::SelectScanner(k) => Message::SelectScanner(k.clone()),
            Message::FlipOcr => Message::FlipOcr,
            Message::FlipContinuous => Message::FlipContinuous,
            Message::FlipLongReceipt => Message::FlipLongReceipt,
            Message::KeyDown(k) => Message::KeyDown(k.clone()),
            Message::KeyUp(k) => Message::KeyUp(k.clone()),
            Message::PdfDone(Ok(f)) => Message::PdfDone(
                Ok(SavedFile { shown: f.shown.clone(), size: f.size }),
            ),
            Message::PdfDone(Err(e)) => Message::PdfDone(Err(e.clone())),
            Message::EmailDone(Ok(())) => Message::EmailDone(Ok(())),
            Message::EmailDone(Err(e)) => Message::EmailDone(Err(e.clone())),
        }
    }
}

/// What becomes of a preview of the sheet that is being scanned.
#[derive(Debug)]
pub enum LivePreview {
    /// It stays as it is.
    Keep,
    /// It is made anew from these bytes.
    Show(Arc<Vec<u8>>),
    /// It goes.
    Clear,
}

/// What a `LivePreview` says.
pub enum LiveModel {
    Keep,
    Show(Seq<u8>),
    Clear,
}

impl View for LivePreview {
    type V = LiveModel;

    open spec fn view(&self) -> LiveModel {
        match *self {
            LivePreview::Keep => LiveModel::Keep,
            LivePreview::Show(b) => LiveModel::Show(b@),
            LivePreview::Clear => LiveModel::Clear,
        }
    }
}

/// How the previews are brought up to date: whether those of the pages begin anew, which pages are
/// added to them, and what becomes of the two of the sheet that is being scanned.
#[derive(Debug)]
pub struct PreviewPlan {
    pub clear: bool,
    pub add: Vec<Arc<Vec<u8>>>,
    pub front: LivePreview,
    pub back: LivePreview,
}

/// What a `PreviewPlan` says.
#[verifier::ext_equal]
pub struct PlanModel {
    pub clear: bool,
    pub add: Seq<Seq<u8>>,
    pub front: LiveModel,
    pub back: LiveModel,
}

impl View for PreviewPlan {
    type V = PlanModel;

    open spec fn view(&self) -> PlanModel {
        PlanModel {
            clear: self.clear,
            add: state::images_of(self.add@),
            front: self.front@,
            back: self.back@,
        }
    }
}

/// What is to be done after a message.
#[derive(Debug)]
pub enum Effect {
    Nothing,
    /// The previews are brought up to date; then a scan may begin.
    Refresh(PreviewPlan, bool),
    /// A scan is to begin.
    Scan,
    /// A PDF file of the pages is to be written, at a path that the user picks or at the usual
    /// one.
    SavePdf(Vec<Arc<Vec<u8>>>, u16, bool),
    /// A PDF file of the pages is to be written that fits in an email.
    EmailPdf(Vec<Arc<Vec<u8>>>, u16),
    /// A mail is to be opened with the file that was written.
    AttachEmail,
    /// The choice of a scanner is to be remembered.
    Remember(String),
}

/// What an `Effect` says.
pub enum EffectModel {
    Nothing,
    Refresh(PlanModel, bool),
    Scan,
    SavePdf(Seq<Seq<u8>>, u16, bool),
    EmailPdf(Seq<Seq<u8>>, u16),
    AttachEmail,
    Remember(Seq<char>),
}

impl View for Effect {
    type V = EffectModel;

    open spec fn view(&self) -> EffectModel {
        match *self {
            Effect::Nothing => EffectModel::Nothing,
            Effect::Refresh(p, scan) => EffectModel::Refresh(p@, scan),
            Effect::Scan => EffectModel::Scan,
            Effect::SavePdf(p, dpi, pick) => EffectModel::SavePdf(state::images_of(p@), dpi, pick),
            Effect::EmailPdf(p, dpi) => EffectModel::EmailPdf(state::images_of(p@), dpi),
            Effect::AttachEmail => EffectModel::AttachEmail,
            Effect::Remember(k) => EffectModel::Remember(k@),
        }
    }
}

/// The dashboard: what it shows of the pages, what it waits for, and the keys that are held.
#[derive(Debug)]
pub struct Dashboard {
    /// The lengths of the pages that the previews were made of.
    pub page_lens: Vec<usize>,
    /// The previews of pages.
    pub handles: usize,
    pub live_front_len: usize,
    pub live_back_len: usize,
    /// A PDF file is being written.
    pub saving: bool,
    /// It is to be emailed.
    pub email_after: bool,
    pub pdf_dpi: u16,
    pub spin_phase: u8,
    pub pressed: Vec<String>,
}

/// What a `Dashboard` says.
#[verifier::ext_equal]
pub struct DashModel {
    pub page_lens: Seq<usize>,
    pub handles: usize,
    pub live_front_len: usize,
    pub live_back_len: usize,
    pub saving: bool,
    pub email_after: bool,
    pub pdf_dpi: u16,
    pub spin_phase: u8,
    pub pressed: Set<Seq<char>>,
}

impl View for Dashboard {
    type V = DashModel;

    open spec fn view(&self) -> DashModel {
        DashModel {
            page_lens: self.page_lens@,
            handles: self.handles,
            live_front_len: self.live_front_len,
            live_back_len: self.live_back_len,
            saving: self.saving,
            email_after: self.email_after,
            pdf_dpi: self.pdf_dpi,
            spin_phase: self.spin_phase,
            pressed: text::texts_of(self.pressed@).to_set(),
        }
    }
}

/// The dashboard as it opens.
pub open spec fn opened() -> DashModel {
    DashModel {
        page_lens: Seq::empty(),
        handles: 0,
        live_front_len: 0,
        live_back_len: 0,
        saving: false,
        email_after: false,
        pdf_dpi: 300,
        spin_phase: 0,
        pressed: Set::empty(),
    }
}

/// Nothing but a running job, or the end of one, can be waited for.
pub open spec fn occupied(d: DashModel, m: StateModel) -> bool {
    d.saving || state::busy(m)
}

/// The lengths of pages.
pub open spec fn lens(pages: Seq<Seq<u8>>) -> Seq<usize> {
    pages.map_values(|p: Seq<u8>| p.len() as usize)
}

/// `a` is the beginning of `b`.
pub open spec fn leads(a: Seq<usize>, b: Seq<usize>) -> bool {
    a.len() <= b.len() && forall|i: int| 0 <= i < a.len() ==> #[trigger] a[i] == b[i]
}

/// The previews begin anew: the pages are others than before, not only more.
pub open spec fn starts_over(d: DashModel, m: StateModel) -> bool {
    lens(m.pages) != d.page_lens && !leads(d.page_lens, lens(m.pages))
}

/// The pages that are added to the previews.
pub open spec fn pages_added(d: DashModel, m: StateModel) -> Seq<Seq<u8>> {
    if lens(m.pages) == d.page_lens {
        Seq::empty()
    } else {
        let from = if starts_over(d, m) {
            0int
        } else {
            d.handles as int
        };
        if from <= m.pages.len() {
            pdf::present(m.pages.skip(from))
        } else {
            Seq::empty()
        }
    }
}

/// What becomes of a preview whose image had `len` bytes.
pub open spec fn live_step(image: Option<Seq<u8>>, len: usize) -> LiveModel {
    match image {
        Some(b) => if b.len() > 0 && b.len() != len {
            LiveModel::Show(b)
        } else {
            LiveModel::Keep
        },
        None => LiveModel::Clear,
    }
}

/// The length of the image of a preview after that.
pub open spec fn live_len(image: Option<Seq<u8>>, len: usize) -> usize {
    match image {
        Some(b) => if b.len() > 0 {
            b.len() as usize
        } else {
            len
        },
        None => 0,
    }
}

/// How the previews are brought up to date.
pub open spec fn preview_plan(d: DashModel, m: StateModel) -> PlanModel {
    PlanModel {
        clear: starts_over(d, m),
        add: pages_added(d, m),
        front: live_step(m.front_image, d.live_front_len),
        back: live_step(m.back_image, d.live_back_len),
    }
}

/// The dashboard with the previews up to date.
pub open spec fn synced(d: DashModel, m: StateModel) -> DashModel {
    DashModel {
        page_lens: lens(m.pages),
        handles: ((if starts_over(d, m) {
            0int
        } else {
            d.handles as int
        }) + pages_added(d, m).len()) as usize,
        live_front_len: live_len(m.front_image, d.live_front_len),
        live_back_len: live_len(m.back_image, d.live_back_len),
        ..d
    }
}

/// No more previews than pages.
pub open spec fn in_step(d: DashModel) -> bool {
    d.handles <= d.page_lens.len()
}

/// The sheet that was waited for is in the feeder.
pub open spec fn paper_came(m: StateModel) -> bool {
    m.waiting_for_paper && m.connection == ConnectionState::Connected && m.status is Some
        && status::sheet_ready(m.status->0)
}

/// The pages of the document, or those of the last scan where the document has none.
pub open spec fn collected(m: StateModel) -> Seq<Seq<u8>> {
    if m.pages.len() > 0 {
        m.pages
    } else {
        scan::sides_present(
            match m.front_image {
                Some(b) => b,
                None => Seq::empty(),
            },
            match m.back_image {
                Some(b) => b,
                None => Seq::empty(),
            },
        )
    }
}

/// The resolution of the document.
pub open spec fn collected_dpi(m: StateModel) -> u16 {
    if m.pages_dpi > 0 {
        m.pages_dpi
    } else {
        state::preset_dpi(m.scan_preset)
    }
}

/// What is shown when the document is closed.
pub open spec fn closing_line(pages: nat) -> Seq<char> {
    if pages == 0 {
        "Scan cancelled."@
    } else {
        "Document ready ("@ + number::decimal(pages) + " pages)."@
    }
}

/// The dashboard, the state and the effect after a message.
pub struct Step {
    pub d: DashModel,
    pub m: StateModel,
    pub e: EffectModel,
}

/// Nothing happens.
pub open spec fn nothing(d: DashModel, m: StateModel) -> Step {
    Step { d, m, e: EffectModel::Nothing }
}

/// The state changes where nothing runs.
pub open spec fn unless_busy(d: DashModel, m: StateModel, n: StateModel) -> Step {
    if occupied(d, m) {
        nothing(d, m)
    } else {
        nothing(d, n)
    }
}

/// A scanner is chosen.
pub open spec fn choice_made(d: DashModel, m: StateModel, k: Seq<char>) -> Step {
    if occupied(d, m) {
        nothing(d, m)
    } else {
        Step {
            d,
            m: state::selected(m, k),
            e: if state::selects(m, k) {
                EffectModel::Remember(k)
            } else {
                EffectModel::Nothing
            },
        }
    }
}

/// The choice of a scanner moves.
pub open spec fn choice_moved(d: DashModel, m: StateModel, dir: int) -> Step {
    match state::cycle_key(m, dir) {
        Some(k) => choice_made(d, m, k),
        None => nothing(d, m),
    }
}

/// A moment passes.
pub open spec fn ticked(d: DashModel, m: StateModel) -> Step {
    Step {
        d: synced(DashModel { spin_phase: ((d.spin_phase + 1) % 256) as u8, ..d }, m),
        m: if paper_came(m) {
            StateModel {
                waiting_for_paper: false,
                scan_append: true,
                status_line: "Paper detected. Scanning…"@,
                ..m
            }
        } else {
            m
        },
        e: EffectModel::Refresh(preview_plan(d, m), paper_came(m)),
    }
}

/// A PDF file is asked for.
pub open spec fn save_asked(d: DashModel, m: StateModel, pick: bool) -> Step {
    if d.saving {
        nothing(d, m)
    } else if collected(m).len() == 0 {
        nothing(d, scan::with_error(m, Some("Scan a page before saving a PDF."@)))
    } else {
        Step {
            d: DashModel { saving: true, pdf_dpi: collected_dpi(m), ..d },
            m: StateModel { status_line: "Saving PDF…"@, ..m },
            e: EffectModel::SavePdf(collected(m), collected_dpi(m), pick),
        }
    }
}

/// An email is asked for.
pub open spec fn email_asked(d: DashModel, m: StateModel) -> Step {
    if d.saving {
        nothing(d, m)
    } else if collected(m).len() == 0 {
        nothing(d, scan::with_error(m, Some("Scan a page before emailing a PDF."@)))
    } else {
        Step {
            d: DashModel { saving: true, email_after: true, pdf_dpi: collected_dpi(m), ..d },
            m: StateModel { status_line: "Preparing a PDF under 5 MB…"@, ..m },
            e: EffectModel::EmailPdf(collected(m), collected_dpi(m)),
        }
    }
}

/// The user goes on with the document: the next sheet is scanned once it is in the feeder.
pub open spec fn feed_continued(d: DashModel, m: StateModel) -> Step {
    if !m.prompt_continue {
        nothing(d, m)
    } else {
        let ready = m.status is Some && status::sheet_ready(m.status->0);
        Step {
            d,
            m: StateModel {
                prompt_continue: false,
                scan_append: true,
                waiting_for_paper: !ready,
                status_line: "Load the next page…"@,
                ..m
            },
            e: if ready {
                EffectModel::Scan
            } else {
                EffectModel::Nothing
            },
        }
    }
}

/// The user closes the document.
pub open spec fn feed_cancelled(m: StateModel) -> StateModel {
    StateModel {
        prompt_continue: false,
        waiting_for_paper: false,
        scan_append: false,
        status_line: closing_line(m.pages.len()),
        ..m
    }
}

/// What is shown when a PDF file was written.
pub open spec fn saved_line(file: (Seq<char>, Option<u64>), email: bool) -> Seq<char> {
    if email {
        "Opening mail with a "@ + number::megabytes(
            match file.1 {
                Some(n) => n as nat,
                None => 0,
            },
        ) + " MB PDF…"@
    } else {
        "saved "@ + file.0 + match file.1 {
            Some(n) => " · "@ + number::bytes_shown(n as nat),
            None => Seq::empty(),
        }
    }
}

/// A PDF file was written, or not.
pub open spec fn pdf_done(
    d: DashModel,
    m: StateModel,
    r: Result<(Seq<char>, Option<u64>), Seq<char>>,
) -> Step {
    let free = DashModel { saving: false, email_after: false, ..d };
    match r {
        Ok(file) => {
            let told = StateModel {
                status_line: saved_line(file, d.email_after),
                ..scan::with_error(m, None)
            };
            if d.email_after {
                Step { d: free, m: told, e: EffectModel::AttachEmail }
            } else {
                nothing(
                    free,
                    StateModel { last_pdf: Some(file.0), last_pdf_dpi: Some(d.pdf_dpi), ..told },
                )
            }
        },
        Err(e) => nothing(free, scan::with_error(m, Some(e))),
    }
}

/// A mail was opened, or not.
pub open spec fn email_done(m: StateModel, r: Result<(), Seq<char>>) -> StateModel {
    match r {
        Ok(()) => StateModel {
            status_line: "Mail composer opened."@,
            ..scan::with_error(m, None)
        },
        Err(e) => scan::with_error(m, Some(e)),
    }
}

/// What follows from a message that is no key.
pub open spec fn acted(d: DashModel, m: StateModel, msg: MessageModel) -> Step {
    match msg {
        MessageModel::Tick => ticked(d, m),
        MessageModel::Scan => if occupied(d, m) {
            nothing(d, m)
        } else {
            Step { d, m: StateModel { scan_append: false, ..m }, e: EffectModel::Scan }
        },
        MessageModel::SavePdf => save_asked(DashModel { email_after: false, ..d }, m, true),
        MessageModel::EmailPdf => email_asked(d, m),
        MessageModel::SetPreset(p) => unless_busy(d, m, StateModel { scan_preset: p, ..m }),
        MessageModel::ToggleOcr(b) => unless_busy(d, m, StateModel { ocr_enabled: b, ..m }),
        MessageModel::ToggleContinuous(b) => unless_busy(d, m, StateModel { continuous: b, ..m }),
        MessageModel::ToggleLongReceipt(b) => unless_busy(
            d,
            m,
            StateModel { long_receipt: b, ..m },
        ),
        MessageModel::FlipOcr => unless_busy(d, m, StateModel { ocr_enabled: !m.ocr_enabled, ..m }),
        MessageModel::FlipContinuous => unless_busy(
            d,
            m,
            StateModel { continuous: !m.continuous, ..m },
        ),
        MessageModel::FlipLongReceipt => unless_busy(
            d,
            m,
            StateModel { long_receipt: !m.long_receipt, ..m },
        ),
        MessageModel::ContinueFeed => feed_continued(d, m),
        MessageModel::CancelFeed => nothing(d, feed_cancelled(m)),
        MessageModel::EmailDone(r) => nothing(d, email_done(m, r)),
        MessageModel::KeyDown(_) => nothing(d, m),
        MessageModel::KeyUp(_) => nothing(d, m),
        MessageModel::SelectScanner(k) => choice_made(d, m, k),
        MessageModel::SetTransport(p) => unless_busy(d, m, state::with_transport(m, p)),
        MessageModel::PdfDone(r) => pdf_done(d, m, r),
    }
}

/// A message that changes how pages are scanned.
pub open spec fn is_setting(msg: MessageModel) -> bool {
    ||| msg is SetPreset
    ||| msg is ToggleOcr
    ||| msg is ToggleContinuous
    ||| msg is ToggleLongReceipt
    ||| msg is FlipOcr
    ||| msg is FlipContinuous
    ||| msg is FlipLongReceipt
}

/// A message that asks for a file or tells of one.
pub open spec fn is_about_file(msg: MessageModel) -> bool {
    msg is SavePdf || msg is EmailPdf || msg is PdfDone || msg is EmailDone
}

/// A message that asks for a scan, or that moves on the feeding of sheets.
pub open spec fn is_about_feed(msg: MessageModel) -> bool {
    msg is Tick || msg is Scan || msg is ContinueFeed || msg is CancelFeed
}

/// The message that a key stands for; none where it stands for none.
pub open spec fn key_message(m: StateModel, key: Seq<char>) -> Option<MessageModel> {
    if key == "s"@ {
        Some(MessageModel::Scan)
    } else if key == "p"@ {
        Some(MessageModel::SavePdf)
    } else if key == "e"@ {
        Some(MessageModel::EmailPdf)
    } else if key == "o"@ {
        Some(MessageModel::FlipOcr)
    } else if key == "c"@ {
        Some(MessageModel::FlipContinuous)
    } else if key == "l"@ {
        Some(MessageModel::FlipLongReceipt)
    } else if key == "a"@ {
        Some(MessageModel::SetTransport(TransportPref::Auto))
    } else if key == "w"@ {
        Some(MessageModel::SetTransport(TransportPref::Wifi))
    } else if key == "u"@ {
        Some(MessageModel::SetTransport(TransportPref::Usb))
    } else if key == "1"@ {
        Some(MessageModel::SetPreset(ScanPreset::Web))
    } else if key == "2"@ {
        Some(MessageModel::SetPreset(ScanPreset::Email))
    } else if key == "3"@ {
        Some(MessageModel::SetPreset(ScanPreset::Document))
    } else if key == "4"@ {
        Some(MessageModel::SetPreset(ScanPreset::Photo))
    } else if key == "5"@ {
        Some(MessageModel::SetPreset(ScanPreset::Fine))
    } else if key == "enter"@ && m.prompt_continue {
        Some(MessageModel::ContinueFeed)
    } else if key == "enter"@ && !m.waiting_for_paper {
        Some(MessageModel::Scan)
    } else if key == "escape"@ {
        Some(MessageModel::CancelFeed)
    } else {
        None
    }
}

/// The message puts a scanner in use.
pub open spec fn connects(d: DashModel, m: StateModel, msg: MessageModel) -> bool {
    match msg {
        MessageModel::SelectScanner(k) => !occupied(d, m) && state::selects(m, k),
        MessageModel::SetTransport(p) => !occupied(d, m) && state::switches(m, p),
        _ => false,
    }
}

/// The choice of a scanner moves, and is taken.
pub open spec fn moves(d: DashModel, m: StateModel, dir: int) -> bool {
    !occupied(d, m) && state::cycles(m, dir)
}

/// The key puts a scanner in use.
pub open spec fn key_connects(d: DashModel, m: StateModel, key: Seq<char>) -> bool {
    if key == "["@ {
        moves(d, m, -1)
    } else if key == "]"@ {
        moves(d, m, 1)
    } else {
        match key_message(m, key) {
            Some(msg) => connects(d, m, msg),
            None => false,
        }
    }
}

/// The message, or the key that it tells of, puts a scanner in use.
pub open spec fn update_connects(d: DashModel, m: StateModel, msg: MessageModel) -> bool {
    match msg {
        MessageModel::KeyDown(k) => !d.pressed.contains(k) && key_connects(d, m, k),
        _ => connects(d, m, msg),
    }
}

/// What follows from a key.
pub open spec fn keyed(d: DashModel, m: StateModel, key: Seq<char>) -> Step {
    if key == "["@ {
        choice_moved(d, m, -1)
    } else if key == "]"@ {
        choice_moved(d, m, 1)
    } else {
        match key_message(m, key) {
            Some(msg) => acted(d, m, msg),
            None => nothing(d, m),
        }
    }
}

/// What follows from a message. A key acts once until it is let go.
pub open spec fn updated(d: DashModel, m: StateModel, msg: MessageModel) -> Step {
    match msg {
        MessageModel::KeyDown(k) => if d.pressed.contains(k) {
            nothing(d, m)
        } else {
            keyed(DashModel { pressed: d.pressed.insert(k), ..d }, m, k)
        },
        MessageModel::KeyUp(k) => nothing(
            DashModel { pressed: d.pressed.remove(k), ..d },
            m,
        ),
        _ => acted(d, m, msg),
    }
}

/// The lengths of pages.
fn lens_of(pages: &Vec<Arc<Vec<u8>>>) -> (r: Vec<usize>)
    ensures
        r@ == lens(state::images_of(pages@)),
{
    let ghost all = lens(state::images_of(pages@));
    let mut out: Vec<usize> = Vec::new();
    let mut i: usize = 0;
    while i < pages.len()
        invariant
            i <= pages@.len(),
            all == lens(state::images_of(pages@)),
            out@ == all.take(i as int),
        decreases pages@.len() - i,
    {
        out.push(pages[i].len());
        assert(all[i as int] == pages@[i as int]@.len());
        i += 1;
        assert(out@ =~= all.take(i as int));
    }
    assert(all.take(i as int) =~= all);
    out
}

/// The lists are equal.
fn same_lens(a: &Vec<usize>, b: &Vec<usize>) -> (r: bool)
    ensures
        r == (a@ == b@),
{
    if a.len() != b.len() {
        return false;
    }
    let same = leads_to(a, b);
    assert(same ==> a@ =~= b@);
    same
}

/// `a` is the beginning of `b`.
fn leads_to(a: &Vec<usize>, b: &Vec<usize>) -> (r: bool)
    ensures
        r == leads(a@, b@),
{
    if a.len() > b.len() {
        return false;
    }
    let mut i: usize = 0;
    while i < a.len()
        invariant
            i <= a@.len() <= b@.len(),
            forall|j: int| 0 <= j < i ==> #[trigger] a@[j] == b@[j],
        decreases a@.len() - i,
    {
        if a[i] != b[i] {
            return false;
        }
        i += 1;
    }
    true
}

/// Handles on the pages from `from` on that hold anything.
fn non_empty_from(pages: &Vec<Arc<Vec<u8>>>, from: usize) -> (r: Vec<Arc<Vec<u8>>>)
    ensures
        state::images_of(r@) == (if from <= pages@.len() {
            pdf::present(state::images_of(pages@).skip(from as int))
        } else {
            Seq::empty()
        }),
{
    let mut out: Vec<Arc<Vec<u8>>> = Vec::new();
    assert(state::images_of(out@) =~= Seq::empty());
    if from > pages.len() {
        return out;
    }
    let ghost all = state::images_of(pages@).skip(from as int);
    let mut i: usize = from;
    proof {
        reveal(Seq::filter);
        assert(pdf::present(all.take(0)) =~= Seq::empty());
    }
    while i < pages.len()
        invariant
            from <= i <= pages@.len(),
            all == state::images_of(pages@).skip(from as int),
            state::images_of(out@) == pdf::present(all.take(i - from)),
        decreases pages@.len() - i,
    {
        proof {
            reveal(Seq::filter);
            assert(all.take(i - from + 1).drop_last() =~= all.take(i - from));
            assert(all.take(i - from + 1).last() == pages@[i as int]@);
        }
        if pages[i].len() > 0 {
            let ghost before = out@;
            out.push(images::share(&pages[i]));
            assert(state::images_of(out@) =~= state::images_of(before).push(pages@[i as int]@));
        }
        i += 1;
    }
    assert(all.take(i - from) =~= all);
    out
}

fn live_preview(image: &Option<Arc<Vec<u8>>>, len: usize) -> (r: (LivePreview, usize))
    ensures
        r.0@ == live_step(state::image_of(*image), len),
        r.1 == live_len(state::image_of(*image), len),
{
    match image {
        Some(b) => {
            if b.len() > 0 && b.len() != len {
                (LivePreview::Show(images::share(b)), b.len())
            } else {
                (LivePreview::Keep, len)
            }
        },
        None => (LivePreview::Clear, 0),
    }
}

/// Handles on all pages.
fn all_pages(pages: &Vec<Arc<Vec<u8>>>) -> (r: Vec<Arc<Vec<u8>>>)
    ensures
        state::images_of(r@) == state::images_of(pages@),
{
    let ghost all = state::images_of(pages@);
    let mut out: Vec<Arc<Vec<u8>>> = Vec::new();
    let mut i: usize = 0;
    assert(state::images_of(out@) =~= all.take(0));
    while i < pages.len()
        invariant
            i <= pages@.len(),
            all == state::images_of(pages@),
            state::images_of(out@) == all.take(i as int),
        decreases pages@.len() - i,
    {
        let ghost before = out@;
        out.push(images::share(&pages[i]));
        assert(state::images_of(out@) =~= state::images_of(before).push(all[i as int]));
        i += 1;
        assert(all.take(i as int) =~= all.take(i - 1).push(all[i - 1]));
    }
    assert(all.take(i as int) =~= all);
    out
}

fn add_side(pages: &mut Vec<Arc<Vec<u8>>>, image: &Option<Arc<Vec<u8>>>)
    ensures
        state::images_of(final(pages)@) == state::images_of(old(pages)@) + (match *image {
            Some(b) => if b@.len() > 0 {
                seq![b@]
            } else {
                Seq::empty()
            },
            None => Seq::empty(),
        }),
{
    let ghost before = state::images_of(pages@);
    if let Some(b) = image {
        if b.len() > 0 {
            pages.push(images::share(b));
            assert(state::images_of(pages@) =~= before + seq![b@]);
        }
    }
    assert(before + Seq::<Seq<u8>>::empty() =~= before);
}

impl Dashboard {
    /// The dashboard as it opens.
    pub fn new() -> (r: Dashboard)
        ensures
            r@ == opened(),
            in_step(r@),
    {
        let r = Dashboard {
            page_lens: Vec::new(),
            handles: 0,
            live_front_len: 0,
            live_back_len: 0,
            saving: false,
            email_after: false,
            pdf_dpi: 300,
            spin_phase: 0,
            pressed: Vec::new(),
        };
        assert(r@.pressed =~= Set::empty());
        assert(r@ =~= opened());
        r
    }

    /// Nothing new can begin.
    pub fn is_busy(&self, state: &AppState) -> (r: bool)
        ensures
            r == occupied(self@, state@),
    {
        self.saving || state.busy_scan()
    }

    /// The pages of the document, or those of the last scan where the document has none, and their
    /// resolution.
    pub fn collect_pages(state: &AppState) -> (r: (Vec<Arc<Vec<u8>>>, u16))
        ensures
            state::images_of(r.0@) == collected(state@),
            r.1 == collected_dpi(state@),
    {
        let pages = if state.pages.len() > 0 {
            all_pages(&state.pages)
        } else {
            let mut sides: Vec<Arc<Vec<u8>>> = Vec::new();
            assert(state::images_of(sides@) =~= Seq::empty());
            add_side(&mut sides, &state.front_image);
            add_side(&mut sides, &state.back_image);
            assert(state::images_of(sides@) =~= collected(state@));
            sides
        };
        let dpi: u16 = if state.pages_dpi > 0 {
            state.pages_dpi
        } else {
            state.scan_preset.dpi()
        };
        (pages, dpi)
    }

    /// Brings the previews up to date.
    pub fn sync_previews(&mut self, state: &AppState) -> (r: PreviewPlan)
        requires
            in_step(old(self)@),
        ensures
            final(self)@ == synced(old(self)@, state@),
            r@ == preview_plan(old(self)@, state@),
            in_step(final(self)@),
    {
        let ghost d = self@;
        let ghost m = state@;
        let new_lens = lens_of(&state.pages);
        let mut clear = false;
        let mut add: Vec<Arc<Vec<u8>>> = Vec::new();
        assert(state::images_of(add@) =~= Seq::empty());
        if !same_lens(&new_lens, &self.page_lens) {
            clear = !leads_to(&self.page_lens, &new_lens);
            let from: usize = if clear {
                0
            } else {
                self.handles
            };
            add = non_empty_from(&state.pages, from);
            proof {
                pdf::lemma_present_len(m.pages.skip(from as int));
            }
            let pages: usize = state.pages.len();
            assert(from + add@.len() <= pages);
            self.handles = from + add.len();
        }
        self.page_lens = new_lens;
        let (front, front_len) = live_preview(&state.front_image, self.live_front_len);
        let (back, back_len) = live_preview(&state.back_image, self.live_back_len);
        self.live_front_len = front_len;
        self.live_back_len = back_len;
        PreviewPlan { clear, add, front, back }
    }

    /// A moment passes.
    fn tick(&mut self, state: &mut AppState) -> (r: Effect)
        requires
            in_step(old(self)@),
        ensures
            ticked(old(self)@, old(state)@) == (Step {
                d: final(self)@,
                m: final(state)@,
                e: r@,
            }),
            in_step(final(self)@),
            final(state).last_seen == old(state).last_seen,
    {
        self.spin_phase =
        if self.spin_phase == 255 {
            0
        } else {
            self.spin_phase + 1
        };
        let plan = self.sync_previews(state);
        let mut ready = false;
        if let Some(s) = &state.status {
            ready = s.paper_ready();
        }
        let kick = state.waiting_for_paper && ready && state.connection
            == ConnectionState::Connected;
        if kick {
            state.waiting_for_paper = false;
            state.scan_append = true;
            state.status_line = "Paper detected. Scanning…".to_owned();
        }
        Effect::Refresh(plan, kick)
    }

    /// A PDF file is asked for, at a path that the user picks or at the usual one.
    pub fn save_pdf(&mut self, state: &mut AppState, pick: bool) -> (r: Effect)
        ensures
            save_asked(old(self)@, old(state)@, pick) == (Step {
                d: final(self)@,
                m: final(state)@,
                e: r@,
            }),
            final(state).last_seen == old(state).last_seen,
    {
        if self.saving {
            return Effect::Nothing;
        }
        let (pages, dpi) = Dashboard::collect_pages(state);
        if pages.len() == 0 {
            state.session.last_error = Some("Scan a page before saving a PDF.".to_owned());
            return Effect::Nothing;
        }
        self.saving = true;
        self.pdf_dpi = dpi;
        state.status_line = "Saving PDF…".to_owned();
        Effect::SavePdf(pages, dpi, pick)
    }

    /// An email is asked for.
    pub fn email_pdf(&mut self, state: &mut AppState) -> (r: Effect)
        ensures
            email_asked(old(self)@, old(state)@) == (Step {
                d: final(self)@,
                m: final(state)@,
                e: r@,
            }),
            final(state).last_seen == old(state).last_seen,
    {
        if self.saving {
            return Effect::Nothing;
        }
        let (pages, dpi) = Dashboard::collect_pages(state);
        if pages.len() == 0 {
            state.session.last_error = Some("Scan a page before emailing a PDF.".to_owned());
            return Effect::Nothing;
        }
        self.saving = true;
        self.email_after = true;
        self.pdf_dpi = dpi;
        state.status_line = "Preparing a PDF under 5 MB…".to_owned();
        Effect::EmailPdf(pages, dpi)
    }

    fn continue_feed(&self, state: &mut AppState) -> (r: Effect)
        ensures
            feed_continued(self@, old(state)@) == (Step {
                d: self@,
                m: final(state)@,
                e: r@,
            }),
            final(state).last_seen == old(state).last_seen,
    {
        if !state.prompt_continue {
            return Effect::Nothing;
        }
        let mut ready = false;
        if let Some(s) = &state.status {
            ready = s.paper_ready();
        }
        state.prompt_continue = false;
        state.scan_append = true;
        state.waiting_for_paper = !ready;
        state.status_line = "Load the next page…".to_owned();
        if ready {
            Effect::Scan
        } else {
            Effect::Nothing
        }
    }

    fn cancel_feed(state: &mut AppState)
        ensures
            final(state)@ == feed_cancelled(old(state)@),
            final(state).last_seen == old(state).last_seen,
    {
        state.prompt_continue = false;
        state.waiting_for_paper = false;
        state.scan_append = false;
        let n: usize = state.pages.len();
        state.status_line =
        if n == 0 {
            "Scan cancelled.".to_owned()
        } else {
            let mut s = "Document ready (".to_owned();
            s.append(number::decimal_text(n as u128).as_str());
            s.append(" pages).");
            s
        };
    }

    fn finish_pdf(&mut self, state: &mut AppState, result: Result<SavedFile, String>) -> (r: Effect)
        ensures
            pdf_done(
                old(self)@,
                old(state)@,
                match result {
                    Ok(f) => Ok((f.shown@, f.size)),
                    Err(e) => Err(e@),
                },
            ) == (Step { d: final(self)@, m: final(state)@, e: r@ }),
            final(state).last_seen == old(state).last_seen,
    {
        self.saving = false;
        let email = self.email_after;
        self.email_after = false;
        match result {
            Ok(file) => {
                state.session.last_error = None;
                if email {
                    let mut s = "Opening mail with a ".to_owned();
                    s.append(
                        number::megabytes_text(
                            match file.size {
                                Some(n) => n,
                                None => 0,
                            },
                        ).as_str(),
                    );
                    s.append(" MB PDF…");
                    state.status_line = s;
                    Effect::AttachEmail
                } else {
                    let mut s = "saved ".to_owned();
                    s.append(file.shown.as_str());
                    match file.size {
                        Some(n) => {
                            let mut size = " · ".to_owned();
                            size.append(number::format_bytes(n).as_str());
                            s.append(size.as_str());
                        },
                        None => {
                            assert(s@ + Seq::<char>::empty() =~= s@);
                        },
                    }
                    state.status_line = s;
                    state.last_pdf = Some(file.shown);
                    state.last_pdf_dpi = Some(self.pdf_dpi);
                    Effect::Nothing
                }
            },
            Err(e) => {
                state.session.last_error = Some(e);
                Effect::Nothing
            },
        }
    }

    fn finish_email(state: &mut AppState, result: Result<(), String>)
        ensures
            final(state)@ == email_done(
                old(state)@,
                match result {
                    Ok(()) => Ok(()),
                    Err(e) => Err(e@),
                },
            ),
            final(state).last_seen == old(state).last_seen,
    {
        match result {
            Ok(()) => {
                state.status_line = "Mail composer opened.".to_owned();
                state.session.last_error = None;
            },
            Err(e) => {
                state.session.last_error = Some(e);
            },
        }
    }

    fn ask_scan(&self, state: &mut AppState) -> (r: Effect)
        ensures
            acted(self@, old(state)@, MessageModel::Scan) == (Step {
                d: self@,
                m: final(state)@,
                e: r@,
            }),
            final(state).last_seen == old(state).last_seen,
    {
        if self.is_busy(state) {
            return Effect::Nothing;
        }
        state.scan_append = false;
        Effect::Scan
    }

    fn select(&self, state: &mut AppState, k: &str) -> (r: Effect)
        ensures
            choice_made(self@, old(state)@, k@) == (Step {
                d: self@,
                m: final(state)@,
                e: r@,
            }),
            !connects(self@, old(state)@, MessageModel::SelectScanner(k@))
                ==> final(state).last_seen == old(state).last_seen,
    {
        if self.is_busy(state) {
            return Effect::Nothing;
        }
        match state.select_scanner(k) {
            Some(k) => Effect::Remember(k),
            None => Effect::Nothing,
        }
    }

    fn cycle(&self, state: &mut AppState, dir: i32) -> (r: Effect)
        ensures
            choice_moved(self@, old(state)@, dir as int) == (Step {
                d: self@,
                m: final(state)@,
                e: r@,
            }),
            !moves(self@, old(state)@, dir as int) ==> final(state).last_seen
                == old(state).last_seen,
    {
        if self.is_busy(state) {
            return Effect::Nothing;
        }
        match state.cycle_scanner(dir) {
            Some(k) => Effect::Remember(k),
            None => Effect::Nothing,
        }
    }

    fn put_preset(state: &mut AppState, p: ScanPreset)
        ensures
            final(state)@ == (StateModel { scan_preset: p, ..old(state)@ }),
            final(state).last_seen == old(state).last_seen,
    {
        state.scan_preset = p;
    }

    fn put_ocr(state: &mut AppState, b: bool)
        ensures
            final(state)@ == (StateModel { ocr_enabled: b, ..old(state)@ }),
            final(state).last_seen == old(state).last_seen,
    {
        state.ocr_enabled = b;
    }

    fn put_continuous(state: &mut AppState, b: bool)
        ensures
            final(state)@ == (StateModel { continuous: b, ..old(state)@ }),
            final(state).last_seen == old(state).last_seen,
    {
        state.continuous = b;
    }

    fn put_long_receipt(state: &mut AppState, b: bool)
        ensures
            final(state)@ == (StateModel { long_receipt: b, ..old(state)@ }),
            final(state).last_seen == old(state).last_seen,
    {
        state.long_receipt = b;
    }

    /// What follows from a change in how pages are scanned.
    fn set(&self, state: &mut AppState, message: &Message)
        requires
            is_setting(message@),
        ensures
            acted(self@, old(state)@, message@) == nothing(self@, final(state)@),
            final(state).last_seen == old(state).last_seen,
    {
        if self.is_busy(state) {
            return ;
        }
        match message {
            Message::SetPreset(p) => Dashboard::put_preset(state, *p),
            Message::ToggleOcr(b) => Dashboard::put_ocr(state, *b),
            Message::ToggleContinuous(b) => Dashboard::put_continuous(state, *b),
            Message::ToggleLongReceipt(b) => Dashboard::put_long_receipt(state, *b),
            Message::FlipOcr => {
                let b = !state.ocr_enabled;
                Dashboard::put_ocr(state, b)
            },
            Message::FlipContinuous => {
                let b = !state.continuous;
                Dashboard::put_continuous(state, b)
            },
            Message::FlipLongReceipt => {
                let b = !state.long_receipt;
                Dashboard::put_long_receipt(state, b)
            },
            _ => {},
        }
    }

    fn set_transport(&self, state: &mut AppState, p: TransportPref)
        ensures
            unless_busy(self@, old(state)@, state::with_transport(old(state)@, p)) == nothing(
                self@,
                final(state)@,
            ),
            !connects(self@, old(state)@, MessageModel::SetTransport(p)) ==> final(state).last_seen
                == old(state).last_seen,
    {
        if !self.is_busy(state) {
            state.apply_transport(p);
        }
    }

    /// What follows from a message that is about a file.
    fn file(&mut self, state: &mut AppState, message: Message) -> (r: Effect)
        requires
            in_step(old(self)@),
            is_about_file(message@),
        ensures
            acted(old(self)@, old(state)@, message@) == (Step {
                d: final(self)@,
                m: final(state)@,
                e: r@,
            }),
            in_step(final(self)@),
            final(state).last_seen == old(state).last_seen,
    {
        match message {
            Message::SavePdf => {
                self.email_after = false;
                self.save_pdf(state, true)
            },
            Message::EmailPdf => self.email_pdf(state),
            Message::PdfDone(result) => self.finish_pdf(state, result),
            Message::EmailDone(result) => {
                Dashboard::finish_email(state, result);
                Effect::Nothing
            },
            _ => Effect::Nothing,
        }
    }

    /// What follows from a message that is about the feeder.
    fn feed(&mut self, state: &mut AppState, message: Message) -> (r: Effect)
        requires
            in_step(old(self)@),
            is_about_feed(message@),
        ensures
            acted(old(self)@, old(state)@, message@) == (Step {
                d: final(self)@,
                m: final(state)@,
                e: r@,
            }),
            in_step(final(self)@),
            final(state).last_seen == old(state).last_seen,
    {
        match message {
            Message::Tick => self.tick(state),
            Message::Scan => self.ask_scan(state),
            Message::ContinueFeed => self.continue_feed(state),
            Message::CancelFeed => {
                Dashboard::cancel_feed(state);
                Effect::Nothing
            },
            _ => Effect::Nothing,
        }
    }

    /// What follows from a message that is no key.
    fn act(&mut self, state: &mut AppState, message: Message) -> (r: Effect)
        requires
            in_step(old(self)@),
        ensures
            acted(old(self)@, old(state)@, message@) == (Step {
                d: final(self)@,
                m: final(state)@,
                e: r@,
            }),
            in_step(final(self)@),
            !connects(old(self)@, old(state)@, message@) ==> final(state).last_seen
                == old(state).last_seen,
    {
        match message {
            Message::SelectScanner(k) => self.select(state, k.as_str()),
            Message::SetPreset(_)
            | Message::ToggleOcr(_)
            | Message::ToggleContinuous(_)
            | Message::ToggleLongReceipt(_)
            | Message::FlipOcr
            | Message::FlipContinuous
            | Message::FlipLongReceipt => {
                self.set(state, &message);
                Effect::Nothing
            },
            Message::SetTransport(p) => {
                self.set_transport(state, p);
                Effect::Nothing
            },
            Message::SavePdf
            | Message::EmailPdf
            | Message::PdfDone(_)
            | Message::EmailDone(_) => self.file(state, message),
            Message::Tick
            | Message::Scan
            | Message::ContinueFeed
            | Message::CancelFeed => self.feed(state, message),
            Message::KeyDown(_) | Message::KeyUp(_) => Effect::Nothing,
        }
    }
}

/// The view of an optional message.
pub open spec fn message_of(m: Option<Message>) -> Option<MessageModel> {
    match m {
        Some(m) => Some(m@),
        None => None,
    }
}

/// The message that a key stands for; none where it stands for none.
fn message_for(state: &AppState, key: &str) -> (r: Option<Message>)
    ensures
        message_of(r) == key_message(state@, key@),
{
    if text::same(key, "s") {
        Some(Message::Scan)
    } else if text::same(key, "p") {
        Some(Message::SavePdf)
    } else if text::same(key, "e") {
        Some(Message::EmailPdf)
    } else if text::same(key, "o") {
        Some(Message::FlipOcr)
    } else if text::same(key, "c") {
        Some(Message::FlipContinuous)
    } else if text::same(key, "l") {
        Some(Message::FlipLongReceipt)
    } else if text::same(key, "a") {
        Some(Message::SetTransport(TransportPref::Auto))
    } else if text::same(key, "w") {
        Some(Message::SetTransport(TransportPref::Wifi))
    } else if text::same(key, "u") {
        Some(Message::SetTransport(TransportPref::Usb))
    } else if text::same(key, "1") {
        Some(Message::SetPreset(ScanPreset::Web))
    } else if text::same(key, "2") {
        Some(Message::SetPreset(ScanPreset::Email))
    } else if text::same(key, "3") {
        Some(Message::SetPreset(ScanPreset::Document))
    } else if text::same(key, "4") {
        Some(Message::SetPreset(ScanPreset::Photo))
    } else if text::same(key, "5") {
        Some(Message::SetPreset(ScanPreset::Fine))
    } else if text::same(key, "enter") && state.prompt_continue {
        Some(Message::ContinueFeed)
    } else if text::same(key, "enter") && !state.waiting_for_paper {
        Some(Message::Scan)
    } else if text::same(key, "escape") {
        Some(Message::CancelFeed)
    } else {
        None
    }
}

proof fn lemma_pressed_push(v: Seq<String>, k: String)
    ensures
        text::texts_of(v.push(k)).to_set() == text::texts_of(v).to_set().insert(k@),
{
    text::lemma_texts_push(v, k);
    let a = text::texts_of(v);
    assert forall|x: Seq<char>| a.push(k@).to_set().contains(x) <==> a.to_set().insert(k@).contains(
        x,
    ) by {
        if a.push(k@).contains(x) {
            let i = choose|i: int| 0 <= i < a.push(k@).len() && a.push(k@)[i] == x;
            if i < a.len() {
                assert(a[i] == x);
            }
        }
        if a.contains(x) {
            let i = choose|i: int| 0 <= i < a.len() && a[i] == x;
            assert(a.push(k@)[i] == x);
        }
        assert(a.push(k@)[a.len() as int] == k@);
    }
    assert(a.push(k@).to_set() =~= a.to_set().insert(k@));
}

/// The key is among those that are held.
fn holds(pressed: &Vec<String>, k: &str) -> (r: bool)
    ensures
        r == text::texts_of(pressed@).to_set().contains(k@),
{
    let ghost all = text::texts_of(pressed@);
    let mut i: usize = 0;
    while i < pressed.len()
        invariant
            i <= pressed@.len(),
            all == text::texts_of(pressed@),
            forall|j: int| 0 <= j < i ==> #[trigger] all[j] != k@,
        decreases pressed@.len() - i,
    {
        assert(all[i as int] == pressed@[i as int]@);
        if text::same(pressed[i].as_str(), k) {
            assert(all.contains(k@));
            return true;
        }
        i += 1;
    }
    assert(!all.contains(k@));
    false
}

/// The keys that are held without `k`.
fn without(pressed: &Vec<String>, k: &str) -> (r: Vec<String>)
    ensures
        text::texts_of(r@).to_set() == text::texts_of(pressed@).to_set().remove(k@),
{
    let ghost all = text::texts_of(pressed@);
    let mut out: Vec<String> = Vec::new();
    let mut i: usize = 0;
    assert(text::texts_of(out@).to_set() =~= all.take(0).to_set().remove(k@));
    while i < pressed.len()
        invariant
            i <= pressed@.len(),
            all == text::texts_of(pressed@),
            text::texts_of(out@).to_set() == all.take(i as int).to_set().remove(k@),
        decreases pressed@.len() - i,
    {
        let key = pressed[i].clone();
        proof {
            assert(all[i as int] == key@);
            let next = all.take(i + 1);
            let here = all.take(i as int);
            assert(next =~= here.push(key@));
            assert(pressed@.take(i + 1) =~= pressed@.take(i as int).push(pressed@[i as int]));
            assert(here =~= text::texts_of(pressed@.take(i as int)));
            lemma_pressed_push(pressed@.take(i as int), key);
            text::lemma_texts_push(pressed@.take(i as int), key);
            lemma_pressed_push(out@, key);
        }
        if !text::same(key.as_str(), k) {
            out.push(key);
        }
        i += 1;
        assert(text::texts_of(out@).to_set() =~= all.take(i as int).to_set().remove(k@));
    }
    assert(all.take(i as int) =~= all);
    out
}

impl Dashboard {
    /// What follows from a key.
    pub fn on_key(&mut self, state: &mut AppState, key: &str) -> (r: Effect)
        requires
            in_step(old(self)@),
        ensures
            keyed(old(self)@, old(state)@, key@) == (Step {
                d: final(self)@,
                m: final(state)@,
                e: r@,
            }),
            in_step(final(self)@),
            !key_connects(old(self)@, old(state)@, key@) ==> final(state).last_seen
                == old(state).last_seen,
    {
        if text::same(key, "[") {
            return self.cycle(state, -1);
        }
        if text::same(key, "]") {
            return self.cycle(state, 1);
        }
        match message_for(state, key) {
            Some(message) => self.act(state, message),
            None => Effect::Nothing,
        }
    }

    /// What follows from a message. A key acts once until it is let go.
    #[verifier::rlimit(40)]
    pub fn update(&mut self, state: &mut AppState, message: Message) -> (r: Effect)
        requires
            in_step(old(self)@),
        ensures
            updated(old(self)@, old(state)@, message@) == (Step {
                d: final(self)@,
                m: final(state)@,
                e: r@,
            }),
            in_step(final(self)@),
            !update_connects(old(self)@, old(state)@, message@) ==> final(state).last_seen
                == old(state).last_seen,
    {
        match message {
            Message::KeyDown(key) => {
                if holds(&self.pressed, key.as_str()) {
                    return Effect::Nothing;
                }
                let copy = key.clone();
                proof {
                    lemma_pressed_push(self.pressed@, copy);
                }
                self.pressed.push(copy);
                self.on_key(state, key.as_str())
            },
            Message::KeyUp(key) => {
                self.pressed = without(&self.pressed, key.as_str());
                Effect::Nothing
            },
            _ => self.act(state, message),
        }
    }
}

} // verus!
