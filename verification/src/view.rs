//! What the dashboard shows.

use vstd::prelude::*;

use crate::dashboard;
use crate::dashboard::{DashModel, MessageModel, SavedFile};
use crate::number;
use crate::pdf;
use crate::scanner;
use crate::scanner::{ScannerInfo, ScannerModel, Transport};
use crate::state;
use crate::state::{AppState, ConnectionState, StateModel};
use crate::status;
use crate::status::FeederKind;
use crate::text;

verus! {

/// The colour of a light.
#[derive(Debug, Clone, Copy, PartialEq, Eq, Structural)]
pub enum Tone {
    Green,
    Amber,
    Red,
    Muted,
}

/// A label with a light, where it has one.
#[derive(Debug)]
pub struct Chip {
    pub label: String,
    pub tone: Option<Tone>,
}

/// What a `Chip` says.
#[verifier::ext_equal]
pub struct ChipModel {
    pub label: Seq<char>,
    pub tone: Option<Tone>,
}

impl View for Chip {
    type V = ChipModel;

    open spec fn view(&self) -> ChipModel {
        ChipModel { label: self.label@, tone: self.tone }
    }
}

/// The views of a list of chips.
pub open spec fn chips_of(v: Seq<Chip>) -> Seq<ChipModel> {
    v.map_values(|c: Chip| c@)
}

/// The sum of the lengths of pages.
pub open spec fn sum_lens(pages: Seq<Seq<u8>>) -> nat
    decreases pages.len(),
{
    if pages.len() == 0 {
        0
    } else {
        sum_lens(pages.drop_last()) + pages.last().len()
    }
}

/// The bytes of an image that may be there.
pub open spec fn image_len(i: Option<Seq<u8>>) -> nat {
    match i {
        Some(b) => b.len(),
        None => 0,
    }
}

/// The bytes of the document, or of the last scan where the document has no page.
pub open spec fn scan_bytes(m: StateModel) -> nat {
    if m.pages.len() > 0 {
        sum_lens(m.pages)
    } else {
        image_len(m.front_image) + image_len(m.back_image)
    }
}

proof fn lemma_sum_grows(pages: Seq<Seq<u8>>, i: int)
    requires
        0 <= i <= pages.len(),
    ensures
        sum_lens(pages.take(i)) <= sum_lens(pages),
    decreases pages.len() - i,
{
    if i < pages.len() {
        assert(pages.take(i + 1).drop_last() =~= pages.take(i));
        lemma_sum_grows(pages, i + 1);
    } else {
        assert(pages.take(i) =~= pages);
    }
}

/// The bytes of the document, or of the last scan where the document has no page.
pub fn scan_jpeg_bytes(state: &AppState) -> (r: usize)
    requires
        scan_bytes(state@) <= usize::MAX,
    ensures
        r == scan_bytes(state@),
{
    if state.pages.len() > 0 {
        let ghost all = state@.pages;
        let mut sum: usize = 0;
        let mut i: usize = 0;
        assert(all.take(0) =~= Seq::empty());
        while i < state.pages.len()
            invariant
                i <= state.pages@.len(),
                all == state::images_of(state.pages@),
                sum == sum_lens(all.take(i as int)),
                sum_lens(all) <= usize::MAX,
            decreases state.pages@.len() - i,
        {
            proof {
                assert(all.take(i + 1).drop_last() =~= all.take(i as int));
                assert(all.take(i + 1).last() == state.pages@[i as int]@);
                lemma_sum_grows(all, i + 1);
            }
            sum = sum + state.pages[i].len();
            i += 1;
        }
        assert(all.take(i as int) =~= all);
        return sum;
    }
    let front: usize = match &state.front_image {
        Some(b) => b.len(),
        None => 0,
    };
    let back: usize = match &state.back_image {
        Some(b) => b.len(),
        None => 0,
    };
    front + back
}

/// The pages that a sheet adds.
pub open spec fn pending(m: StateModel) -> nat {
    if m.long_receipt {
        1
    } else {
        2
    }
}

/// A sheet is being scanned.
pub open spec fn capturing(m: StateModel) -> bool {
    m.connection == ConnectionState::Scanning
}

/// The sheets of the document, with the one that is being scanned.
pub open spec fn shown_sheets(m: StateModel) -> nat {
    m.sheets as nat + if capturing(m) {
        1nat
    } else {
        0
    }
}

/// The pages of the document, with those that are being scanned.
pub open spec fn shown_pages(m: StateModel) -> nat {
    m.pages.len() + if capturing(m) {
        pending(m)
    } else {
        0
    }
}

/// The name and the light of the connection.
pub open spec fn connection_chip(m: StateModel) -> ChipModel {
    let (name, tone) = match m.connection {
        ConnectionState::Connected => ("CONNECTED"@, Tone::Green),
        ConnectionState::Scanning => ("CONNECTED"@, Tone::Green),
        ConnectionState::RunningOcr => ("CONNECTED"@, Tone::Green),
        ConnectionState::Degraded => ("DEGRADED"@, Tone::Red),
        ConnectionState::AwaitingConnection => ("LOOKING"@, Tone::Amber),
    };
    let via = match m.scanner {
        Some(s) => scanner::transport_name(s.via),
        None => "—"@,
    };
    ChipModel { label: name + "  "@ + via, tone: Some(tone) }
}

/// The state of the feeder as it is shown: while a sheet is scanned it is pulled through.
pub open spec fn shown_feeder(m: StateModel) -> FeederKind {
    if capturing(m) {
        FeederKind::Pulling
    } else {
        match m.status {
            Some(s) => status::feeder(s),
            None => FeederKind::Empty,
        }
    }
}

/// The name and the light of the feeder.
pub open spec fn feeder_chip(m: StateModel) -> ChipModel {
    let kind = shown_feeder(m);
    ChipModel {
        label: text::upper(status::feeder_name(kind)),
        tone: Some(
            match kind {
                FeederKind::Loaded => Tone::Green,
                FeederKind::Pulling => Tone::Amber,
                FeederKind::Jam => Tone::Red,
                FeederKind::Mispick => Tone::Red,
                FeederKind::Empty => Tone::Muted,
                FeederKind::Unknown => Tone::Muted,
            },
        ),
    }
}

/// The settings of the next scan.
pub open spec fn recipe_chip(m: StateModel) -> ChipModel {
    let dpi = number::decimal(state::preset_dpi(m.scan_preset) as nat);
    ChipModel {
        label: if m.long_receipt {
            "RECEIPT  1-SIDE  "@ + dpi + "DPI"@
        } else {
            "DUPLEX  COLOR  "@ + dpi + "DPI"@
        },
        tone: None,
    }
}

/// The size of the document.
pub open spec fn document_chips(m: StateModel) -> Seq<ChipModel> {
    if shown_pages(m) == 0 {
        Seq::empty()
    } else {
        let size = number::bytes_shown(scan_bytes(m));
        let count = "SHEET "@ + number::decimal(shown_sheets(m)) + "  "@ + number::decimal(
            shown_pages(m),
        ) + "P"@;
        seq![
            ChipModel {
                label: if size == "—"@ {
                    count
                } else {
                    count + "  "@ + size
                },
                tone: None,
            },
        ]
    }
}

/// How far the sides of the sheet are that is being scanned.
pub open spec fn side_chips(m: StateModel) -> Seq<ChipModel> {
    if !capturing(m) {
        Seq::empty()
    } else if m.long_receipt {
        seq![ChipModel { label: "RECEIPT"@, tone: Some(Tone::Amber) }]
    } else {
        seq![
            ChipModel {
                label: "FRONT"@,
                tone: Some(
                    if m.progress.front_done {
                        Tone::Green
                    } else {
                        Tone::Amber
                    },
                ),
            },
            ChipModel {
                label: "BACK"@,
                tone: Some(
                    if m.progress.back_done {
                        Tone::Green
                    } else if m.progress.front_done || m.progress.current_side >= 2 {
                        Tone::Amber
                    } else {
                        Tone::Muted
                    },
                ),
            },
        ]
    }
}

/// The battery charge.
pub open spec fn battery_chips(m: StateModel) -> Seq<ChipModel> {
    match m.status {
        Some(s) => match s.battery_percent {
            Some(p) => seq![
                ChipModel { label: "BAT "@ + number::decimal(p as nat) + "%"@, tone: None },
            ],
            None => Seq::empty(),
        },
        None => Seq::empty(),
    }
}

/// The chips of the header, in order.
pub open spec fn header_chips(m: StateModel) -> Seq<ChipModel> {
    seq![connection_chip(m), feeder_chip(m), recipe_chip(m)] + document_chips(m) + side_chips(m)
        + battery_chips(m)
}

/// The line that names the scanner in use.
pub open spec fn prompt_line(s: Option<ScannerModel>) -> Seq<char> {
    match s {
        Some(s) => match s.via {
            Transport::Usb => "▸  "@ + s.name + "  ·  USB"@,
            Transport::Wifi => "▸  "@ + s.name + "  ·  Wi-Fi  "@ + scanner::addr_text(s.ip),
        },
        None => "▸  no scanner"@,
    }
}

/// The fault that the scanner in use tells.
pub open spec fn shown_fault(m: StateModel) -> Option<Seq<char>> {
    match m.status {
        Some(s) => status::fault(s),
        None => None,
    }
}

/// The header of the dashboard.
#[derive(Debug)]
pub struct HeaderView {
    pub prompt: String,
    pub status_line: String,
    pub fault: Option<String>,
    pub chips: Vec<Chip>,
}

fn connection_label(state: &AppState) -> (r: Chip)
    ensures
        r@ == connection_chip(state@),
{
    let (name, tone) = match state.connection {
        ConnectionState::Connected | ConnectionState::Scanning | ConnectionState::RunningOcr => (
            "CONNECTED",
            Tone::Green,
        ),
        ConnectionState::Degraded => ("DEGRADED", Tone::Red),
        ConnectionState::AwaitingConnection => ("LOOKING", Tone::Amber),
    };
    let mut label = name.to_owned();
    label.append("  ");
    match &state.scanner {
        Some(s) => {
            label.append(s.via.label());
        },
        None => {
            label.append("—");
        },
    }
    Chip { label, tone: Some(tone) }
}

fn feeder_label(state: &AppState) -> (r: Chip)
    ensures
        r@ == feeder_chip(state@),
{
    let kind = if state.connection == ConnectionState::Scanning {
        FeederKind::Pulling
    } else {
        match &state.status {
            Some(s) => s.feeder_kind(),
            None => FeederKind::Empty,
        }
    };
    let tone = match kind {
        FeederKind::Loaded => Tone::Green,
        FeederKind::Pulling => Tone::Amber,
        FeederKind::Jam | FeederKind::Mispick => Tone::Red,
        FeederKind::Empty | FeederKind::Unknown => Tone::Muted,
    };
    Chip { label: text::to_upper(kind.label()), tone: Some(tone) }
}

fn recipe_label(state: &AppState) -> (r: Chip)
    ensures
        r@ == recipe_chip(state@),
{
    let mut label = if state.long_receipt {
        "RECEIPT  1-SIDE  ".to_owned()
    } else {
        "DUPLEX  COLOR  ".to_owned()
    };
    label.append(number::decimal_text(state.scan_preset.dpi() as u128).as_str());
    label.append("DPI");
    Chip { label, tone: None }
}

fn add_chip(chips: &mut Vec<Chip>, chip: Chip)
    ensures
        chips_of(final(chips)@) == chips_of(old(chips)@) + seq![chip@],
{
    let ghost before = chips@;
    chips.push(chip);
    assert(chips_of(chips@) =~= chips_of(before) + seq![chip@]);
}

fn add_document(chips: &mut Vec<Chip>, state: &AppState)
    requires
        scan_bytes(state@) <= usize::MAX,
    ensures
        chips_of(final(chips)@) == chips_of(old(chips)@) + document_chips(state@),
{
    let busy = state.connection == ConnectionState::Scanning;
    let pending: u128 = if !busy {
        0
    } else if state.long_receipt {
        1
    } else {
        2
    };
    let pages: u128 = state.pages.len() as u128 + pending;
    if pages > 0 {
        let sheets: u128 = state.sheets as u128 + if busy {
            1u128
        } else {
            0
        };
        let mut label = "SHEET ".to_owned();
        label.append(number::decimal_text(sheets).as_str());
        label.append("  ");
        label.append(number::decimal_text(pages).as_str());
        label.append("P");
        let size = number::format_bytes(scan_jpeg_bytes(state) as u64);
        if !text::same(size.as_str(), "—") {
            label.append("  ");
            label.append(size.as_str());
        }
        add_chip(chips, Chip { label, tone: None });
    }
    assert(chips_of(old(chips)@) + Seq::<ChipModel>::empty() =~= chips_of(old(chips)@));
}

fn add_sides(chips: &mut Vec<Chip>, state: &AppState)
    ensures
        chips_of(final(chips)@) == chips_of(old(chips)@) + side_chips(state@),
{
    let ghost before = chips_of(chips@);
    if state.connection == ConnectionState::Scanning {
        if state.long_receipt {
            add_chip(chips, Chip { label: "RECEIPT".to_owned(), tone: Some(Tone::Amber) });
        } else {
            let front = if state.progress.front_done {
                Tone::Green
            } else {
                Tone::Amber
            };
            let back = if state.progress.back_done {
                Tone::Green
            } else if state.progress.front_done || state.progress.current_side >= 2 {
                Tone::Amber
            } else {
                Tone::Muted
            };
            add_chip(chips, Chip { label: "FRONT".to_owned(), tone: Some(front) });
            add_chip(chips, Chip { label: "BACK".to_owned(), tone: Some(back) });
        }
    }
    assert(chips_of(chips@) =~= before + side_chips(state@));
}

fn add_battery(chips: &mut Vec<Chip>, state: &AppState)
    ensures
        chips_of(final(chips)@) == chips_of(old(chips)@) + battery_chips(state@),
{
    let ghost before = chips_of(chips@);
    if let Some(s) = &state.status {
        if let Some(p) = s.battery_percent {
            let mut label = "BAT ".to_owned();
            label.append(number::decimal_text(p as u128).as_str());
            label.append("%");
            add_chip(chips, Chip { label, tone: None });
        }
    }
    assert(before + Seq::<ChipModel>::empty() =~= before);
}

fn prompt(state: &AppState) -> (r: String)
    ensures
        r@ == prompt_line(state@.scanner),
{
    match &state.scanner {
        Some(s) => {
            let mut line = "▸  ".to_owned();
            line.append(s.name.as_str());
            match s.via {
                Transport::Usb => {
                    line.append("  ·  USB");
                },
                Transport::Wifi => {
                    line.append("  ·  Wi-Fi  ");
                    line.append(s.ip.to_text().as_str());
                },
            }
            line
        },
        None => "▸  no scanner".to_owned(),
    }
}

/// The header of the dashboard.
pub fn header_bar(state: &AppState) -> (r: HeaderView)
    requires
        scan_bytes(state@) <= usize::MAX,
        capturing(state@) ==> state@.sheets < u32::MAX,
    ensures
        r.prompt@ == prompt_line(state@.scanner),
        r.status_line@ == state@.status_line,
        text::text_of(r.fault) == shown_fault(state@),
        chips_of(r.chips@) == header_chips(state@),
{
    let mut chips: Vec<Chip> = Vec::new();
    assert(chips_of(chips@) =~= Seq::empty());
    add_chip(&mut chips, connection_label(state));
    add_chip(&mut chips, feeder_label(state));
    add_chip(&mut chips, recipe_label(state));
    let ghost m = state@;
    assert(chips_of(chips@) =~= seq![connection_chip(m), feeder_chip(m), recipe_chip(m)]);
    add_document(&mut chips, state);
    add_sides(&mut chips, state);
    add_battery(&mut chips, state);
    HeaderView {
        prompt: prompt(state),
        status_line: state.status_line.clone(),
        fault: match &state.status {
            Some(s) => s.fault_message(),
            None => None,
        },
        chips,
    }
}

/// A scanner that the user can choose.
#[derive(Debug)]
pub struct ScannerChoice {
    pub key: String,
    pub line: String,
}

/// What a `ScannerChoice` says.
#[verifier::ext_equal]
pub struct ChoiceModel {
    pub key: Seq<char>,
    pub line: Seq<char>,
}

impl View for ScannerChoice {
    type V = ChoiceModel;

    open spec fn view(&self) -> ChoiceModel {
        ChoiceModel { key: self.key@, line: self.line@ }
    }
}

/// The scanners that the user can choose.
pub open spec fn choices(m: StateModel) -> Seq<ChoiceModel> {
    state::visible(m).map_values(
        |s: ScannerModel| ChoiceModel { key: scanner::key(s), line: scanner::picker_text(s) },
    )
}

/// The place of the scanner in use among those that the user can choose.
pub open spec fn choice_in_use(m: StateModel) -> Option<int> {
    match m.scanner {
        Some(s) => state::place_of(state::visible(m), scanner::key(s)),
        None => None,
    }
}

/// The scanners that the user can choose.
pub fn scanner_choices(state: &AppState) -> (r: Vec<ScannerChoice>)
    ensures
        r@.map_values(|c: ScannerChoice| c@) == choices(state@),
{
    let list = state.visible_scanners();
    let ghost seen = list@.map_values(|s: &ScannerInfo| s@);
    let ghost all = choices(state@);
    let mut out: Vec<ScannerChoice> = Vec::new();
    let mut i: usize = 0;
    assert(out@.map_values(|c: ScannerChoice| c@) =~= all.take(0));
    while i < list.len()
        invariant
            i <= list@.len(),
            seen == list@.map_values(|s: &ScannerInfo| s@),
            seen == state::visible(state@),
            all == choices(state@),
            out@.map_values(|c: ScannerChoice| c@) == all.take(i as int),
        decreases list@.len() - i,
    {
        let ghost before = out@;
        let c = ScannerChoice { key: list[i].device_key(), line: list[i].picker_line() };
        out.push(c);
        proof {
            assert(seen[i as int] == list@[i as int]@);
            assert(all[i as int] == c@);
            assert(out@.map_values(|c: ScannerChoice| c@) =~= before.map_values(
                |c: ScannerChoice| c@,
            ).push(c@));
            assert(all.take(i + 1) =~= all.take(i as int).push(all[i as int]));
        }
        i += 1;
    }
    assert(all.take(i as int) =~= all);
    out
}

/// The place of the scanner in use among those that the user can choose.
pub fn selected_choice(state: &AppState) -> (r: Option<usize>)
    ensures
        match r {
            Some(i) => choice_in_use(state@) == Some(i as int),
            None => choice_in_use(state@) is None,
        },
{
    match &state.scanner {
        Some(s) => {
            let key = s.device_key();
            let list = state.visible_scanners();
            let ghost all = state::visible(state@);
            let mut found: Option<usize> = None;
            let mut i: usize = 0;
            assert(all.take(0) =~= Seq::empty());
            while i < list.len()
                invariant
                    i <= list@.len(),
                    all == list@.map_values(|s: &ScannerInfo| s@),
                    match found {
                        Some(p) => state::place_of(all.take(i as int), key@) == Some(p as int),
                        None => state::place_of(all.take(i as int), key@) is None,
                    },
                decreases list@.len() - i,
            {
                proof {
                    assert(all.take(i + 1).drop_last() =~= all.take(i as int));
                    assert(all.take(i + 1).last() == list@[i as int]@);
                }
                if found.is_none() && text::same(list[i].device_key().as_str(), key.as_str()) {
                    found = Some(i);
                }
                i += 1;
            }
            assert(all.take(i as int) =~= all);
            found
        },
        None => None,
    }
}

/// A scan runs, or its text is read.
pub open spec fn running(m: StateModel) -> bool {
    m.connection == ConnectionState::Scanning || m.connection == ConnectionState::RunningOcr
}

/// The scan button can be pressed.
pub open spec fn scan_offered(m: StateModel, saving: bool) -> bool {
    m.connection == ConnectionState::Connected && !saving && !state::busy(m)
}

/// The buttons for a file can be pressed.
pub open spec fn save_offered(m: StateModel, saving: bool) -> bool {
    m.pages.len() > 0 && !saving && !running(m)
}

/// The document goes out as it is.
pub open spec fn fits_email(m: StateModel) -> bool {
    scan_bytes(m) <= pdf::EMAIL_MAX_BYTES
}

/// The size of the document as it is shown.
pub open spec fn size_shown(m: StateModel) -> Seq<char> {
    number::bytes_shown(scan_bytes(m))
}

/// The label of the button that saves.
pub open spec fn save_text(m: StateModel, saving: bool) -> Seq<char> {
    if (saving || state::busy(m)) && !capturing(m) {
        "Working…"@
    } else if save_offered(m, saving) {
        "Save PDF  "@ + size_shown(m)
    } else {
        "Save PDF"@
    }
}

/// The label of the button that emails.
pub open spec fn email_text(m: StateModel, saving: bool) -> Seq<char> {
    if !save_offered(m, saving) {
        "Email PDF"@
    } else if fits_email(m) {
        "Email PDF  "@ + size_shown(m)
    } else {
        "Email PDF  under 5 MB"@
    }
}

/// What is said of an email before it is asked for.
pub open spec fn email_note(m: StateModel, saving: bool) -> Option<Seq<char>> {
    if !save_offered(m, saving) {
        None
    } else if fits_email(m) {
        Some(size_shown(m) + " — fits in email as-is."@)
    } else {
        Some(size_shown(m) + " full scan. Email copy will be under 5 MB."@)
    }
}

/// The controls of the dashboard.
#[derive(Debug)]
pub struct ControlView {
    pub can_scan: bool,
    pub can_save: bool,
    pub busy: bool,
    pub scan_label: &'static str,
    pub save_label: String,
    pub email_label: String,
    pub email_hint: Option<String>,
    pub size_label: String,
    pub error: String,
}

/// The controls of the dashboard, while a file is being written or not.
pub fn control_column(state: &AppState, saving: bool) -> (r: ControlView)
    requires
        scan_bytes(state@) <= usize::MAX,
    ensures
        r.can_scan == scan_offered(state@, saving),
        r.can_save == save_offered(state@, saving),
        r.busy == (saving || state::busy(state@)),
        r.scan_label@ == (if capturing(state@) {
            "Scanning…"@
        } else {
            "Scan"@
        }),
        r.save_label@ == save_text(state@, saving),
        r.email_label@ == email_text(state@, saving),
        text::text_of(r.email_hint) == email_note(state@, saving),
        r.size_label@ == size_shown(state@),
        r.error@ == (match state@.session.last_error {
            Some(e) => e,
            None => Seq::empty(),
        }),
{
    let bytes: usize = scan_jpeg_bytes(state);
    let size_label = number::format_bytes(bytes as u64);
    let scanning = state.connection == ConnectionState::Scanning;
    let busy = saving || state.busy_scan();
    let can_scan = state.connection == ConnectionState::Connected && !busy;
    let can_save = state.pages.len() > 0 && !saving && !scanning && state.connection
        != ConnectionState::RunningOcr;
    let save_label = if busy && !scanning {
        "Working…".to_owned()
    } else if can_save {
        text::joined("Save PDF  ", size_label.as_str())
    } else {
        "Save PDF".to_owned()
    };
    let email_label = if !can_save {
        "Email PDF".to_owned()
    } else if bytes <= pdf::EMAIL_MAX_BYTES {
        text::joined("Email PDF  ", size_label.as_str())
    } else {
        "Email PDF  under 5 MB".to_owned()
    };
    let email_hint = if !can_save {
        None
    } else if bytes <= pdf::EMAIL_MAX_BYTES {
        Some(text::joined(size_label.as_str(), " — fits in email as-is."))
    } else {
        Some(text::joined(size_label.as_str(), " full scan. Email copy will be under 5 MB."))
    };
    let error = match &state.session.last_error {
        Some(e) => e.clone(),
        None => {
            let none = String::new();
            assert(none@ =~= Seq::empty());
            none
        },
    };
    ControlView {
        can_scan,
        can_save,
        busy,
        scan_label: if scanning {
            "Scanning…"
        } else {
            "Scan"
        },
        save_label,
        email_label,
        email_hint,
        size_label,
        error,
    }
}

/// A button that can be pressed does what it says.
pub proof fn buttons_keep_their_word(d: DashModel, m: StateModel)
    ensures
        scan_offered(m, d.saving) ==> dashboard::acted(d, m, MessageModel::Scan).e is Scan,
        save_offered(m, d.saving) ==> dashboard::acted(d, m, MessageModel::SavePdf).e is SavePdf
            && dashboard::acted(d, m, MessageModel::EmailPdf).e is EmailPdf,
{
}

/// The line of the last file that was saved, by its name and its length.
pub open spec fn file_line(file: Option<(Seq<char>, Option<u64>)>) -> Seq<char> {
    match file {
        Some((name, Some(n))) => name + " · "@ + number::bytes_shown(n as nat),
        Some((name, None)) => name,
        None => "—"@,
    }
}

/// The line of the last file that was saved, by its name and its length.
pub fn last_pdf_line(file: &Option<SavedFile>) -> (r: String)
    ensures
        r@ == file_line(
            match *file {
                Some(f) => Some((f.shown@, f.size)),
                None => None,
            },
        ),
{
    match file {
        Some(f) => match f.size {
            Some(n) => {
                let mut s = text::joined(f.shown.as_str(), " · ");
                s.append(number::format_bytes(n).as_str());
                s
            },
            None => f.shown.clone(),
        },
        None => "—".to_owned(),
    }
}

/// What stands in a place of the preview.
#[derive(Debug, Clone, Copy, PartialEq, Eq, Structural)]
pub enum StageItem {
    /// The preview of a page of the document, counted from zero.
    Page(usize),
    LiveFront,
    LiveBack,
    /// A side that is still to come, with the phase of its sign.
    Spinner(u8),
}

/// The places of the sheet that is being scanned.
pub open spec fn live_items(
    has_front: bool,
    has_back: bool,
    spin: u8,
    long_receipt: bool,
) -> Seq<StageItem> {
    let front = if has_front {
        StageItem::LiveFront
    } else {
        StageItem::Spinner(spin)
    };
    let back = if has_back {
        StageItem::LiveBack
    } else {
        StageItem::Spinner(((spin + 1) % 256) as u8)
    };
    if long_receipt {
        seq![front]
    } else {
        seq![front, back]
    }
}

/// The places of the preview, in order; place `i` is captioned with the number `i + 1`.
pub open spec fn stage(
    handles: nat,
    has_front: bool,
    has_back: bool,
    capturing: bool,
    spin: u8,
    long_receipt: bool,
) -> Seq<StageItem> {
    Seq::new(handles, |i: int| StageItem::Page(i as usize)) + if capturing {
        live_items(has_front, has_back, spin, long_receipt)
    } else {
        Seq::empty()
    }
}

/// The places of the preview, in order.
pub fn scan_stage(
    handles: usize,
    has_front: bool,
    has_back: bool,
    capturing: bool,
    spin: u8,
    long_receipt: bool,
) -> (r: Vec<StageItem>)
    ensures
        r@ == stage(handles as nat, has_front, has_back, capturing, spin, long_receipt),
{
    let mut out: Vec<StageItem> = Vec::new();
    let mut i: usize = 0;
    let ghost pages = Seq::new(handles as nat, |i: int| StageItem::Page(i as usize));
    assert(out@ =~= pages.take(0));
    while i < handles
        invariant
            i <= handles,
            pages == Seq::new(handles as nat, |i: int| StageItem::Page(i as usize)),
            out@ == pages.take(i as int),
        decreases handles - i,
    {
        out.push(StageItem::Page(i));
        i += 1;
        assert(out@ =~= pages.take(i as int));
    }
    assert(pages.take(i as int) =~= pages);
    if capturing {
        let ghost before = out@;
        out.push(
            if has_front {
                StageItem::LiveFront
            } else {
                StageItem::Spinner(spin)
            },
        );
        if !long_receipt {
            let next: u8 = if spin == 255 {
                0
            } else {
                spin + 1
            };
            out.push(
                if has_back {
                    StageItem::LiveBack
                } else {
                    StageItem::Spinner(next)
                },
            );
        }
        assert(out@ =~= before + live_items(has_front, has_back, spin, long_receipt));
    } else {
        assert(out@ + Seq::<StageItem>::empty() =~= out@);
    }
    out
}

/// The caption of the place after `i` others.
pub fn page_caption(i: usize) -> (r: String)
    ensures
        r@ == "Page "@ + number::decimal(i as nat + 1),
{
    text::joined("Page ", number::decimal_text(i as u128 + 1).as_str())
}

/// The sign of a side that is still to come, by its phase.
pub open spec fn spinner_frame(spin: u8) -> Seq<char> {
    if spin % 4 == 0 {
        "◐"@
    } else if spin % 4 == 1 {
        "◓"@
    } else if spin % 4 == 2 {
        "◑"@
    } else {
        "◒"@
    }
}

/// The sign of a side that is still to come, by its phase.
pub fn page_spinner(spin: u8) -> (r: &'static str)
    ensures
        r@ == spinner_frame(spin),
{
    match spin % 4 {
        0 => "◐",
        1 => "◓",
        2 => "◑",
        _ => "◒",
    }
}

/// What is said over the preview of as many places.
pub open spec fn counter_line(places: nat, m: StateModel) -> Seq<char> {
    let shown = if places >= m.pages.len() {
        places
    } else {
        m.pages.len()
    };
    if shown == 0 {
        Seq::empty()
    } else {
        "Page 1 of "@ + number::decimal(shown) + "  ·  Sheet "@ + number::decimal(shown_sheets(m))
            + " · "@ + number::decimal(shown) + " pages"@
    }
}

/// What is said over the preview of as many places.
pub fn stage_counter(places: usize, state: &AppState) -> (r: String)
    requires
        capturing(state@) ==> state@.sheets < u32::MAX,
    ensures
        r@ == counter_line(places as nat, state@),
{
    let pages: usize = state.pages.len();
    let shown: usize = if places >= pages {
        places
    } else {
        pages
    };
    if shown == 0 {
        let none = String::new();
        assert(none@ =~= Seq::empty());
        return none;
    }
    let sheets: u128 = state.sheets as u128 + if state.connection == ConnectionState::Scanning {
        1u128
    } else {
        0
    };
    let mut s = text::joined("Page 1 of ", number::decimal_text(shown as u128).as_str());
    s.append("  ·  Sheet ");
    s.append(number::decimal_text(sheets).as_str());
    s.append(" · ");
    s.append(number::decimal_text(shown as u128).as_str());
    s.append(" pages");
    s
}

/// A question or a note that lies over the dashboard.
#[derive(Debug)]
pub struct Overlay {
    pub title: &'static str,
    pub body: String,
    pub show_continue: bool,
}

/// What an `Overlay` says.
#[verifier::ext_equal]
pub struct OverlayModel {
    pub title: Seq<char>,
    pub body: Seq<char>,
    pub show_continue: bool,
}

impl View for Overlay {
    type V = OverlayModel;

    open spec fn view(&self) -> OverlayModel {
        OverlayModel {
            title: self.title@,
            body: self.body@,
            show_continue: self.show_continue,
        }
    }
}

/// The beginning of what an overlay says of the document.
pub open spec fn document_so_far(m: StateModel) -> Seq<char> {
    "Sheet "@ + number::decimal(m.sheets as nat) + " · "@ + number::decimal(m.pages.len())
}

/// What lies over the dashboard.
pub open spec fn overlay(m: StateModel) -> Option<OverlayModel> {
    if m.prompt_continue {
        Some(
            OverlayModel {
                title: "Next sheet?"@,
                body: document_so_far(m)
                    + " pages in this document. Load the next sheet, then Continue. Cancel finishes the document."@,
                show_continue: true,
            },
        )
    } else if m.waiting_for_paper {
        Some(
            OverlayModel {
                title: "Waiting for paper…"@,
                body: document_so_far(m)
                    + " pages so far. Load the next sheet — scanning starts automatically. Cancel finishes the document."@,
                show_continue: false,
            },
        )
    } else {
        None
    }
}

/// What lies over the dashboard.
pub fn feed_overlay(state: &AppState) -> (r: Option<Overlay>)
    ensures
        match r {
            Some(o) => overlay(state@) == Some(o@),
            None => overlay(state@) is None,
        },
{
    if !state.prompt_continue && !state.waiting_for_paper {
        return None;
    }
    let mut body = text::joined("Sheet ", number::decimal_text(state.sheets as u128).as_str());
    body.append(" · ");
    body.append(number::decimal_text(state.pages.len() as u128).as_str());
    if state.prompt_continue {
        body.append(
            " pages in this document. Load the next sheet, then Continue. Cancel finishes the document.",
        );
        Some(Overlay { title: "Next sheet?", body, show_continue: true })
    } else {
        body.append(
            " pages so far. Load the next sheet — scanning starts automatically. Cancel finishes the document.",
        );
        Some(Overlay { title: "Waiting for paper…", body, show_continue: false })
    }
}

/// The bytes of a document are those of all its pages: of two parts put together, the sum.
pub proof fn bytes_add_up(a: Seq<Seq<u8>>, b: Seq<Seq<u8>>, page: Seq<u8>)
    ensures
        sum_lens(a + b) == sum_lens(a) + sum_lens(b),
        sum_lens(seq![page]) == page.len(),
        sum_lens(Seq::empty()) == 0,
    decreases b.len(),
{
    assert(seq![page].drop_last().len() == 0);
    assert(seq![page].last() == page);
    reveal_with_fuel(sum_lens, 2);
    if b.len() == 0 {
        assert(a + b =~= a);
    } else {
        bytes_add_up(a, b.drop_last(), page);
        assert((a + b).drop_last() =~= a + b.drop_last());
        assert((a + b).last() == b.last());
    }
}

/// The size that is shown is that of the document, or of the sides in view while there is none.
pub proof fn the_size_shown_is_that_of_the_pages(m: StateModel)
    ensures
        m.pages.len() > 0 ==> scan_bytes(m) == sum_lens(m.pages),
        m.pages.len() == 0 && m.front_image is None && m.back_image is None ==> scan_bytes(m) == 0,
        m.pages.len() == 0 ==> scan_bytes(m) == (match m.front_image {
            Some(b) => b.len(),
            None => 0,
        }) + (match m.back_image {
            Some(b) => b.len(),
            None => 0,
        }),
{
}

/// The header tells the connection, the feeder and the settings, in this order, and after them the
/// document, the sides that are scanned and the battery, as far as there is anything to tell.
pub proof fn the_header_tells_everything(m: StateModel)
    ensures
        ({
            let chips = header_chips(m);
            let doc: int = if m.pages.len() > 0 || m.connection == ConnectionState::Scanning {
                1
            } else {
                0
            };
            let sides: int = if m.connection != ConnectionState::Scanning {
                0
            } else if m.long_receipt {
                1
            } else {
                2
            };
            let battery: int = if m.status is Some && m.status->0.battery_percent is Some {
                1
            } else {
                0
            };
            &&& chips.len() == 3 + doc + sides + battery
            &&& chips[0] == connection_chip(m)
            &&& chips[1] == feeder_chip(m)
            &&& chips[2] == recipe_chip(m)
            &&& battery == 1 ==> chips.last().label == "BAT "@ + number::decimal(
                m.status->0.battery_percent->0 as nat,
            ) + "%"@
        }),
{
    let chips = header_chips(m);
    let three = seq![connection_chip(m), feeder_chip(m), recipe_chip(m)];
    assert(chips.len() == 3 + document_chips(m).len() + side_chips(m).len() + battery_chips(
        m,
    ).len());
    assert(chips[0] == three[0] && chips[1] == three[1] && chips[2] == three[2]);
    if battery_chips(m).len() > 0 {
        assert(chips.last() == battery_chips(m).last());
    }
}

/// The light of the connection is green while the scanner is there, red while it is in doubt and
/// amber while it is looked for, and tells how it is reached.
pub proof fn the_connection_is_shown(m: StateModel)
    ensures
        m.connection == ConnectionState::Degraded ==> connection_chip(m).tone == Some(Tone::Red),
        m.connection == ConnectionState::AwaitingConnection ==> connection_chip(m).tone == Some(
            Tone::Amber,
        ),
        m.connection != ConnectionState::Degraded && m.connection
            != ConnectionState::AwaitingConnection ==> connection_chip(m).tone == Some(Tone::Green)
            && text::begins(connection_chip(m).label, "CONNECTED  "@),
        m.scanner matches Some(s) ==> exists|word: Seq<char>|
            connection_chip(m).label == #[trigger] (word + "  "@ + scanner::transport_name(s.via)),
        m.connection == ConnectionState::Degraded ==> text::begins(
            connection_chip(m).label,
            "DEGRADED  "@,
        ),
        m.connection == ConnectionState::AwaitingConnection ==> text::begins(
            connection_chip(m).label,
            "LOOKING  "@,
        ),
{
    reveal_strlit("CONNECTED");
    reveal_strlit("DEGRADED");
    reveal_strlit("LOOKING");
    reveal_strlit("CONNECTED  ");
    reveal_strlit("DEGRADED  ");
    reveal_strlit("LOOKING  ");
    reveal_strlit("  ");
    let l = connection_chip(m).label;
    if m.connection == ConnectionState::Degraded {
        assert(l.subrange(0, 10) =~= "DEGRADED  "@);
    } else if m.connection == ConnectionState::AwaitingConnection {
        assert(l.subrange(0, 9) =~= "LOOKING  "@);
    } else {
        assert(l.subrange(0, 11) =~= "CONNECTED  "@);
    }
}

/// The light of the feeder shows a sheet green, motion amber and a fault red; while a sheet is
/// scanned it is in motion.
pub proof fn the_feeder_is_shown(m: StateModel)
    ensures
        m.connection == ConnectionState::Scanning ==> shown_feeder(m) == FeederKind::Pulling,
        m.connection != ConnectionState::Scanning ==> (m.status matches Some(s) ==> shown_feeder(m)
            == status::feeder(s)),
        m.connection != ConnectionState::Scanning && m.status is None ==> shown_feeder(m)
            == FeederKind::Empty,
        feeder_chip(m).label == text::upper(status::feeder_name(shown_feeder(m))),
        shown_feeder(m) == FeederKind::Loaded ==> feeder_chip(m).tone == Some(Tone::Green),
        shown_feeder(m) == FeederKind::Pulling ==> feeder_chip(m).tone == Some(Tone::Amber),
        shown_feeder(m) == FeederKind::Jam || shown_feeder(m) == FeederKind::Mispick
            ==> feeder_chip(m).tone == Some(Tone::Red),
        shown_feeder(m) == FeederKind::Empty || shown_feeder(m) == FeederKind::Unknown
            ==> feeder_chip(m).tone == Some(Tone::Muted),
{
}

/// The settings shown are those of the next scan.
pub proof fn the_settings_are_shown(m: StateModel)
    ensures
        m.long_receipt ==> recipe_chip(m).label == "RECEIPT  1-SIDE  "@ + number::decimal(
            state::preset_dpi(m.scan_preset) as nat,
        ) + "DPI"@,
        !m.long_receipt ==> recipe_chip(m).label == "DUPLEX  COLOR  "@ + number::decimal(
            state::preset_dpi(m.scan_preset) as nat,
        ) + "DPI"@,
{
}

/// While a sheet is scanned it is counted with its sides, though they are still to come.
pub proof fn pages_to_come_are_counted(m: StateModel)
    ensures
        m.connection != ConnectionState::Scanning ==> shown_pages(m) == m.pages.len()
            && shown_sheets(m) == m.sheets,
        m.connection == ConnectionState::Scanning ==> shown_sheets(m) == m.sheets + 1,
        m.connection == ConnectionState::Scanning && m.long_receipt ==> shown_pages(m)
            == m.pages.len() + 1,
        m.connection == ConnectionState::Scanning && !m.long_receipt ==> shown_pages(m)
            == m.pages.len() + 2,
        shown_pages(m) > 0 ==> document_chips(m).len() == 1 && text::begins(
            document_chips(m)[0].label,
            "SHEET "@ + number::decimal(shown_sheets(m)) + "  "@ + number::decimal(shown_pages(m))
                + "P"@,
        ),
{
    if shown_pages(m) > 0 {
        let count = "SHEET "@ + number::decimal(shown_sheets(m)) + "  "@ + number::decimal(
            shown_pages(m),
        ) + "P"@;
        let label = document_chips(m)[0].label;
        assert(label.subrange(0, count.len() as int) =~= count);
    }
}

/// The scanners to choose from are those shown, each under its own key and line, and the one in use
/// is marked among them.
pub proof fn scanners_shown_can_be_chosen(m: StateModel, i: int)
    requires
        0 <= i < state::visible(m).len(),
    ensures
        choices(m).len() == state::visible(m).len(),
        choices(m)[i].key == scanner::key(state::visible(m)[i]),
        choices(m)[i].line == scanner::picker_text(state::visible(m)[i]),
        m.scanner is None ==> choice_in_use(m) is None,
{
}

/// A scan is offered exactly while the scanner is connected and nothing else goes on, and a file
/// exactly while there is a page, none is written and none is scanned.
pub proof fn buttons_are_offered_when_they_work(m: StateModel, saving: bool)
    ensures
        scan_offered(m, saving) <==> m.connection == ConnectionState::Connected && !saving
            && !m.prompt_continue && !m.waiting_for_paper,
        save_offered(m, saving) <==> m.pages.len() > 0 && !saving && m.connection
            != ConnectionState::Scanning && m.connection != ConnectionState::RunningOcr,
        fits_email(m) <==> scan_bytes(m) <= 5 * 1024 * 1024,
        size_shown(m) == number::bytes_shown(scan_bytes(m)),
        save_offered(m, saving) && fits_email(m) ==> email_text(m, saving) == "Email PDF  "@
            + size_shown(m),
        save_offered(m, saving) && !fits_email(m) ==> email_text(m, saving)
            == "Email PDF  under 5 MB"@,
        save_offered(m, saving) && !state::busy(m) ==> save_text(m, saving) == "Save PDF  "@
            + size_shown(m),
        !save_offered(m, saving) ==> email_note(m, saving) is None && email_text(m, saving)
            == "Email PDF"@,
{
}

/// The stage shows every page of the document in order, and while a sheet is scanned one more place
/// for a receipt or two for a sheet, each with its image once that has come.
pub proof fn the_stage_shows_every_page(
    handles: nat,
    has_front: bool,
    has_back: bool,
    capturing: bool,
    spin: u8,
    long_receipt: bool,
    i: int,
)
    requires
        handles <= usize::MAX,
    ensures
        ({
            let all = stage(handles, has_front, has_back, capturing, spin, long_receipt);
            let more: int = if !capturing {
                0
            } else if long_receipt {
                1
            } else {
                2
            };
            &&& all.len() == handles + more
            &&& 0 <= i < handles ==> all[i] == StageItem::Page(i as usize)
            &&& capturing && has_front ==> all[handles as int] is LiveFront
            &&& capturing && !has_front ==> all[handles as int] == StageItem::Spinner(spin)
            &&& capturing && !long_receipt && has_back ==> all[handles as int + 1] is LiveBack
            &&& capturing && !long_receipt && !has_back ==> all[handles as int + 1] is Spinner
        }),
{
}

/// The counter tells how many pages the document has, or how many places are shown where those are
/// more.
pub proof fn the_counter_tells_the_pages(places: nat, m: StateModel)
    ensures
        places == 0 && m.pages.len() == 0 ==> counter_line(places, m).len() == 0,
        places >= m.pages.len() && places > 0 ==> text::begins(
            counter_line(places, m),
            "Page 1 of "@ + number::decimal(places),
        ),
        m.pages.len() > places ==> text::begins(
            counter_line(places, m),
            "Page 1 of "@ + number::decimal(m.pages.len()),
        ),
{
    let shown = if places >= m.pages.len() {
        places
    } else {
        m.pages.len()
    };
    if shown > 0 {
        let head = "Page 1 of "@ + number::decimal(shown);
        assert(counter_line(places, m).subrange(0, head.len() as int) =~= head);
    }
}

/// The user is asked for the next sheet, or told that it is waited for, exactly while that is so,
/// and can go on only where they are asked.
pub proof fn the_next_sheet_is_asked_for(m: StateModel)
    ensures
        overlay(m) is Some <==> m.prompt_continue || m.waiting_for_paper,
        overlay(m) matches Some(o) ==> (o.show_continue <==> m.prompt_continue) && text::begins(
            o.body,
            "Sheet "@ + number::decimal(m.sheets as nat) + " · "@ + number::decimal(m.pages.len()),
        ),
{
    if overlay(m) is Some {
        let head = "Sheet "@ + number::decimal(m.sheets as nat) + " · "@ + number::decimal(
            m.pages.len(),
        );
        assert(overlay(m)->0.body.subrange(0, head.len() as int) =~= head);
    }
}

/// The sign of work has four phases, which come round.
pub proof fn the_sign_of_work_turns(spin: u8)
    ensures
        spin <= 251 ==> spinner_frame((spin + 4) as u8) == spinner_frame(spin),
        spin <= 254 ==> spinner_frame((spin + 1) as u8) != spinner_frame(spin),
{
    reveal_strlit("◐");
    reveal_strlit("◓");
    reveal_strlit("◑");
    reveal_strlit("◒");
    assert("◐"@[0] == '◐' && "◓"@[0] == '◓' && "◑"@[0] == '◑' && "◒"@[0]
        == '◒');
}

/// The scanner in use is named, and how it is reached.
pub proof fn the_scanner_in_use_is_named(s: ScannerModel)
    ensures
        s.via == Transport::Usb ==> prompt_line(Some(s)) == "▸  "@ + s.name + "  ·  USB"@,
        s.via == Transport::Wifi ==> prompt_line(Some(s)) == "▸  "@ + s.name + "  ·  Wi-Fi  "@
            + scanner::addr_text(s.ip),
        prompt_line(None) == "▸  no scanner"@,
{
}

/// The document's chip tells its size as well, once it has one.
pub proof fn the_size_of_the_document_is_shown(m: StateModel)
    requires
        shown_pages(m) > 0,
    ensures
        ({
            let size = number::bytes_shown(scan_bytes(m));
            let label = document_chips(m)[0].label;
            let count = "SHEET "@ + number::decimal(shown_sheets(m)) + "  "@ + number::decimal(
                shown_pages(m),
            ) + "P"@;
            &&& document_chips(m)[0].tone is None
            &&& size != "—"@ ==> label == count + "  "@ + size
            &&& size == "—"@ ==> label == count
        }),
{
}

/// While a sheet is scanned each side has a light, green once it is done; the back waits for the
/// front.
pub proof fn every_side_has_a_light(m: StateModel)
    ensures
        m.connection != ConnectionState::Scanning ==> side_chips(m).len() == 0,
        m.connection == ConnectionState::Scanning && m.long_receipt ==> side_chips(m).len() == 1
            && side_chips(m)[0].label == "RECEIPT"@ && side_chips(m)[0].tone == Some(Tone::Amber),
        m.connection == ConnectionState::Scanning && !m.long_receipt ==> {
            let chips = side_chips(m);
            &&& chips.len() == 2
            &&& chips[0].label == "FRONT"@ && chips[1].label == "BACK"@
            &&& m.progress.front_done ==> chips[0].tone == Some(Tone::Green)
            &&& !m.progress.front_done ==> chips[0].tone == Some(Tone::Amber)
            &&& m.progress.back_done ==> chips[1].tone == Some(Tone::Green)
            &&& !m.progress.back_done && m.progress.front_done ==> chips[1].tone == Some(
                Tone::Amber,
            )
            &&& !m.progress.back_done && m.progress.current_side >= 2 ==> chips[1].tone == Some(
                Tone::Amber,
            )
            &&& !m.progress.back_done && !m.progress.front_done && m.progress.current_side < 2
                ==> chips[1].tone == Some(Tone::Muted)
        },
{
}

/// A saved file is told by its name and size, as far as they are known.
pub proof fn a_saved_file_is_shown(name: Seq<char>, n: u64)
    ensures
        file_line(Some((name, Some(n)))) == name + " · "@ + number::bytes_shown(n as nat),
        file_line(Some((name, None))) == name,
        file_line(None) == "—"@,
{
}

/// The note on the email tells whether the document fits as it is; the line under the pages counts
/// them and their sheets; the fault that is shown is the one that the scanner reports.
pub proof fn notes_tell_the_document(m: StateModel, places: nat)
    ensures
        save_offered(m, false) && fits_email(m) ==> email_note(m, false) == Some(
            size_shown(m) + " — fits in email as-is."@,
        ),
        save_offered(m, false) && !fits_email(m) ==> email_note(m, false) == Some(
            size_shown(m) + " full scan. Email copy will be under 5 MB."@,
        ),
        places >= m.pages.len() && places > 0 ==> counter_line(places, m) == "Page 1 of "@
            + number::decimal(places) + "  ·  Sheet "@ + number::decimal(shown_sheets(m)) + " · "@
            + number::decimal(places) + " pages"@,
        m.status is None ==> shown_fault(m) is None,
        m.status matches Some(s) ==> shown_fault(m) == status::fault(s),
{
}

/// The scanner in use is marked at its first place among those shown, and nowhere where it is not
/// shown.
pub proof fn the_scanner_in_use_is_marked(m: StateModel, i: int)
    requires
        0 <= i < state::visible(m).len(),
        m.scanner matches Some(s) && scanner::key(s) == scanner::key(state::visible(m)[i]),
        forall|j: int|
            0 <= j < i ==> scanner::key(#[trigger] state::visible(m)[j]) != scanner::key(
                state::visible(m)[i],
            ),
    ensures
        choice_in_use(m) == Some(i),
{
    state::lemma_place_bounds(state::visible(m), scanner::key(state::visible(m)[i]));
}

} // verus!
