//! What holds of the dashboard whatever the user does.

use vstd::prelude::*;

use crate::dashboard;
use crate::dashboard::{DashModel, EffectModel, MessageModel};
use crate::laws;
use crate::number;
use crate::pdf;
use crate::scan;
use crate::scanner::TransportPref;
use crate::state;
use crate::state::{ConnectionState, ScanPreset, StateModel};
use crate::status;

verus! {

/// While a scan or a save runs, or waits for the user, nothing else begins and no setting changes.
pub proof fn nothing_begins_while_busy(d: DashModel, m: StateModel, msg: MessageModel)
    requires
        dashboard::occupied(d, m),
        msg is Scan || msg is SelectScanner || msg is SetTransport || dashboard::is_setting(msg),
    ensures
        dashboard::acted(d, m, msg) == dashboard::nothing(d, m),
        !dashboard::connects(d, m, msg),
{
}

/// A file is asked for once: while one is being written, no second one begins.
pub proof fn one_file_at_a_time(d: DashModel, m: StateModel)
    requires
        d.saving,
    ensures
        dashboard::acted(d, m, MessageModel::SavePdf).e is Nothing,
        dashboard::acted(d, m, MessageModel::SavePdf).m == m,
        dashboard::acted(d, m, MessageModel::EmailPdf) == dashboard::nothing(d, m),
{
}

/// A file can be written exactly where there is a page, and then it holds all pages of the
/// document in their order.
pub proof fn a_file_holds_the_document(d: DashModel, m: StateModel)
    requires
        !d.saving,
        m.pages.len() > 0,
    ensures
        dashboard::acted(d, m, MessageModel::SavePdf).e == EffectModel::SavePdf(
            m.pages,
            dashboard::collected_dpi(m),
            true,
        ),
        dashboard::acted(d, m, MessageModel::EmailPdf).e == EffectModel::EmailPdf(
            m.pages,
            dashboard::collected_dpi(m),
        ),
{
}

/// Without a page no file is written, and the user is told.
pub proof fn no_page_makes_no_file(d: DashModel, m: StateModel)
    requires
        !d.saving,
        dashboard::collected(m).len() == 0,
    ensures
        dashboard::acted(d, m, MessageModel::SavePdf).e is Nothing,
        dashboard::acted(d, m, MessageModel::SavePdf).m.session.last_error is Some,
        dashboard::acted(d, m, MessageModel::EmailPdf).e is Nothing,
        dashboard::acted(d, m, MessageModel::EmailPdf).m.session.last_error is Some,
{
}

/// A file that was asked for by email opens a mail once it is written, and is not kept as the last
/// file saved.
pub proof fn an_emailed_file_opens_a_mail(
    d: DashModel,
    m: StateModel,
    n: StateModel,
    file: (Seq<char>, Option<u64>),
)
    requires
        !d.saving,
        dashboard::collected(m).len() > 0,
    ensures
        ({
            let asked = dashboard::acted(d, m, MessageModel::EmailPdf);
            let done = dashboard::acted(asked.d, n, MessageModel::PdfDone(Ok(file)));
            &&& done.e is AttachEmail
            &&& done.m.last_pdf == n.last_pdf
            &&& !done.d.saving && !done.d.email_after
        }),
{
}

/// A file that was saved is shown as the last one, at the resolution of its pages, and opens no
/// mail.
pub proof fn a_saved_file_is_kept(
    d: DashModel,
    m: StateModel,
    n: StateModel,
    file: (Seq<char>, Option<u64>),
)
    requires
        !d.saving,
        dashboard::collected(m).len() > 0,
    ensures
        ({
            let asked = dashboard::acted(d, m, MessageModel::SavePdf);
            let done = dashboard::acted(asked.d, n, MessageModel::PdfDone(Ok(file)));
            &&& done.e is Nothing
            &&& done.m.last_pdf == Some(file.0)
            &&& done.m.last_pdf_dpi == Some(dashboard::collected_dpi(m))
            &&& !done.d.saving
        }),
{
}

/// Whether a file was written or not, another one can be asked for.
pub proof fn saving_ends(
    d: DashModel,
    m: StateModel,
    r: Result<(Seq<char>, Option<u64>), Seq<char>>,
)
    ensures
        !dashboard::acted(d, m, MessageModel::PdfDone(r)).d.saving,
        r is Err ==> dashboard::acted(d, m, MessageModel::PdfDone(r)).m.session.last_error is Some,
        r is Ok ==> dashboard::acted(d, m, MessageModel::PdfDone(r)).m.session.last_error is None,
{
}

/// A sheet that the user goes on with is added to the document, at once where it is in the feeder,
/// else when it comes.
pub proof fn the_next_sheet_is_added(d: DashModel, m: StateModel)
    requires
        m.prompt_continue,
        m.connection == ConnectionState::Connected,
        m.scanner is Some,
    ensures
        ({
            let go = dashboard::acted(d, m, MessageModel::ContinueFeed);
            let ready = m.status is Some && status::sheet_ready(m.status->0);
            &&& go.e is Scan <==> ready
            &&& ready ==> scan::scan_asked(go.m).pages == m.pages
            &&& !ready ==> go.m.waiting_for_paper
        }),
{
    if m.status is Some && status::sheet_ready(m.status->0) {
        status::ready_means_loaded(m.status->0);
    }
}

/// A sheet that was waited for is scanned as soon as it is in the feeder, and added to the
/// document.
pub proof fn waited_paper_is_scanned(d: DashModel, m: StateModel)
    requires
        m.waiting_for_paper,
        m.connection == ConnectionState::Connected,
        m.scanner is Some,
        m.status is Some && status::sheet_ready(m.status->0),
    ensures
        ({
            let tick = dashboard::acted(d, m, MessageModel::Tick);
            &&& tick.e matches EffectModel::Refresh(_, scan) && scan
            &&& !tick.m.waiting_for_paper
            &&& scan::order(tick.m) is Some
            &&& scan::scan_asked(tick.m).pages == m.pages
        }),
{
    status::ready_means_loaded(m.status->0);
}

/// Cancelling always ends the waiting, and keeps the pages.
pub proof fn cancelling_ends_the_waiting(d: DashModel, m: StateModel)
    ensures
        ({
            let end = dashboard::acted(d, m, MessageModel::CancelFeed).m;
            &&& !end.prompt_continue && !end.waiting_for_paper && !end.scan_append
            &&& end.pages == m.pages
            &&& m.connection != ConnectionState::Scanning && m.connection
                != ConnectionState::RunningOcr ==> !state::busy(end)
        }),
{
}

/// Flipping a box twice leaves it as it was.
pub proof fn flipping_twice_changes_nothing(d: DashModel, m: StateModel)
    ensures
        dashboard::acted(
            d,
            dashboard::acted(d, m, MessageModel::FlipOcr).m,
            MessageModel::FlipOcr,
        ).m == m,
        dashboard::acted(
            d,
            dashboard::acted(d, m, MessageModel::FlipContinuous).m,
            MessageModel::FlipContinuous,
        ).m == m,
        dashboard::acted(
            d,
            dashboard::acted(d, m, MessageModel::FlipLongReceipt).m,
            MessageModel::FlipLongReceipt,
        ).m == m,
{
}

proof fn lemma_all_present(pages: Seq<Seq<u8>>)
    requires
        forall|i: int| 0 <= i < pages.len() ==> (#[trigger] pages[i]).len() > 0,
    ensures
        pdf::present(pages) == pages,
    decreases pages.len(),
{
    reveal(Seq::filter);
    if pages.len() > 0 {
        lemma_all_present(pages.drop_last());
        assert(pages =~= pages.drop_last().push(pages.last()));
    }
}

/// The previews follow the pages: one for each, where there was one for each before.
pub proof fn previews_follow_the_pages(d: DashModel, m: StateModel)
    requires
        d.handles == d.page_lens.len(),
        m.pages.len() <= usize::MAX,
        forall|i: int| 0 <= i < m.pages.len() ==> (#[trigger] m.pages[i]).len() > 0,
    ensures
        dashboard::synced(d, m).handles == m.pages.len(),
        dashboard::synced(d, m).handles == dashboard::synced(d, m).page_lens.len(),
        dashboard::starts_over(d, m) ==> dashboard::pages_added(d, m) == m.pages,
{
    if dashboard::lens(m.pages) == d.page_lens {
        assert(dashboard::lens(m.pages).len() == m.pages.len());
    } else {
        let from = if dashboard::starts_over(d, m) {
            0int
        } else {
            d.handles as int
        };
        let rest = m.pages.skip(from);
        assert forall|i: int| 0 <= i < rest.len() implies (#[trigger] rest[i]).len() > 0 by {
            assert(rest[i] == m.pages[i + from]);
        }
        lemma_all_present(rest);
        assert(m.pages.skip(0) =~= m.pages);
    }
}

/// Previews that are up to date are left alone.
pub proof fn previews_settle(d: DashModel, m: StateModel)
    requires
        m.front_image matches Some(b) ==> b.len() <= usize::MAX,
        m.back_image matches Some(b) ==> b.len() <= usize::MAX,
    ensures
        ({
            let again = dashboard::preview_plan(dashboard::synced(d, m), m);
            &&& !again.clear
            &&& again.add.len() == 0
            &&& !(again.front is Show)
            &&& !(again.back is Show)
        }),
{
}

/// The same scanners, pages and texts.
#[verifier::opaque]
spec fn same_lists(m: StateModel, n: StateModel) -> bool {
    m.discovered == n.discovered && m.pages == n.pages && m.page_texts == n.page_texts
}

proof fn lemma_tick(d: DashModel, m: StateModel)
    ensures
        same_lists(m, dashboard::ticked(d, m).m),
{
    reveal(same_lists);
}

proof fn lemma_save(d: DashModel, m: StateModel)
    ensures
        same_lists(m, dashboard::save_asked(DashModel { email_after: false, ..d }, m, true).m),
{
    reveal(same_lists);
}

proof fn lemma_email(d: DashModel, m: StateModel)
    ensures
        same_lists(m, dashboard::email_asked(d, m).m),
{
    reveal(same_lists);
}

proof fn lemma_continue(d: DashModel, m: StateModel)
    ensures
        same_lists(m, dashboard::feed_continued(d, m).m),
{
    reveal(same_lists);
}

proof fn lemma_cancel(d: DashModel, m: StateModel)
    ensures
        same_lists(m, dashboard::nothing(d, dashboard::feed_cancelled(m)).m),
{
    reveal(same_lists);
}

proof fn lemma_pdf_done(d: DashModel, m: StateModel, r: Result<(Seq<char>, Option<u64>), Seq<char>>)
    ensures
        same_lists(m, dashboard::pdf_done(d, m, r).m),
{
    reveal(same_lists);
}

proof fn lemma_email_done(d: DashModel, m: StateModel, r: Result<(), Seq<char>>)
    ensures
        same_lists(m, dashboard::nothing(d, dashboard::email_done(m, r)).m),
{
    reveal(same_lists);
}

proof fn lemma_preset(d: DashModel, m: StateModel, p: ScanPreset)
    ensures
        same_lists(m, dashboard::unless_busy(d, m, StateModel { scan_preset: p, ..m }).m),
{
    reveal(same_lists);
}

proof fn lemma_ocr(d: DashModel, m: StateModel, b: bool)
    ensures
        same_lists(m, dashboard::unless_busy(d, m, StateModel { ocr_enabled: b, ..m }).m),
{
    reveal(same_lists);
}

proof fn lemma_continuous(d: DashModel, m: StateModel, b: bool)
    ensures
        same_lists(m, dashboard::unless_busy(d, m, StateModel { continuous: b, ..m }).m),
{
    reveal(same_lists);
}

proof fn lemma_receipt(d: DashModel, m: StateModel, b: bool)
    ensures
        same_lists(m, dashboard::unless_busy(d, m, StateModel { long_receipt: b, ..m }).m),
{
    reveal(same_lists);
}

proof fn lemma_scan(d: DashModel, m: StateModel)
    ensures
        same_lists(m, m),
        same_lists(m, StateModel { scan_append: false, ..m }),
{
    reveal(same_lists);
}

proof fn lemma_lists_kept(d: DashModel, m: StateModel, msg: MessageModel)
    requires
        !(msg is SelectScanner),
        !(msg is SetTransport),
    ensures
        same_lists(m, dashboard::acted(d, m, msg).m),
{
    match msg {
        MessageModel::Tick => lemma_tick(d, m),
        MessageModel::SavePdf => lemma_save(d, m),
        MessageModel::EmailPdf => lemma_email(d, m),
        MessageModel::ContinueFeed => lemma_continue(d, m),
        MessageModel::CancelFeed => lemma_cancel(d, m),
        MessageModel::PdfDone(r) => lemma_pdf_done(d, m, r),
        MessageModel::EmailDone(r) => lemma_email_done(d, m, r),
        MessageModel::SetPreset(p) => lemma_preset(d, m, p),
        MessageModel::ToggleOcr(b) => lemma_ocr(d, m, b),
        MessageModel::ToggleContinuous(b) => lemma_continuous(d, m, b),
        MessageModel::ToggleLongReceipt(b) => lemma_receipt(d, m, b),
        MessageModel::FlipOcr => lemma_ocr(d, m, !m.ocr_enabled),
        MessageModel::FlipContinuous => lemma_continuous(d, m, !m.continuous),
        MessageModel::FlipLongReceipt => lemma_receipt(d, m, !m.long_receipt),
        _ => lemma_scan(d, m),
    }
}

proof fn lemma_select_tidy(d: DashModel, m: StateModel, k: Seq<char>)
    requires
        laws::tidy(m),
    ensures
        laws::tidy(dashboard::acted(d, m, MessageModel::SelectScanner(k)).m),
{
    laws::a_choice_keeps_the_state_tidy(m, k, TransportPref::Auto);
}

proof fn lemma_transport_tidy(d: DashModel, m: StateModel, p: TransportPref)
    requires
        laws::tidy(m),
    ensures
        laws::tidy(dashboard::acted(d, m, MessageModel::SetTransport(p)).m),
{
    laws::a_choice_keeps_the_state_tidy(m, Seq::empty(), p);
}

/// No scanner is listed twice and every page has its text, whatever message comes.
pub proof fn messages_keep_the_state_tidy(d: DashModel, m: StateModel, msg: MessageModel)
    requires
        laws::tidy(m),
    ensures
        laws::tidy(dashboard::acted(d, m, msg).m),
{
    match msg {
        MessageModel::SelectScanner(k) => lemma_select_tidy(d, m, k),
        MessageModel::SetTransport(p) => lemma_transport_tidy(d, m, p),
        _ => {
            lemma_lists_kept(d, m, msg);
            reveal(same_lists);
        },
    }
}

/// A setting that the user changes is set, and nothing else changes with it.
pub proof fn a_setting_is_set(d: DashModel, m: StateModel, p: ScanPreset, b: bool)
    requires
        !dashboard::occupied(d, m),
    ensures
        dashboard::acted(d, m, MessageModel::SetPreset(p)) == dashboard::nothing(
            d,
            StateModel { scan_preset: p, ..m },
        ),
        dashboard::acted(d, m, MessageModel::ToggleOcr(b)) == dashboard::nothing(
            d,
            StateModel { ocr_enabled: b, ..m },
        ),
        dashboard::acted(d, m, MessageModel::ToggleContinuous(b)) == dashboard::nothing(
            d,
            StateModel { continuous: b, ..m },
        ),
        dashboard::acted(d, m, MessageModel::ToggleLongReceipt(b)) == dashboard::nothing(
            d,
            StateModel { long_receipt: b, ..m },
        ),
{
}

/// Flipping a box sets it to what it was not.
pub proof fn flipping_sets_the_other(d: DashModel, m: StateModel)
    requires
        !dashboard::occupied(d, m),
    ensures
        dashboard::acted(d, m, MessageModel::FlipOcr) == dashboard::acted(
            d,
            m,
            MessageModel::ToggleOcr(!m.ocr_enabled),
        ),
        dashboard::acted(d, m, MessageModel::FlipOcr).m.ocr_enabled != m.ocr_enabled,
        dashboard::acted(d, m, MessageModel::FlipContinuous) == dashboard::acted(
            d,
            m,
            MessageModel::ToggleContinuous(!m.continuous),
        ),
        dashboard::acted(d, m, MessageModel::FlipContinuous).m.continuous != m.continuous,
        dashboard::acted(d, m, MessageModel::FlipLongReceipt) == dashboard::acted(
            d,
            m,
            MessageModel::ToggleLongReceipt(!m.long_receipt),
        ),
        dashboard::acted(d, m, MessageModel::FlipLongReceipt).m.long_receipt != m.long_receipt,
{
}

/// The dashboard is busy exactly while a file is written or a scan goes on.
pub proof fn busy_means_work_goes_on(d: DashModel, m: StateModel)
    ensures
        dashboard::occupied(d, m) <==> d.saving || m.connection == ConnectionState::Scanning
            || m.connection == ConnectionState::RunningOcr || m.prompt_continue
            || m.waiting_for_paper,
{
}

/// A scan that the user asks for begins a new document, wherever nothing else goes on.
pub proof fn a_scan_that_is_asked_for_begins(d: DashModel, m: StateModel)
    requires
        !dashboard::occupied(d, m),
    ensures
        dashboard::acted(d, m, MessageModel::Scan).e is Scan,
        dashboard::acted(d, m, MessageModel::Scan).d == d,
        dashboard::acted(d, m, MessageModel::Scan).m == (StateModel { scan_append: false, ..m }),
{
}

/// Without a document the sides in view make the file, front before back; a side that is empty or
/// not there is left out.
pub proof fn sides_in_view_make_a_file(m: StateModel, front: Seq<u8>, back: Seq<u8>)
    requires
        m.pages.len() == 0,
        front.len() > 0,
        back.len() > 0,
    ensures
        m.front_image == Some(front) && m.back_image == Some(back) ==> dashboard::collected(m)
            == seq![front, back],
        m.front_image == Some(front) && m.back_image is None ==> dashboard::collected(m) == seq![
            front,
        ],
        m.front_image is None && m.back_image == Some(back) ==> dashboard::collected(m) == seq![
            back,
        ],
        m.front_image is None && m.back_image is None ==> dashboard::collected(m).len() == 0,
{
    assert(seq![front] + seq![back] =~= seq![front, back]);
    assert(seq![front] + Seq::<Seq<u8>>::empty() =~= seq![front]);
    assert(Seq::<Seq<u8>>::empty() + seq![back] =~= seq![back]);
}

/// A file is laid out at the resolution of the document's pages, or at that of the preset where
/// none is known.
pub proof fn a_file_has_the_resolution_of_its_pages(m: StateModel)
    ensures
        m.pages_dpi > 0 ==> dashboard::collected_dpi(m) == m.pages_dpi,
        m.pages_dpi == 0 ==> dashboard::collected_dpi(m) == state::preset_dpi(m.scan_preset),
        m.pages.len() > 0 ==> dashboard::collected(m) == m.pages,
{
}

/// Asking for a file marks the dashboard as saving, and for an email as one, and changes nothing of
/// the document.
pub proof fn asking_for_a_file_is_noted(d: DashModel, m: StateModel)
    requires
        !d.saving,
        dashboard::collected(m).len() > 0,
    ensures
        ({
            let save = dashboard::acted(d, m, MessageModel::SavePdf);
            let email = dashboard::acted(d, m, MessageModel::EmailPdf);
            &&& save.d == (DashModel {
                saving: true,
                email_after: false,
                pdf_dpi: dashboard::collected_dpi(m),
                ..d
            })
            &&& email.d == (DashModel {
                saving: true,
                email_after: true,
                pdf_dpi: dashboard::collected_dpi(m),
                ..d
            })
            &&& save.m == (StateModel { status_line: "Saving PDF…"@, ..m })
            &&& email.m == (StateModel { status_line: "Preparing a PDF under 5 MB…"@, ..m })
            &&& save.e == EffectModel::SavePdf(
                dashboard::collected(m),
                dashboard::collected_dpi(m),
                true,
            )
            &&& email.e == EffectModel::EmailPdf(
                dashboard::collected(m),
                dashboard::collected_dpi(m),
            )
        }),
{
}

/// The end of a file's writing is told: its name and size where it was saved, and else why it
/// failed, in full. The document stays.
pub proof fn the_end_of_saving_is_told(
    d: DashModel,
    m: StateModel,
    name: Seq<char>,
    size: u64,
    why: Seq<char>,
)
    ensures
        ({
            let saved = dashboard::acted(d, m, MessageModel::PdfDone(Ok((name, Some(size)))));
            let failed = dashboard::acted(d, m, MessageModel::PdfDone(Err(why)));
            &&& !d.email_after ==> saved.m.status_line == "saved "@ + name + (" · "@
                + number::bytes_shown(size as nat))
            &&& !d.email_after ==> saved.m.last_pdf == Some(name) && saved.m.last_pdf_dpi == Some(
                d.pdf_dpi,
            )
            &&& d.email_after ==> saved.m.status_line == "Opening mail with a "@
                + number::megabytes(size as nat) + " MB PDF…"@
            &&& d.email_after ==> saved.m.last_pdf == m.last_pdf && saved.m.last_pdf_dpi
                == m.last_pdf_dpi && saved.e is AttachEmail
            &&& saved.m.session.last_error is None
            &&& failed.m.session.last_error == Some(why)
            &&& failed.e is Nothing
            &&& failed.m.last_pdf == m.last_pdf
            &&& failed.m.status_line == m.status_line
            &&& saved.m.pages == m.pages && failed.m.pages == m.pages
            &&& !failed.d.saving && !failed.d.email_after && !saved.d.saving && !saved.d.email_after
            &&& saved.d.pdf_dpi == d.pdf_dpi && saved.d.handles == d.handles
        }),
{
}

/// The end of a mail's opening is told.
pub proof fn the_end_of_mailing_is_told(d: DashModel, m: StateModel, why: Seq<char>)
    ensures
        dashboard::acted(d, m, MessageModel::EmailDone(Ok(()))).m.status_line
            == "Mail composer opened."@,
        dashboard::acted(d, m, MessageModel::EmailDone(Ok(()))).m.session.last_error is None,
        dashboard::acted(d, m, MessageModel::EmailDone(Err(why))).m.session.last_error == Some(why),
        dashboard::acted(d, m, MessageModel::EmailDone(Err(why))).m.status_line == m.status_line,
        dashboard::acted(d, m, MessageModel::EmailDone(Err(why))).d == d,
{
}

/// Going on with the next sheet is possible exactly while the user is asked, and answers the
/// question; the document goes on with it.
pub proof fn going_on_answers_the_question(d: DashModel, m: StateModel)
    ensures
        !m.prompt_continue ==> dashboard::acted(d, m, MessageModel::ContinueFeed)
            == dashboard::nothing(d, m),
        m.prompt_continue ==> {
            let n = dashboard::acted(d, m, MessageModel::ContinueFeed).m;
            let ready = m.status is Some && status::sheet_ready(m.status->0);
            &&& n == (StateModel {
                prompt_continue: false,
                scan_append: true,
                waiting_for_paper: !ready,
                status_line: "Load the next page…"@,
                ..m
            })
        },
{
}

/// Closing a document tells how many pages it has.
pub proof fn closing_tells_the_pages(d: DashModel, m: StateModel)
    ensures
        ({
            let n = dashboard::acted(d, m, MessageModel::CancelFeed).m;
            &&& m.pages.len() == 0 ==> n.status_line == "Scan cancelled."@
            &&& m.pages.len() > 0 ==> n.status_line == "Document ready ("@ + number::decimal(
                m.pages.len(),
            ) + " pages)."@
            &&& n == (StateModel {
                prompt_continue: false,
                waiting_for_paper: false,
                scan_append: false,
                status_line: n.status_line,
                ..m
            })
        }),
{
}

/// The passing of time changes nothing of the state but for paper that was waited for, and turns
/// the sign of work by one.
pub proof fn time_passes_quietly(d: DashModel, m: StateModel)
    ensures
        ({
            let tick = dashboard::acted(d, m, MessageModel::Tick);
            let came = m.waiting_for_paper && m.connection == ConnectionState::Connected
                && m.status is Some && status::sheet_ready(m.status->0);
            &&& !came ==> tick.m == m
            &&& came ==> tick.m == (StateModel {
                waiting_for_paper: false,
                scan_append: true,
                status_line: tick.m.status_line,
                ..m
            })
            &&& came ==> tick.m.status_line == "Paper detected. Scanning…"@
            &&& tick.e matches EffectModel::Refresh(_, go) && go == came
            &&& d.spin_phase < 255 ==> tick.d.spin_phase == d.spin_phase + 1
            &&& d.spin_phase == 255 ==> tick.d.spin_phase == 0
            &&& tick.d.saving == d.saving && tick.d.email_after == d.email_after
            &&& tick.d.pdf_dpi == d.pdf_dpi && tick.d.pressed == d.pressed
        }),
{
}

/// Pages that were added to the document are added to the previews, and no other.
pub proof fn new_pages_are_previewed(d: DashModel, m: StateModel, new: Seq<Seq<u8>>)
    requires
        new.len() > 0,
        d.page_lens == dashboard::lens(m.pages),
        d.handles == m.pages.len(),
        (m.pages + new).len() <= usize::MAX,
        forall|i: int| 0 <= i < new.len() ==> (#[trigger] new[i]).len() > 0,
    ensures
        ({
            let plan = dashboard::preview_plan(d, StateModel { pages: m.pages + new, ..m });
            !plan.clear && plan.add == new
        }),
{
    let n = StateModel { pages: m.pages + new, ..m };
    let a = dashboard::lens(m.pages);
    let b = dashboard::lens(n.pages);
    assert(b.len() == m.pages.len() + new.len());
    assert(a.len() == m.pages.len());
    assert forall|i: int| 0 <= i < a.len() implies #[trigger] a[i] == b[i] by {
        assert(n.pages[i] == m.pages[i]);
    }
    assert(dashboard::leads(a, b));
    assert(n.pages.skip(m.pages.len() as int) =~= new);
    lemma_all_present(new);
}

/// The image of a side in view is shown when it comes or changes its length, and goes with it.
pub proof fn sides_in_view_are_shown(image: Seq<u8>, len: usize)
    requires
        0 < image.len() <= usize::MAX,
    ensures
        image.len() != len ==> dashboard::live_step(Some(image), len)
            == dashboard::LiveModel::Show(image),
        image.len() == len ==> dashboard::live_step(Some(image), len) is Keep,
        dashboard::live_step(None, len) is Clear,
        dashboard::live_len(Some(image), len) == image.len(),
        dashboard::live_len(None, len) == 0,
{
}

/// The choice of a scanner is handed on to be remembered exactly where it is taken.
pub proof fn a_taken_choice_is_handed_on(d: DashModel, m: StateModel, k: Seq<char>)
    ensures
        ({
            let step = dashboard::acted(d, m, MessageModel::SelectScanner(k));
            &&& step.d == d
            &&& !dashboard::occupied(d, m) ==> step.m == state::selected(m, k)
            &&& step.e == EffectModel::Remember(k) <==> !dashboard::occupied(d, m)
                && state::selects(m, k)
            &&& !(step.e is Remember) ==> step.e is Nothing
        }),
        !dashboard::occupied(d, m) ==> dashboard::acted(
            d,
            m,
            MessageModel::SetTransport(TransportPref::Usb),
        ).m == state::with_transport(m, TransportPref::Usb),
        !dashboard::occupied(d, m) ==> dashboard::acted(
            d,
            m,
            MessageModel::SetTransport(TransportPref::Wifi),
        ).m == state::with_transport(m, TransportPref::Wifi),
        !dashboard::occupied(d, m) ==> dashboard::acted(
            d,
            m,
            MessageModel::SetTransport(TransportPref::Auto),
        ).m == state::with_transport(m, TransportPref::Auto),
{
}

/// No message costs a page, its text or a scanner in reach.
pub proof fn no_message_costs_a_page(d: DashModel, m: StateModel, msg: MessageModel)
    ensures
        dashboard::acted(d, m, msg).m.pages == m.pages,
        dashboard::acted(d, m, msg).m.page_texts == m.page_texts,
        dashboard::acted(d, m, msg).m.discovered == m.discovered,
{
    match msg {
        MessageModel::SelectScanner(k) => lemma_select_lists(d, m, k),
        MessageModel::SetTransport(p) => lemma_transport_lists(d, m, p),
        _ => {
            lemma_lists_kept(d, m, msg);
            reveal(same_lists);
        },
    }
}

proof fn lemma_select_lists(d: DashModel, m: StateModel, k: Seq<char>)
    ensures
        ({
            let n = dashboard::acted(d, m, MessageModel::SelectScanner(k)).m;
            &&& n.pages == m.pages
            &&& n.page_texts == m.page_texts
            &&& n.discovered == m.discovered
        }),
{
    a_taken_choice_is_handed_on(d, m, k);
    let n = dashboard::acted(d, m, MessageModel::SelectScanner(k)).m;
    if dashboard::occupied(d, m) {
        nothing_begins_while_busy(d, m, MessageModel::SelectScanner(k));
        assert(n == m);
    } else {
        assert(n == state::selected(m, k));
        state::a_choice_keeps_the_document(m, k);
    }
}

proof fn lemma_transport_lists(d: DashModel, m: StateModel, p: TransportPref)
    ensures
        ({
            let n = dashboard::acted(d, m, MessageModel::SetTransport(p)).m;
            &&& n.pages == m.pages
            &&& n.page_texts == m.page_texts
            &&& n.discovered == m.discovered
        }),
{
    let n = dashboard::acted(d, m, MessageModel::SetTransport(p)).m;
    if dashboard::occupied(d, m) {
        nothing_begins_while_busy(d, m, MessageModel::SetTransport(p));
        assert(n == m);
    } else {
        a_taken_choice_is_handed_on(d, m, Seq::empty());
        assert(n == state::with_transport(m, p));
        state::a_choice_of_transports_keeps_the_document(m, p);
    }
}

/// The dashboard opens idle, with nothing shown and no key held.
pub proof fn the_dashboard_opens_idle()
    ensures
        ({
            let d = dashboard::opened();
            &&& d.handles == 0 && d.page_lens.len() == 0
            &&& d.live_front_len == 0 && d.live_back_len == 0
            &&& !d.saving && !d.email_after
            &&& d.pdf_dpi == 300 && d.spin_phase == 0
            &&& forall|k: Seq<char>| !#[trigger] d.pressed.contains(k)
        }),
{
}

/// After the previews were brought up to date, the lengths of the document's pages are known, and
/// nothing else of the dashboard changed but the previews.
pub proof fn previews_leave_the_rest_alone(d: DashModel, m: StateModel)
    ensures
        ({
            let n = dashboard::synced(d, m);
            &&& n.page_lens.len() == m.pages.len()
            &&& n.saving == d.saving && n.email_after == d.email_after && n.pdf_dpi == d.pdf_dpi
            &&& n.spin_phase == d.spin_phase && n.pressed == d.pressed
            &&& m.front_image is None ==> n.live_front_len == 0
            &&& m.back_image is None ==> n.live_back_len == 0
        }),
        d.page_lens == dashboard::lens(m.pages) ==> {
            let plan = dashboard::preview_plan(d, m);
            !plan.clear
        },
{
}

} // verus!
