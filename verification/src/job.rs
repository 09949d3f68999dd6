//! A scan job over the eSCL protocol, from the first request to the finished sheet.
//!
//! The job is a state machine: each answer of the scanner is handed to it, and it says what to ask
//! next.

use std::sync::Arc;

use vstd::prelude::*;

use crate::error::{AppError, AppResult, ErrorModel};
use crate::escl;
use crate::images;
use crate::scanner::{ScannerInfo, ScannerModel};
use crate::state;
use crate::state::{AppState, ScanProgress, StateModel};
use crate::text;
use crate::text::Strip;

verus! {

/// A scan job.
#[derive(Debug)]
pub struct DuplexJob {
    pub scanner: ScannerInfo,
    pub long_receipt: bool,
    /// The URL of the job on the scanner; empty until the scanner has taken it.
    pub job_url: String,
    /// The sides that are behind.
    pub side: u8,
    pub pages: Vec<Arc<Vec<u8>>>,
}

/// What a `DuplexJob` says.
#[verifier::ext_equal]
pub struct JobModel {
    pub scanner: ScannerModel,
    pub long_receipt: bool,
    pub job_url: Seq<char>,
    pub side: u8,
    pub pages: Seq<Seq<u8>>,
}

impl View for DuplexJob {
    type V = JobModel;

    open spec fn view(&self) -> JobModel {
        JobModel {
            scanner: self.scanner@,
            long_receipt: self.long_receipt,
            job_url: self.job_url@,
            side: self.side,
            pages: state::images_of(self.pages@),
        }
    }
}

/// The sides of a sheet: a long receipt has one.
pub open spec fn sides(long_receipt: bool) -> int {
    if long_receipt {
        1
    } else {
        2
    }
}

/// A job whose sides are not all behind.
pub open spec fn goes_on(j: JobModel) -> bool {
    j.side < sides(j.long_receipt)
}

/// A job that the scanner has not taken yet.
pub open spec fn new_job(s: ScannerModel, long_receipt: bool) -> JobModel {
    JobModel {
        scanner: s,
        long_receipt,
        job_url: Seq::empty(),
        side: 0,
        pages: Seq::empty(),
    }
}

/// The progress of a job that is about to be posted: the back of a long receipt counts as done.
pub open spec fn asked(long_receipt: bool) -> ScanProgress {
    ScanProgress { one_sided: long_receipt, back_done: long_receipt, ..state::no_progress() }
}

/// What is shown while a side is scanned.
pub open spec fn side_line(long_receipt: bool, side: u8) -> Seq<char> {
    if long_receipt {
        "Scanning receipt…"@
    } else if side == 0 {
        "Scanning front…"@
    } else {
        "Scanning back…"@
    }
}

/// The state while the side after `side` others is asked for.
pub open spec fn side_begun(m: StateModel, j: JobModel) -> StateModel {
    StateModel {
        progress: ScanProgress {
            current_side: (j.side + 1) as u8,
            current_bytes: 0,
            expected_bytes: 0,
            ..m.progress
        },
        status_line: side_line(j.long_receipt, j.side),
        ..m
    }
}

/// The URL at which the next page of a job is asked for.
pub open spec fn next_url(j: JobModel) -> Seq<char> {
    text::strip_back(j.job_url, Strip::Only('/')) + "/NextDocument"@
}

/// Why a posted job is refused, by the HTTP status and the place of the job.
pub open spec fn refusal(status: u16, location: Option<Seq<char>>) -> Option<Seq<char>> {
    if status == 503 {
        Some("Scanner is busy. Load a page and try Scan again."@)
    } else if !(200 <= status < 300) {
        Some("Scanner couldn't start the scan. Load a page and try again."@)
    } else if location is None {
        Some("Scanner didn't return a scan job."@)
    } else {
        None
    }
}

/// The job that the scanner has taken.
pub open spec fn taken(j: JobModel, location: Seq<char>) -> JobModel {
    JobModel { job_url: escl::job_url(j.scanner, location), ..j }
}

/// The state after the scanner has taken the job.
pub open spec fn posted_state(m: StateModel, j: JobModel) -> StateModel {
    side_begun(StateModel { progress: ScanProgress { job_posted: true, ..m.progress }, ..m }, j)
}

/// The state after one image of the first side or of a later one came: the first image of all is
/// the front, every later one the back.
pub open spec fn image_stored(m: StateModel, front: bool, image: Seq<u8>) -> StateModel {
    if front {
        StateModel {
            progress: ScanProgress {
                front_bytes: image.len() as usize,
                front_done: true,
                current_bytes: 0,
                expected_bytes: 0,
                ..m.progress
            },
            front_image: Some(image),
            ..m
        }
    } else {
        StateModel {
            progress: ScanProgress {
                back_bytes: image.len() as usize,
                back_done: true,
                current_bytes: 0,
                expected_bytes: 0,
                ..m.progress
            },
            back_image: Some(image),
            ..m
        }
    }
}

/// The state after the images of one answer came, where `before` images came on the sides behind.
pub open spec fn images_stored(
    m: StateModel,
    side: u8,
    before: Seq<Seq<u8>>,
    images: Seq<Seq<u8>>,
) -> StateModel
    decreases images.len(),
{
    if images.len() == 0 {
        m
    } else {
        image_stored(
            images_stored(m, side, before, images.drop_last()),
            side == 0 && before.len() == 0 && images.len() == 1,
            images.last(),
        )
    }
}

/// The job after the images of one side came.
pub open spec fn side_done(j: JobModel, images: Seq<Seq<u8>>) -> JobModel {
    JobModel { side: (j.side + 1) as u8, pages: j.pages + images, ..j }
}

/// The sheet that a finished job gives: its first two pages, with an empty back where there is
/// only one.
pub open spec fn sheet(pages: Seq<Seq<u8>>) -> Result<(Seq<u8>, Seq<u8>), ErrorModel> {
    if pages.len() == 0 {
        Err(ErrorModel::Escl("scan job returned no pages"@))
    } else if pages.len() == 1 {
        Ok((pages[0], Seq::empty()))
    } else {
        Ok((pages[0], pages[1]))
    }
}

/// The view of a sheet or a failure.
pub open spec fn sheet_of(r: AppResult<(Arc<Vec<u8>>, Arc<Vec<u8>>)>) -> Result<
    (Seq<u8>, Seq<u8>),
    ErrorModel,
> {
    match r {
        Ok((front, back)) => Ok((front@, back@)),
        Err(e) => Err(e@),
    }
}

impl DuplexJob {
    /// A job that is about to be posted at `escl::jobs_url` with `escl::scan_settings`.
    pub fn start(scanner: &ScannerInfo, state: &mut AppState, long_receipt: bool) -> (r: DuplexJob)
        ensures
            r@ == new_job(scanner@, long_receipt),
            goes_on(r@),
            final(state)@ == (StateModel { progress: asked(long_receipt), ..old(state)@ }),
            final(state).last_seen == old(state).last_seen,
    {
        let mut progress = ScanProgress::default();
        progress.one_sided = long_receipt;
        progress.back_done = long_receipt;
        state.progress = progress;
        let r = DuplexJob {
            scanner: scanner.clone(),
            long_receipt,
            job_url: String::new(),
            side: 0,
            pages: Vec::new(),
        };
        assert(r@ =~= new_job(scanner@, long_receipt));
        r
    }

    fn begin_side(&self, state: &mut AppState) -> (r: String)
        requires
            goes_on(self@),
        ensures
            final(state)@ == side_begun(old(state)@, self@),
            r@ == next_url(self@),
            final(state).last_seen == old(state).last_seen,
    {
        state.progress.current_side = self.side + 1;
        state.progress.current_bytes = 0;
        state.progress.expected_bytes = 0;
        state.status_line =
        if self.long_receipt {
            "Scanning receipt…".to_owned()
        } else if self.side == 0 {
            "Scanning front…".to_owned()
        } else {
            "Scanning back…".to_owned()
        };
        let mut url = text::strip_end(self.job_url.as_str(), Strip::Only('/'));
        url.append("/NextDocument");
        url
    }

    /// The scanner has answered the posted job, with the place of the job in `location`. Gives the
    /// URL at which the first page is asked for.
    pub fn posted(&mut self, state: &mut AppState, status: u16, location: Option<String>) -> (r:
        AppResult<String>)
        requires
            goes_on(old(self)@),
        ensures
            match refusal(status, text::text_of(location)) {
                Some(why) => r matches Err(e) && e@ == ErrorModel::Escl(why) && final(self)@
                    == old(self)@ && final(state)@ == old(state)@,
                None => r matches Ok(url) && final(self)@ == taken(old(self)@, location->0@)
                    && final(state)@ == posted_state(old(state)@, old(self)@) && url@ == next_url(
                    final(self)@,
                ),
            },
            goes_on(final(self)@),
            final(state).last_seen == old(state).last_seen,
    {
        if status == 503 {
            return Err(AppError::escl("Scanner is busy. Load a page and try Scan again."));
        }
        if !(200 <= status && status < 300) {
            return Err(
                AppError::escl("Scanner couldn't start the scan. Load a page and try again."),
            );
        }
        match location {
            Some(location) => {
                self.job_url = escl::job_url_on_scanner(&self.scanner, location.as_str());
                state.progress.job_posted = true;
                Ok(self.begin_side(state))
            },
            None => Err(AppError::escl("Scanner didn't return a scan job.")),
        }
    }

    fn store(&mut self, state: &mut AppState, image: &Arc<Vec<u8>>)
        ensures
            final(self)@ == (JobModel { pages: old(self)@.pages.push(image@), ..old(self)@ }),
            final(state)@ == image_stored(
                old(state)@,
                old(self)@.side == 0 && old(self)@.pages.len() == 0,
                image@,
            ),
            final(state).last_seen == old(state).last_seen,
    {
        if self.side == 0 && self.pages.len() == 0 {
            state.progress.front_bytes = image.len();
            state.progress.front_done = true;
            state.front_image = Some(images::share(image));
        } else {
            state.progress.back_bytes = image.len();
            state.progress.back_done = true;
            state.back_image = Some(images::share(image));
        }
        state.progress.current_bytes = 0;
        state.progress.expected_bytes = 0;
        let copy = images::share(image);
        proof {
            state::lemma_images_push(self.pages@, copy);
        }
        self.pages.push(copy);
    }

    /// The images of one side have come. Gives the URL at which the next page is asked for, where
    /// the sheet has another side.
    pub fn received(&mut self, state: &mut AppState, images: Vec<Arc<Vec<u8>>>) -> (r: Option<
        String,
    >)
        requires
            goes_on(old(self)@),
        ensures
            final(self)@ == side_done(old(self)@, state::images_of(images@)),
            ({
                let stored = images_stored(
                    old(state)@,
                    old(self)@.side,
                    old(self)@.pages,
                    state::images_of(images@),
                );
                if goes_on(final(self)@) {
                    final(state)@ == side_begun(stored, final(self)@) && r is Some && r->0@
                        == next_url(final(self)@)
                } else {
                    final(state)@ == stored && r is None
                }
            }),
            final(state).last_seen == old(state).last_seen,
    {
        let ghost all = state::images_of(images@);
        let ghost start = state@;
        let ghost job = self@;
        let mut i: usize = 0;
        assert(all.take(0) =~= Seq::empty());
        assert(job.pages + all.take(0) =~= job.pages);
        while i < images.len()
            invariant
                i <= images@.len(),
                all == state::images_of(images@),
                self@ == (JobModel { pages: job.pages + all.take(i as int), ..job }),
                state@ == images_stored(start, job.side, job.pages, all.take(i as int)),
                state.last_seen == old(state).last_seen,
            decreases images@.len() - i,
        {
            let image = &images[i];
            proof {
                assert(all.take(i + 1).drop_last() =~= all.take(i as int));
                assert(all.take(i + 1).last() == image@);
                assert(self@.pages.len() == job.pages.len() + i);
                assert(job.pages + all.take(i + 1) =~= (job.pages + all.take(i as int)).push(
                    image@,
                ));
            }
            self.store(state, image);
            i += 1;
        }
        assert(all.take(i as int) =~= all);
        self.side = self.side + 1;
        let sides: u8 = if self.long_receipt {
            1
        } else {
            2
        };
        if self.side < sides {
            Some(self.begin_side(state))
        } else {
            None
        }
    }

    /// The sheet that the job gives when no page is to come.
    pub fn finish(self) -> (r: AppResult<(Arc<Vec<u8>>, Arc<Vec<u8>>)>)
        ensures
            sheet_of(r) == sheet(self@.pages),
    {
        let n: usize = self.pages.len();
        if n == 0 {
            Err(AppError::escl("scan job returned no pages"))
        } else if n == 1 {
            let none: Vec<u8> = Vec::new();
            assert(none@ =~= Seq::empty());
            Ok((images::share(&self.pages[0]), Arc::new(none)))
        } else {
            Ok((images::share(&self.pages[0]), images::share(&self.pages[1])))
        }
    }
}

/// The first image of the first side is the front, and a further one is shown as the back.
pub proof fn the_front_is_the_first_page(m: StateModel, images: Seq<Seq<u8>>)
    requires
        images.len() > 0,
    ensures
        ({
            let after = images_stored(m, 0, Seq::empty(), images);
            &&& after.front_image == Some(images[0])
            &&& after.progress.front_done
            &&& images.len() > 1 ==> after.back_image == Some(images.last())
        }),
    decreases images.len(),
{
    if images.len() > 1 {
        the_front_is_the_first_page(m, images.drop_last());
    } else {
        assert(images_stored(m, 0, Seq::empty(), images.drop_last()) == m);
    }
}

/// What comes on a later side is shown as the back, and leaves the front alone.
pub proof fn later_sides_are_backs(
    m: StateModel,
    side: u8,
    before: Seq<Seq<u8>>,
    images: Seq<Seq<u8>>,
)
    requires
        side > 0,
    ensures
        ({
            let after = images_stored(m, side, before, images);
            &&& after.front_image == m.front_image
            &&& after.progress.front_done == m.progress.front_done
            &&& images.len() > 0 ==> after.progress.back_done && after.back_image == Some(
                images.last(),
            )
        }),
    decreases images.len(),
{
    if images.len() > 0 {
        later_sides_are_backs(m, side, before, images.drop_last());
    }
}

/// A job that gives one page for each side ends with both in view, the bar full, and the two as
/// its sheet.
pub proof fn a_duplex_sheet_is_complete(
    m: StateModel,
    s: ScannerModel,
    location: Seq<char>,
    front: Seq<u8>,
    back: Seq<u8>,
)
    ensures
        ({
            let j0 = taken(new_job(s, false), location);
            let m0 = posted_state(StateModel { progress: asked(false), ..m }, new_job(s, false));
            let j1 = side_done(j0, seq![front]);
            let m1 = side_begun(images_stored(m0, j0.side, j0.pages, seq![front]), j1);
            let j2 = side_done(j1, seq![back]);
            let m2 = images_stored(m1, j1.side, j1.pages, seq![back]);
            &&& goes_on(j1)
            &&& !goes_on(j2)
            &&& sheet(j2.pages) == Ok::<(Seq<u8>, Seq<u8>), ErrorModel>((front, back))
            &&& m2.front_image == Some(front)
            &&& m2.back_image == Some(back)
            &&& state::share(m2.progress).base == 100
        }),
{
    let j0 = taken(new_job(s, false), location);
    let m0 = posted_state(StateModel { progress: asked(false), ..m }, new_job(s, false));
    let j1 = side_done(j0, seq![front]);
    let m1 = side_begun(images_stored(m0, j0.side, j0.pages, seq![front]), j1);
    the_front_is_the_first_page(m0, seq![front]);
    later_sides_are_backs(m1, j1.side, j1.pages, seq![back]);
}

/// A long receipt is complete with its first page.
pub proof fn a_receipt_has_one_side(
    m: StateModel,
    s: ScannerModel,
    location: Seq<char>,
    page: Seq<u8>,
)
    ensures
        ({
            let j0 = taken(new_job(s, true), location);
            let m0 = posted_state(StateModel { progress: asked(true), ..m }, new_job(s, true));
            let j1 = side_done(j0, seq![page]);
            let m1 = images_stored(m0, j0.side, j0.pages, seq![page]);
            &&& !goes_on(j1)
            &&& sheet(j1.pages) == Ok::<(Seq<u8>, Seq<u8>), ErrorModel>((page, Seq::empty()))
            &&& m1.front_image == Some(page)
            &&& state::share(m1.progress).base == 100
        }),
{
    let m0 = posted_state(StateModel { progress: asked(true), ..m }, new_job(s, true));
    assert(images_stored(m0, 0, Seq::empty(), seq![page].drop_last()) == m0);
    assert(images_stored(m0, 0, Seq::empty(), seq![page]) == image_stored(m0, true, page));
}

/// The body of an answer begins, with the length that the scanner announced.
pub fn download_begun(state: &mut AppState, length: Option<u64>)
    ensures
        final(state)@ == (StateModel {
            progress: ScanProgress {
                expected_bytes: match length {
                    Some(n) => n as usize,
                    None => 0,
                },
                ..old(state)@.progress
            },
            ..old(state)@
        }),
        final(state).last_seen == old(state).last_seen,
{
    state.progress.expected_bytes = match length {
        Some(n) => n as usize,
        None => 0,
    };
}

/// As many bytes of the current side have come.
pub fn download_at(state: &mut AppState, got: usize)
    ensures
        final(state)@ == (StateModel {
            progress: ScanProgress { current_bytes: got, ..old(state)@.progress },
            ..old(state)@
        }),
        final(state).last_seen == old(state).last_seen,
{
    state.progress.current_bytes = got;
}

/// A part of a multipart body has come: it is a page where it looks like an image.
pub fn part_received(state: &mut AppState, pages: &mut Vec<Arc<Vec<u8>>>, part: Vec<u8>)
    ensures
        final(state)@ == (StateModel {
            progress: ScanProgress { current_bytes: part@.len() as usize, ..old(state)@.progress },
            ..old(state)@
        }),
        state::images_of(final(pages)@) == (if escl::image_like(part@) {
            state::images_of(old(pages)@).push(part@)
        } else {
            state::images_of(old(pages)@)
        }),
        state::images_of(final(pages)@) == with_part(state::images_of(old(pages)@), part@),
        final(state).last_seen == old(state).last_seen,
{
    state.progress.current_bytes = part.len();
    if escl::looks_like_image(part.as_slice()) {
        let page = Arc::new(part);
        proof {
            state::lemma_images_push(pages@, page);
        }
        pages.push(page);
    }
}

/// The whole of a body of one part has come.
pub fn body_received(body: Vec<u8>) -> (r: AppResult<Vec<Arc<Vec<u8>>>>)
    ensures
        match r {
            Ok(pages) => body@.len() > 0 && state::images_of(pages@) == seq![body@],
            Err(e) => body@.len() == 0 && e@ == ErrorModel::Escl("empty NextDocument body"@),
        },
{
    if body.len() == 0 {
        return Err(AppError::escl("empty NextDocument body"));
    }
    let pages = vec![Arc::new(body)];
    assert(state::images_of(pages@) =~= seq![body@]);
    Ok(pages)
}

/// The sheet of a job is its first page and its second, which is empty where only one came; a job
/// without a page fails.
pub proof fn a_sheet_is_the_first_two_pages(pages: Seq<Seq<u8>>)
    ensures
        pages.len() == 0 ==> sheet(pages) is Err,
        pages.len() >= 1 ==> sheet(pages) is Ok && sheet(pages)->Ok_0.0 == pages[0],
        pages.len() == 1 ==> sheet(pages)->Ok_0.1.len() == 0,
        pages.len() >= 2 ==> sheet(pages)->Ok_0.1 == pages[1],
{
}

/// The pages of a job are those of its sides in the order in which they came, none lost and none
/// added, and each side is counted.
pub proof fn pages_come_in_order(j: JobModel, a: Seq<Seq<u8>>, b: Seq<Seq<u8>>)
    requires
        j.side < 250,
    ensures
        side_done(j, a).pages == j.pages + a,
        side_done(side_done(j, a), b).pages == j.pages + a + b,
        side_done(j, a).side == j.side + 1,
        side_done(j, a).job_url == j.job_url,
        side_done(j, a).scanner == j.scanner,
        side_done(j, a).long_receipt == j.long_receipt,
{
}

/// A job begins with no page and no side, and is over after one side of a receipt or two of a
/// sheet.
pub proof fn a_job_has_its_sides(s: ScannerModel, long_receipt: bool, j: JobModel)
    ensures
        new_job(s, long_receipt).pages.len() == 0,
        new_job(s, long_receipt).side == 0,
        new_job(s, long_receipt).scanner == s,
        new_job(s, long_receipt).long_receipt == long_receipt,
        goes_on(new_job(s, long_receipt)),
        j.long_receipt ==> (goes_on(j) <==> j.side == 0),
        !j.long_receipt ==> (goes_on(j) <==> j.side == 0 || j.side == 1),
{
}

/// A job is taken exactly where the scanner reports success and says where the job is, and its
/// pages are then fetched from there.
pub proof fn a_job_is_taken_where_the_scanner_says(
    j: JobModel,
    status: u16,
    location: Option<Seq<char>>,
)
    ensures
        refusal(status, location) is None <==> 200 <= status < 300 && location is Some,
        location matches Some(l) ==> {
            &&& taken(j, l).job_url == escl::job_url(j.scanner, l)
            &&& taken(j, l).pages == j.pages
            &&& taken(j, l).side == j.side
            &&& taken(j, l).long_receipt == j.long_receipt
            &&& taken(j, l).scanner == j.scanner
        },
        j.job_url.len() > 0 && j.job_url.last() != '/' ==> next_url(j) == j.job_url
            + "/NextDocument"@,
{
}

/// A refusal of the scanner has its own text.
pub proof fn refusals_are_told_apart(status: u16, location: Option<Seq<char>>)
    ensures
        status == 503 ==> refusal(status, location) == Some(
            "Scanner is busy. Load a page and try Scan again."@,
        ),
        status != 503 && !(200 <= status < 300) ==> refusal(status, location) == Some(
            "Scanner couldn't start the scan. Load a page and try again."@,
        ),
        200 <= status < 300 && location is None ==> refusal(status, location) == Some(
            "Scanner didn't return a scan job."@,
        ),
{
}

/// An image that came is shown on its side, counted with its length, and marks that side done; the
/// other side and the document stay.
pub proof fn an_image_is_counted_on_its_side(m: StateModel, image: Seq<u8>)
    requires
        image.len() <= usize::MAX,
    ensures
        ({
            let n = image_stored(m, true, image);
            &&& n.front_image == Some(image) && n.back_image == m.back_image
            &&& n.progress.front_done && n.progress.front_bytes == image.len()
            &&& n.progress.back_done == m.progress.back_done
            &&& n.progress.back_bytes == m.progress.back_bytes
            &&& n.progress.current_bytes == 0 && n.progress.expected_bytes == 0
            &&& n == (StateModel { progress: n.progress, front_image: n.front_image, ..m })
        }),
        ({
            let n = image_stored(m, false, image);
            &&& n.back_image == Some(image) && n.front_image == m.front_image
            &&& n.progress.back_done && n.progress.back_bytes == image.len()
            &&& n.progress.front_done == m.progress.front_done
            &&& n.progress.front_bytes == m.progress.front_bytes
            &&& n.progress.current_bytes == 0 && n.progress.expected_bytes == 0
            &&& n == (StateModel { progress: n.progress, back_image: n.back_image, ..m })
        }),
{
}

/// The beginning of a side is told, and counted from one; what came before stays.
pub proof fn a_side_begins_afresh(m: StateModel, j: JobModel)
    requires
        j.side < 2,
    ensures
        ({
            let n = side_begun(m, j);
            &&& n.progress.current_side == j.side + 1
            &&& n.progress.current_bytes == 0 && n.progress.expected_bytes == 0
            &&& n.progress.front_done == m.progress.front_done
            &&& n.progress.back_done == m.progress.back_done
            &&& n.progress.one_sided == m.progress.one_sided
            &&& n.progress.job_posted == m.progress.job_posted
            &&& n == (StateModel { progress: n.progress, status_line: n.status_line, ..m })
            &&& j.long_receipt ==> n.status_line == "Scanning receipt…"@
            &&& !j.long_receipt && j.side == 0 ==> n.status_line == "Scanning front…"@
            &&& !j.long_receipt && j.side == 1 ==> n.status_line == "Scanning back…"@
            &&& posted_state(m, j).progress.job_posted
            &&& posted_state(m, j) == (StateModel {
                progress: posted_state(m, j).progress,
                status_line: n.status_line,
                ..m
            })
        }),
        asked(j.long_receipt).one_sided == j.long_receipt,
        asked(j.long_receipt).back_done == j.long_receipt,
        !asked(j.long_receipt).front_done && !asked(j.long_receipt).job_posted,
{
}

/// Images that come leave everything alone but the two in view and the progress.
pub proof fn images_leave_the_document_alone(
    m: StateModel,
    side: u8,
    before: Seq<Seq<u8>>,
    images: Seq<Seq<u8>>,
)
    ensures
        ({
            let n = images_stored(m, side, before, images);
            &&& n == (StateModel {
                progress: n.progress,
                front_image: n.front_image,
                back_image: n.back_image,
                ..m
            })
            &&& n.progress.job_posted == m.progress.job_posted
            &&& n.progress.one_sided == m.progress.one_sided
            &&& n.progress.current_side == m.progress.current_side
            &&& before.len() > 0 && images.len() > 0 ==> n.back_image == Some(images.last())
            &&& before.len() > 0 ==> n.front_image == m.front_image
        }),
    decreases images.len(),
{
    if images.len() > 0 {
        images_leave_the_document_alone(m, side, before, images.drop_last());
    }
}

/// The pages of an answer with one more part: a part that is no image is left out.
pub open spec fn with_part(pages: Seq<Seq<u8>>, part: Seq<u8>) -> Seq<Seq<u8>> {
    if escl::image_like(part) {
        pages.push(part)
    } else {
        pages
    }
}

/// Every part of an answer that is an image becomes a page, at the end and whole; others change
/// nothing.
pub proof fn every_image_of_an_answer_is_a_page(pages: Seq<Seq<u8>>, part: Seq<u8>)
    ensures
        escl::image_like(part) ==> with_part(pages, part).len() == pages.len() + 1 && with_part(
            pages,
            part,
        ).last() == part && with_part(pages, part).drop_last() == pages,
        !escl::image_like(part) ==> with_part(pages, part) == pages,
{
    assert(pages.push(part).drop_last() =~= pages);
}

/// The next page is asked for under the job's URL, with one slash between, however many the URL
/// ends in.
pub proof fn one_slash_leads_to_the_next_page(j: JobModel, base: Seq<char>, slashes: nat)
    requires
        base.len() > 0,
        base.last() != '/',
        j.job_url == base + Seq::new(slashes, |i: int| '/'),
    ensures
        next_url(j) == base + "/NextDocument"@,
    decreases slashes,
{
    lemma_slashes_off(base, slashes);
}

proof fn lemma_slashes_off(base: Seq<char>, slashes: nat)
    requires
        base.len() > 0,
        base.last() != '/',
    ensures
        text::strip_back(base + Seq::new(slashes, |i: int| '/'), Strip::Only('/')) == base,
    decreases slashes,
{
    let s = base + Seq::new(slashes, |i: int| '/');
    if slashes == 0 {
        assert(s =~= base);
    } else {
        assert(s.last() == '/');
        assert(s.drop_last() =~= base + Seq::new((slashes - 1) as nat, |i: int| '/'));
        lemma_slashes_off(base, (slashes - 1) as nat);
    }
}

} // verus!
