//! The PDF file of a document: what it holds, and how it is made to fit in an email.

use std::sync::Arc;

use vstd::prelude::*;

use crate::error::{AppError, AppResult, ErrorModel};
use crate::images;
use crate::images::{PixelModel, Pixels};
use crate::number;
use crate::state;

verus! {

/// What a mailbox takes.
pub const EMAIL_MAX_BYTES: usize = 5 * 1024 * 1024;

/// The resolution under which no page is laid out.
pub const MIN_DPI: u16 = 72;

/// A page of a PDF file: its image, the size of that in pixels, and the numbers of its three
/// objects.
#[derive(Debug)]
pub struct PdfPage {
    pub image: Arc<Vec<u8>>,
    pub width: u32,
    pub height: u32,
    pub page_id: i32,
    pub content_id: i32,
    pub image_id: i32,
}

/// What a `PdfPage` says.
#[verifier::ext_equal]
pub struct PageModel {
    pub image: Seq<u8>,
    pub width: u32,
    pub height: u32,
    pub page_id: i32,
    pub content_id: i32,
    pub image_id: i32,
}

impl View for PdfPage {
    type V = PageModel;

    open spec fn view(&self) -> PageModel {
        PageModel {
            image: self.image@,
            width: self.width,
            height: self.height,
            page_id: self.page_id,
            content_id: self.content_id,
            image_id: self.image_id,
        }
    }
}

/// The number of the catalog of every PDF file.
pub const CATALOG_ID: i32 = 1;

/// The number of the page tree of every PDF file.
pub const PAGES_ID: i32 = 2;

/// A PDF file to be written: its pages in order, and their resolution.
#[derive(Debug)]
pub struct PdfPlan {
    pub dpi: u16,
    pub pages: Vec<PdfPage>,
}

/// What a `PdfPlan` says.
#[verifier::ext_equal]
pub struct PlanModel {
    pub dpi: u16,
    pub pages: Seq<PageModel>,
}

/// The views of a list of pages.
pub open spec fn pages_of(v: Seq<PdfPage>) -> Seq<PageModel> {
    v.map_values(|p: PdfPage| p@)
}

impl View for PdfPlan {
    type V = PlanModel;

    open spec fn view(&self) -> PlanModel {
        PlanModel { dpi: self.dpi, pages: pages_of(self.pages@) }
    }
}

/// The pages that hold anything.
pub open spec fn present(pages: Seq<Seq<u8>>) -> Seq<Seq<u8>> {
    pages.filter(|p: Seq<u8>| p.len() > 0)
}

/// The page after `n` others, with its objects numbered on from theirs.
pub open spec fn page_after(n: nat, image: Seq<u8>, size: (u32, u32)) -> PageModel {
    PageModel {
        image,
        width: size.0,
        height: size.1,
        page_id: (3 + 3 * n) as i32,
        content_id: (4 + 3 * n) as i32,
        image_id: (5 + 3 * n) as i32,
    }
}

/// The pages of a PDF file of images, or the text of the first error in reading one.
pub open spec fn laid_out(images: Seq<Seq<u8>>) -> Result<Seq<PageModel>, Seq<char>>
    decreases images.len(),
{
    if images.len() == 0 {
        Ok(Seq::empty())
    } else {
        match laid_out(images.drop_last()) {
            Ok(before) => match images::header_size(images.last()) {
                Ok(size) => Ok(before.push(page_after(before.len(), images.last(), size))),
                Err(e) => Err(e),
            },
            Err(e) => Err(e),
        }
    }
}

/// The resolution at which pages are laid out.
pub open spec fn layout_dpi(dpi: u16) -> u16 {
    if dpi < MIN_DPI {
        MIN_DPI
    } else {
        dpi
    }
}

/// What a PDF file of scanned pages holds.
pub open spec fn planned(pages: Seq<Seq<u8>>, dpi: u16) -> Result<PlanModel, ErrorModel> {
    if present(pages).len() == 0 {
        Err(ErrorModel::Pdf("no scanned pages to save"@))
    } else {
        match laid_out(present(pages)) {
            Ok(p) => Ok(PlanModel { dpi: layout_dpi(dpi), pages: p }),
            Err(e) => Err(ErrorModel::Image(e)),
        }
    }
}

/// The view of a plan or a failure.
pub open spec fn plan_of(r: AppResult<PdfPlan>) -> Result<PlanModel, ErrorModel> {
    match r {
        Ok(p) => Ok(p@),
        Err(e) => Err(e@),
    }
}

/// The pages that hold anything are few enough to number their objects.
pub open spec fn numbered(pages: Seq<Seq<u8>>) -> bool {
    3 * present(pages).len() + 3 <= i32::MAX
}

proof fn lemma_laid_out_len(images: Seq<Seq<u8>>)
    ensures
        laid_out(images) matches Ok(p) ==> p.len() == images.len(),
    decreases images.len(),
{
    if images.len() > 0 {
        lemma_laid_out_len(images.drop_last());
    }
}

proof fn lemma_error_stays(images: Seq<Seq<u8>>, n: int)
    requires
        0 <= n <= images.len(),
        laid_out(images.take(n)) is Err,
    ensures
        laid_out(images) == laid_out(images.take(n)),
    decreases images.len() - n,
{
    if n == images.len() {
        assert(images.take(n) =~= images);
    } else {
        assert(images.take(n + 1).drop_last() =~= images.take(n));
        lemma_error_stays(images, n + 1);
    }
}

/// Handles on the pages that hold anything.
pub fn present_pages(pages: &Vec<Arc<Vec<u8>>>) -> (r: Vec<Arc<Vec<u8>>>)
    ensures
        state::images_of(r@) == present(state::images_of(pages@)),
{
    let ghost all = state::images_of(pages@);
    let mut out: Vec<Arc<Vec<u8>>> = Vec::new();
    let mut i: usize = 0;
    proof {
        reveal(Seq::filter);
        assert(present(all.take(0)) =~= state::images_of(out@));
    }
    while i < pages.len()
        invariant
            i <= pages@.len(),
            all == state::images_of(pages@),
            state::images_of(out@) == present(all.take(i as int)),
        decreases pages@.len() - i,
    {
        proof {
            reveal(Seq::filter);
            assert(all.take(i + 1).drop_last() =~= all.take(i as int));
            assert(all.take(i + 1).last() == pages@[i as int]@);
        }
        if pages[i].len() > 0 {
            let ghost before = out@;
            out.push(images::share(&pages[i]));
            assert(state::images_of(out@) =~= state::images_of(before).push(all[i as int]));
        }
        i += 1;
    }
    assert(all.take(i as int) =~= all);
    out
}

/// What the PDF file of scanned pages holds.
pub fn pages_to_pdf(pages: &Vec<Arc<Vec<u8>>>, dpi: u16) -> (r: AppResult<PdfPlan>)
    requires
        numbered(state::images_of(pages@)),
    ensures
        plan_of(r) == planned(state::images_of(pages@), dpi),
{
    let found = present_pages(pages);
    let ghost all = state::images_of(found@);
    assert(all.len() == found@.len());
    if found.len() == 0 {
        return Err(AppError::Pdf("no scanned pages to save".to_owned()));
    }
    let mut out: Vec<PdfPage> = Vec::new();
    let mut next: i32 = 3;
    let mut i: usize = 0;
    assert(all.take(0) =~= Seq::empty());
    assert(pages_of(out@) =~= Seq::empty());
    while i < found.len()
        invariant
            i <= found@.len(),
            3 * found@.len() + 3 <= i32::MAX,
            all == state::images_of(found@),
            out@.len() == i,
            next == 3 + 3 * i,
            laid_out(all.take(i as int)) == Ok::<Seq<PageModel>, Seq<char>>(pages_of(out@)),
            all == present(state::images_of(pages@)),
            all.len() > 0,
        decreases found@.len() - i,
    {
        proof {
            assert(all.take(i + 1).drop_last() =~= all.take(i as int));
            assert(all.take(i + 1).last() == found@[i as int]@);
        }
        match images::read_size(found[i].as_slice()) {
            Ok((width, height)) => {
                let ghost before = out@;
                let page = PdfPage {
                    image: images::share(&found[i]),
                    width,
                    height,
                    page_id: next,
                    content_id: next + 1,
                    image_id: next + 2,
                };
                out.push(page);
                assert(pages_of(out@) =~= pages_of(before).push(page@));
                next = next + 3;
            },
            Err(e) => {
                proof {
                    lemma_error_stays(all, i + 1);
                }
                return Err(AppError::Image(e));
            },
        }
        i += 1;
    }
    assert(all.take(i as int) =~= all);
    Ok(
        PdfPlan {
            dpi: if dpi < MIN_DPI {
                MIN_DPI
            } else {
                dpi
            },
            pages: out,
        },
    )
}

/// No more pages hold anything than there are.
pub proof fn lemma_present_len(pages: Seq<Seq<u8>>)
    ensures
        present(pages).len() <= pages.len(),
    decreases pages.len(),
{
    reveal(Seq::filter);
    if pages.len() > 0 {
        lemma_present_len(pages.drop_last());
    }
}

/// A PDF file has a page for every scanned page that holds anything, in order, and no two of its
/// objects have the same number.
pub proof fn every_page_is_saved(pages: Seq<Seq<u8>>, dpi: u16, i: int, j: int)
    requires
        planned(pages, dpi) is Ok,
        numbered(pages),
        0 <= i < j < present(pages).len(),
    ensures
        ({
            let plan = planned(pages, dpi)->Ok_0.pages;
            &&& plan.len() == present(pages).len()
            &&& plan[i].image == present(pages)[i]
            &&& plan[j].image == present(pages)[j]
            &&& PAGES_ID < plan[i].page_id < plan[i].content_id < plan[i].image_id
                < plan[j].page_id < plan[j].content_id < plan[j].image_id
        }),
{
    lemma_laid_out(present(pages), i);
    lemma_laid_out(present(pages), j);
    lemma_laid_out_len(present(pages));
}

proof fn lemma_present_settles(pages: Seq<Seq<u8>>)
    ensures
        present(present(pages)) == present(pages),
    decreases pages.len(),
{
    reveal(Seq::filter);
    if pages.len() > 0 {
        let before = pages.drop_last();
        lemma_present_settles(before);
        if pages.last().len() > 0 {
            assert(present(pages) == present(before).push(pages.last()));
            assert(present(pages).drop_last() =~= present(before));
        }
    }
}

/// Empty pages never count, and a resolution under the least acts as the least: a PDF file of the
/// pages that hold anything, at the resolution of its layout, is the same file, or fails alike.
pub proof fn empty_pages_never_count(pages: Seq<Seq<u8>>, dpi: u16)
    ensures
        planned(present(pages), layout_dpi(dpi)) == planned(pages, dpi),
        numbered(present(pages)) == numbered(pages),
        to_shrink(present(pages)) == to_shrink(pages),
{
    lemma_present_settles(pages);
}

proof fn lemma_laid_out(images: Seq<Seq<u8>>, i: int)
    requires
        laid_out(images) is Ok,
        0 <= i < images.len(),
    ensures
        images::header_size(images[i]) is Ok,
        laid_out(images)->Ok_0[i] == page_after(
            i as nat,
            images[i],
            images::header_size(images[i])->Ok_0,
        ),
    decreases images.len(),
{
    lemma_laid_out_len(images);
    lemma_laid_out_len(images.drop_last());
    if i < images.len() - 1 {
        lemma_laid_out(images.drop_last(), i);
    }
}

/// The number of pages that the page tree tells.
pub fn page_count(plan: &PdfPlan) -> (r: i32)
    ensures
        r == (if plan.pages@.len() <= i32::MAX {
            plan.pages@.len() as int
        } else {
            0
        }),
{
    let n: usize = plan.pages.len();
    if n <= 0x7FFF_FFFF {
        n as i32
    } else {
        0
    }
}

/// The pixels of images, or the text of the first error in decoding one.
pub open spec fn all_decoded(images: Seq<Seq<u8>>) -> Result<Seq<PixelModel>, Seq<char>>
    decreases images.len(),
{
    if images.len() == 0 {
        Ok(Seq::empty())
    } else {
        match all_decoded(images.drop_last()) {
            Ok(before) => match images::decoded(images.last()) {
                Ok(p) => Ok(before.push(p)),
                Err(e) => Err(e),
            },
            Err(e) => Err(e),
        }
    }
}

/// The pixels of the pages that hold anything.
pub open spec fn to_shrink(pages: Seq<Seq<u8>>) -> Result<Seq<PixelModel>, ErrorModel> {
    match all_decoded(present(pages)) {
        Ok(p) => if p.len() == 0 {
            Err(ErrorModel::Pdf("no scanned pages to save"@))
        } else {
            Ok(p)
        },
        Err(e) => Err(ErrorModel::Image(e)),
    }
}

/// The views of a list of pixels.
pub open spec fn pixels_list(v: Seq<Pixels>) -> Seq<PixelModel> {
    v.map_values(|p: Pixels| p@)
}

proof fn lemma_decode_error_stays(images: Seq<Seq<u8>>, n: int)
    requires
        0 <= n <= images.len(),
        all_decoded(images.take(n)) is Err,
    ensures
        all_decoded(images) == all_decoded(images.take(n)),
    decreases images.len() - n,
{
    if n == images.len() {
        assert(images.take(n) =~= images);
    } else {
        assert(images.take(n + 1).drop_last() =~= images.take(n));
        lemma_decode_error_stays(images, n + 1);
    }
}

/// The pixels of the pages that hold anything.
pub fn decode_pages(pages: &Vec<Arc<Vec<u8>>>) -> (r: AppResult<Vec<Pixels>>)
    ensures
        match r {
            Ok(p) => to_shrink(state::images_of(pages@)) == Ok::<Seq<PixelModel>, ErrorModel>(
                pixels_list(p@),
            ),
            Err(e) => to_shrink(state::images_of(pages@)) == Err::<Seq<PixelModel>, ErrorModel>(
                e@,
            ),
        },
        r matches Ok(p) ==> forall|i: int|
            0 <= i < p@.len() ==> images::filled(#[trigger] pixels_list(p@)[i]),
{
    let found = present_pages(pages);
    let ghost all = state::images_of(found@);
    let mut out: Vec<Pixels> = Vec::new();
    let mut i: usize = 0;
    assert(all.take(0) =~= Seq::empty());
    assert(pixels_list(out@) =~= Seq::empty());
    while i < found.len()
        invariant
            i <= found@.len(),
            all == state::images_of(found@),
            all == present(state::images_of(pages@)),
            all_decoded(all.take(i as int)) == Ok::<Seq<PixelModel>, Seq<char>>(
                pixels_list(out@),
            ),
            forall|j: int| 0 <= j < out@.len() ==> images::filled(#[trigger] pixels_list(out@)[j]),
        decreases found@.len() - i,
    {
        proof {
            assert(all.take(i + 1).drop_last() =~= all.take(i as int));
            assert(all.take(i + 1).last() == found@[i as int]@);
        }
        match images::decode(found[i].as_slice()) {
            Ok(p) => {
                let ghost before = pixels_list(out@);
                out.push(p);
                assert(pixels_list(out@) =~= before.push(p@));
            },
            Err(e) => {
                proof {
                    lemma_decode_error_stays(all, i + 1);
                }
                return Err(AppError::Image(e));
            },
        }
        i += 1;
    }
    assert(all.take(i as int) =~= all);
    if out.len() == 0 {
        return Err(AppError::Pdf("no scanned pages to save".to_owned()));
    }
    Ok(out)
}

/// A size with a side over which no page can be scaled. No JPEG file has such a side.
pub open spec fn too_long(size: (u32, u32)) -> bool {
    size.0 > images::MAX_SIDE || size.1 > images::MAX_SIDE
}

/// The JPEG file of a page at a size and a quality.
pub open spec fn recompressed(p: PixelModel, size: (u32, u32), quality: u8) -> Result<
    Seq<u8>,
    Seq<char>,
> {
    if size.0 == p.width && size.1 == p.height {
        images::jpeg(p, quality)
    } else if too_long(size) {
        images::no_file(size.0, size.1)
    } else {
        images::jpeg(images::scaled(p, size.0, size.1), quality)
    }
}

/// The JPEG files of pages at sizes and a quality, or the text of the first error.
pub open spec fn all_recompressed(
    pages: Seq<PixelModel>,
    sizes: Seq<(u32, u32)>,
    quality: u8,
) -> Result<Seq<Seq<u8>>, Seq<char>>
    decreases pages.len(),
{
    if pages.len() == 0 {
        Ok(Seq::empty())
    } else {
        match all_recompressed(pages.drop_last(), sizes, quality) {
            Ok(before) => match recompressed(pages.last(), sizes[pages.len() - 1], quality) {
                Ok(b) => Ok(before.push(b)),
                Err(e) => Err(e),
            },
            Err(e) => Err(e),
        }
    }
}

proof fn lemma_encode_error_stays(
    pages: Seq<PixelModel>,
    sizes: Seq<(u32, u32)>,
    quality: u8,
    n: int,
)
    requires
        0 <= n <= pages.len(),
        all_recompressed(pages.take(n), sizes, quality) is Err,
    ensures
        all_recompressed(pages, sizes, quality) == all_recompressed(pages.take(n), sizes, quality),
    decreases pages.len() - n,
{
    if n == pages.len() {
        assert(pages.take(n) =~= pages);
    } else {
        assert(pages.take(n + 1).drop_last() =~= pages.take(n));
        lemma_encode_error_stays(pages, sizes, quality, n + 1);
    }
}

/// A page that can be made into a JPEG file of a size, or be refused: it has that size, the size is
/// too long for any file, or the page can be scaled to it.
pub open spec fn recompressible(p: PixelModel, size: (u32, u32)) -> bool {
    &&& images::filled(p)
    &&& {
        ||| size.0 == p.width && size.1 == p.height
        ||| too_long(size)
        ||| images::scalable(p, size.0, size.1)
    }
}

fn refuse_size(size: (u32, u32)) -> (r: String)
    ensures
        r@ == images::size_refused(size.0, size.1),
{
    let mut s = "Format error encoding Jpeg:\nInvalid image size (".to_owned();
    s.append(number::decimal_text(size.0 as u128).as_str());
    s.append(" x ");
    s.append(number::decimal_text(size.1 as u128).as_str());
    s.append(") to encode as JPEG: width and height must be >= 1 and <= 65535");
    s
}

fn recompress(p: &Pixels, size: (u32, u32), quality: u8) -> (r: Result<Vec<u8>, String>)
    requires
        recompressible(p@, size),
    ensures
        images::file_of(r) == recompressed(p@, size, quality),
{
    if size.0 == p.width && size.1 == p.height {
        images::encode(p, quality)
    } else if size.0 > images::MAX_SIDE || size.1 > images::MAX_SIDE {
        Err(refuse_size(size))
    } else {
        images::encode(&images::scale(p, size.0, size.1), quality)
    }
}

/// The JPEG files of pages at the sizes and the quality.
pub fn encode_pages(pages: &Vec<Pixels>, sizes: &Vec<(u32, u32)>, quality: u8) -> (r: AppResult<
    Vec<Arc<Vec<u8>>>,
>)
    requires
        sizes@.len() == pages@.len(),
        forall|i: int|
            0 <= i < pages@.len() ==> recompressible(
                #[trigger] pixels_list(pages@)[i],
                sizes@[i],
            ),
    ensures
        match r {
            Ok(b) => all_recompressed(pixels_list(pages@), sizes@, quality) == Ok::<
                Seq<Seq<u8>>,
                Seq<char>,
            >(state::images_of(b@)),
            Err(e) => all_recompressed(pixels_list(pages@), sizes@, quality) is Err && e@
                == ErrorModel::Image(
                all_recompressed(pixels_list(pages@), sizes@, quality)->Err_0,
            ),
        },
{
    let ghost all = pixels_list(pages@);
    let mut out: Vec<Arc<Vec<u8>>> = Vec::new();
    let mut i: usize = 0;
    assert(all.take(0) =~= Seq::empty());
    assert(state::images_of(out@) =~= Seq::empty());
    while i < pages.len()
        invariant
            i <= pages@.len(),
            sizes@.len() == pages@.len(),
            all == pixels_list(pages@),
            forall|j: int|
                0 <= j < pages@.len() ==> recompressible(#[trigger] all[j], sizes@[j]),
            all_recompressed(all.take(i as int), sizes@, quality) == Ok::<
                Seq<Seq<u8>>,
                Seq<char>,
            >(state::images_of(out@)),
        decreases pages@.len() - i,
    {
        proof {
            assert(all.take(i + 1).drop_last() =~= all.take(i as int));
            assert(all.take(i + 1).last() == all[i as int]);
            assert(all[i as int] == pages@[i as int]@);
        }
        match recompress(&pages[i], sizes[i], quality) {
            Ok(b) => {
                let ghost before = out@;
                let b = Arc::new(b);
                out.push(b);
                assert(state::images_of(out@) =~= state::images_of(before).push(b@));
            },
            Err(e) => {
                proof {
                    lemma_encode_error_stays(all, sizes@, quality, i + 1);
                }
                return Err(AppError::Image(e));
            },
        }
        i += 1;
    }
    assert(all.take(i as int) =~= all);
    Ok(out)
}

/// The search for a PDF file that fits in an email: the shortest file so far, the quality of the
/// next try, and the tries that are behind.
#[derive(Debug)]
pub struct EmailFit {
    pub best: Vec<u8>,
    pub quality: u8,
    pub round: u8,
}

/// What an `EmailFit` says.
#[verifier::ext_equal]
pub struct FitModel {
    pub best: Seq<u8>,
    pub quality: u8,
    pub round: u8,
}

impl View for EmailFit {
    type V = FitModel;

    open spec fn view(&self) -> FitModel {
        FitModel { best: self.best@, quality: self.quality, round: self.round }
    }
}

/// The tries after which the search ends.
pub const ROUNDS: u8 = 10;

/// A file that a mailbox takes.
pub open spec fn fits(file: Seq<u8>) -> bool {
    file.len() <= EMAIL_MAX_BYTES
}

/// The search that begins with the file in full quality.
pub open spec fn fit_start(full: Seq<u8>) -> FitModel {
    FitModel { best: full, quality: 78, round: 0 }
}

/// The search goes on: nothing fits yet, and a try is left.
pub open spec fn searching(f: FitModel) -> bool {
    !fits(f.best) && f.round < ROUNDS
}

/// The quality after the next: lower by eight, but never under 38.
pub open spec fn next_quality(q: u8) -> u8 {
    if q >= 46 {
        (q - 8) as u8
    } else {
        38
    }
}

/// The search after one more try.
pub open spec fn tried(f: FitModel, file: Seq<u8>) -> FitModel {
    FitModel {
        best: if file.len() < f.best.len() {
            file
        } else {
            f.best
        },
        quality: next_quality(f.quality),
        round: (f.round + 1) as u8,
    }
}

/// What the search gives in the end.
pub open spec fn fitted(f: FitModel) -> Result<Seq<u8>, ErrorModel> {
    if fits(f.best) {
        Ok(f.best)
    } else {
        Err(
            ErrorModel::Pdf(
                "Couldn't get this PDF under 5 MB (still "@ + number::megabytes(
                    f.best.len() as nat,
                ) + " MB)."@,
            ),
        )
    }
}

impl EmailFit {
    /// The search that begins with the file in full quality; where that one could not be made, its
    /// failure.
    pub fn start(full: AppResult<Vec<u8>>) -> (r: AppResult<EmailFit>)
        ensures
            match full {
                Ok(file) => r matches Ok(f) && f@ == fit_start(file@),
                Err(e) => r == Err::<EmailFit, AppError>(e),
            },
    {
        match full {
            Ok(file) => Ok(EmailFit { best: file, quality: 78, round: 0 }),
            Err(e) => Err(e),
        }
    }

    /// The search goes on: the pages are to be tried at `self.quality`, each smaller than before.
    pub fn goes_on(&self) -> (r: bool)
        ensures
            r == searching(self@),
    {
        self.best.len() > EMAIL_MAX_BYTES && self.round < ROUNDS
    }

    /// A file was made at the quality that was asked for.
    pub fn offer(&mut self, file: Vec<u8>)
        requires
            searching(old(self)@),
        ensures
            final(self)@ == tried(old(self)@, file@),
    {
        if file.len() < self.best.len() {
            self.best = file;
        }
        self.quality =
        if self.quality >= 46 {
            self.quality - 8
        } else {
            38
        };
        self.round = self.round + 1;
    }

    /// The file that fits, or the failure to find one.
    pub fn finish(self) -> (r: AppResult<Vec<u8>>)
        ensures
            match r {
                Ok(file) => fitted(self@) == Ok::<Seq<u8>, ErrorModel>(file@),
                Err(e) => fitted(self@) == Err::<Seq<u8>, ErrorModel>(e@),
            },
    {
        let n: usize = self.best.len();
        if n <= EMAIL_MAX_BYTES {
            Ok(self.best)
        } else {
            let mut s = "Couldn't get this PDF under 5 MB (still ".to_owned();
            s.append(number::megabytes_text(n as u64).as_str());
            s.append(" MB).");
            Err(AppError::Pdf(s))
        }
    }
}

/// The search after a list of tries.
pub open spec fn after_tries(f: FitModel, files: Seq<Seq<u8>>) -> FitModel
    decreases files.len(),
{
    if files.len() == 0 {
        f
    } else {
        let before = after_tries(f, files.drop_last());
        if searching(before) {
            tried(before, files.last())
        } else {
            before
        }
    }
}

/// What is emailed never passes the limit of a mailbox, and is the file in full quality or one of
/// the tries.
pub proof fn emails_fit_the_mailbox(full: Seq<u8>, files: Seq<Seq<u8>>)
    ensures
        ({
            let end = after_tries(fit_start(full), files);
            &&& fitted(end) matches Ok(file) ==> file.len() <= EMAIL_MAX_BYTES && (file == full
                || files.contains(file))
            &&& end.best.len() <= full.len()
        }),
{
    lemma_best(full, files);
}

proof fn lemma_best(full: Seq<u8>, files: Seq<Seq<u8>>)
    ensures
        ({
            let end = after_tries(fit_start(full), files);
            &&& end.best == full || files.contains(end.best)
            &&& end.best.len() <= full.len()
            &&& end.round <= files.len()
            &&& end.round <= ROUNDS
            &&& 38 <= end.quality <= 78
        }),
    decreases files.len(),
{
    if files.len() > 0 {
        let t = files.drop_last();
        lemma_best(full, t);
        let before = after_tries(fit_start(full), t);
        if before.best != full {
            let i = choose|i: int| 0 <= i < t.len() && t[i] == before.best;
            assert(files[i] == before.best);
        }
        assert(files[files.len() - 1] == files.last());
    }
}

/// What is emailed, where the file in full quality was made or not, after a list of tries.
pub open spec fn emailed(full: Result<Seq<u8>, ErrorModel>, files: Seq<Seq<u8>>) -> Result<
    Seq<u8>,
    ErrorModel,
> {
    match full {
        Ok(file) => fitted(after_tries(fit_start(file), files)),
        Err(e) => Err(e),
    }
}

/// A file that fits as it is goes out as it is, and where none could be made, its failure is the
/// failure of the email.
pub proof fn a_small_file_stays_whole(full: Result<Seq<u8>, ErrorModel>, files: Seq<Seq<u8>>)
    requires
        full matches Ok(file) ==> fits(file),
    ensures
        emailed(full, files) == full,
{
    if let Ok(file) = full {
        lemma_no_try(file, files);
    }
}

proof fn lemma_no_try(full: Seq<u8>, files: Seq<Seq<u8>>)
    requires
        fits(full),
    ensures
        after_tries(fit_start(full), files) == fit_start(full),
    decreases files.len(),
{
    if files.len() > 0 {
        lemma_no_try(full, files.drop_last());
    }
}

/// The search ends after its tries, and the quality stays between 38 and 78.
pub proof fn the_search_ends(full: Seq<u8>, files: Seq<Seq<u8>>)
    requires
        files.len() >= ROUNDS,
    ensures
        !searching(after_tries(fit_start(full), files)),
        38 <= after_tries(fit_start(full), files).quality <= 78,
{
    lemma_best(full, files);
    lemma_rounds(full, files);
}

proof fn lemma_rounds(full: Seq<u8>, files: Seq<Seq<u8>>)
    ensures
        ({
            let end = after_tries(fit_start(full), files);
            searching(end) ==> end.round == files.len()
        }),
    decreases files.len(),
{
    if files.len() > 0 {
        lemma_rounds(full, files.drop_last());
        lemma_best(full, files.drop_last());
    }
}

/// The pages that hold anything of two documents put together are those of the one and then those
/// of the other; of a single page they are that page, unless it is empty.
pub proof fn present_pages_add_up(a: Seq<Seq<u8>>, b: Seq<Seq<u8>>, page: Seq<u8>)
    ensures
        present(a + b) == present(a) + present(b),
        page.len() > 0 ==> present(seq![page]) == seq![page],
        page.len() == 0 ==> present(seq![page]).len() == 0,
    decreases b.len(),
{
    reveal(Seq::filter);
    assert(seq![page].drop_last() =~= Seq::<Seq<u8>>::empty());
    assert(seq![page].last() == page);
    assert(present(Seq::<Seq<u8>>::empty()) =~= Seq::empty());
    assert(present(seq![page]) =~= (if page.len() > 0 {
        seq![page]
    } else {
        Seq::empty()
    }));
    if b.len() == 0 {
        assert(a + b =~= a);
        assert(present(a) + present(b) =~= present(a));
    } else {
        present_pages_add_up(a, b.drop_last(), page);
        assert((a + b).drop_last() =~= a + b.drop_last());
        assert((a + b).last() == b.last());
        assert(present(a + b) =~= present(a) + present(b));
    }
}

/// A document without empty pages is kept whole.
pub proof fn full_documents_are_whole(pages: Seq<Seq<u8>>)
    requires
        forall|i: int| 0 <= i < pages.len() ==> (#[trigger] pages[i]).len() > 0,
    ensures
        present(pages) == pages,
    decreases pages.len(),
{
    reveal(Seq::filter);
    if pages.len() > 0 {
        let t = pages.drop_last();
        assert forall|i: int| 0 <= i < t.len() implies (#[trigger] t[i]).len() > 0 by {
            assert(t[i] == pages[i]);
        }
        full_documents_are_whole(t);
        assert(pages[pages.len() - 1] == pages.last());
        assert(pages =~= t.push(pages.last()));
    }
}

/// A PDF file is laid out at the resolution of the scan, and at 72 dpi where that is lower.
pub proof fn pages_are_laid_out_at_their_resolution(pages: Seq<Seq<u8>>, dpi: u16)
    requires
        planned(pages, dpi) is Ok,
    ensures
        dpi >= 72 ==> planned(pages, dpi)->Ok_0.dpi == dpi,
        dpi < 72 ==> planned(pages, dpi)->Ok_0.dpi == 72,
{
}

/// Every page of a PDF file has the size of its image, and its objects follow those of the page
/// before without a gap, from the third on.
pub proof fn a_page_has_the_size_of_its_image(pages: Seq<Seq<u8>>, dpi: u16, i: int)
    requires
        planned(pages, dpi) is Ok,
        numbered(pages),
        0 <= i < present(pages).len(),
    ensures
        ({
            let plan = planned(pages, dpi)->Ok_0.pages;
            &&& plan.len() == present(pages).len()
            &&& plan[i].image == present(pages)[i]
            &&& images::header_size(present(pages)[i]) == Ok::<(u32, u32), Seq<char>>(
                (plan[i].width, plan[i].height),
            )
            &&& plan[i].page_id == 3 + 3 * i
            &&& plan[i].content_id == plan[i].page_id + 1
            &&& plan[i].image_id == plan[i].page_id + 2
        }),
{
    lemma_laid_out(present(pages), i);
    lemma_laid_out_len(present(pages));
}

/// A PDF file is made wherever there is a page and the size of each can be read; else the first
/// that cannot be read is told, or that there is none.
pub proof fn a_pdf_is_made_where_pages_can_be_read(pages: Seq<Seq<u8>>, dpi: u16)
    ensures
        planned(pages, dpi) is Ok <==> present(pages).len() > 0 && forall|i: int|
            0 <= i < present(pages).len() ==> images::header_size(
                #[trigger] present(pages)[i],
            ) is Ok,
        present(pages).len() == 0 ==> planned(pages, dpi) == Err::<PlanModel, ErrorModel>(
            ErrorModel::Pdf("no scanned pages to save"@),
        ),
        forall|n: int|
            0 <= n < present(pages).len() && images::header_size(
                #[trigger] present(pages)[n],
            ) is Err && (forall|j: int|
                0 <= j < n ==> images::header_size(#[trigger] present(pages)[j]) is Ok)
                ==> planned(pages, dpi) == Err::<PlanModel, ErrorModel>(
                ErrorModel::Image(images::header_size(present(pages)[n])->Err_0),
            ),
{
    let all = present(pages);
    lemma_layout(all);
}

proof fn lemma_layout(all: Seq<Seq<u8>>)
    ensures
        laid_out(all) is Ok <==> forall|i: int|
            0 <= i < all.len() ==> images::header_size(#[trigger] all[i]) is Ok,
        forall|n: int|
            0 <= n < all.len() && images::header_size(#[trigger] all[n]) is Err && (forall|j: int|
                0 <= j < n ==> images::header_size(#[trigger] all[j]) is Ok) ==> laid_out(all)
                == Err::<Seq<PageModel>, Seq<char>>(images::header_size(all[n])->Err_0),
    decreases all.len(),
{
    if all.len() > 0 {
        let t = all.drop_last();
        lemma_layout(t);
        assert(all[all.len() - 1] == all.last());
        assert forall|i: int| 0 <= i < t.len() implies #[trigger] t[i] == all[i] by {}
        if laid_out(all) is Ok {
            assert forall|i: int| 0 <= i < all.len() implies images::header_size(
                #[trigger] all[i],
            ) is Ok by {
                if i < t.len() {
                    assert(t[i] == all[i]);
                }
            }
        }
        assert forall|n: int|
            0 <= n < all.len() && images::header_size(#[trigger] all[n]) is Err && (forall|j: int|
                0 <= j < n ==> images::header_size(#[trigger] all[j]) is Ok) implies laid_out(all)
            == Err::<Seq<PageModel>, Seq<char>>(images::header_size(all[n])->Err_0) by {
            if n < t.len() {
                assert(t[n] == all[n]);
                assert forall|j: int| 0 <= j < n implies images::header_size(
                    #[trigger] t[j],
                ) is Ok by {
                    assert(t[j] == all[j]);
                }
            } else {
                assert forall|j: int| 0 <= j < t.len() implies images::header_size(
                    #[trigger] t[j],
                ) is Ok by {
                    assert(t[j] == all[j]);
                }
            }
        }
    }
}

proof fn lemma_decoding(all: Seq<Seq<u8>>)
    ensures
        all_decoded(all) matches Ok(p) ==> p.len() == all.len() && forall|i: int|
            0 <= i < all.len() ==> images::decoded(#[trigger] all[i]) == Ok::<
                PixelModel,
                Seq<char>,
            >(p[i]),
        all_decoded(all) is Ok <==> forall|i: int|
            0 <= i < all.len() ==> images::decoded(#[trigger] all[i]) is Ok,
        all_decoded(all) matches Err(e) ==> exists|i: int|
            0 <= i < all.len() && images::decoded(#[trigger] all[i]) == Err::<
                PixelModel,
                Seq<char>,
            >(e),
    decreases all.len(),
{
    if all.len() > 0 {
        let t = all.drop_last();
        lemma_decoding(t);
        assert(all[all.len() - 1] == all.last());
        assert forall|i: int| 0 <= i < t.len() implies #[trigger] t[i] == all[i] by {}
        if all_decoded(all) is Ok {
            let p = all_decoded(all)->Ok_0;
            assert forall|i: int| 0 <= i < all.len() implies images::decoded(#[trigger] all[i])
                == Ok::<PixelModel, Seq<char>>(p[i]) by {
                if i < t.len() {
                    assert(t[i] == all[i]);
                }
            }
        } else if all_decoded(t) is Err {
            let i = choose|i: int|
                0 <= i < t.len() && images::decoded(#[trigger] t[i]) == Err::<
                    PixelModel,
                    Seq<char>,
                >(all_decoded(t)->Err_0);
            assert(all[i] == t[i]);
        }
        if forall|i: int| 0 <= i < all.len() ==> images::decoded(#[trigger] all[i]) is Ok {
            assert forall|i: int| 0 <= i < t.len() implies images::decoded(#[trigger] t[i]) is Ok by {
                assert(t[i] == all[i]);
            }
        }
    }
}

/// Every page that holds anything is decoded for an email, each at its place and none besides, and
/// one that cannot be decoded fails the email.
pub proof fn every_page_is_decoded(pages: Seq<Seq<u8>>)
    ensures
        to_shrink(pages) matches Ok(p) ==> p.len() == present(pages).len() && forall|i: int|
            0 <= i < p.len() ==> images::decoded(#[trigger] present(pages)[i]) == Ok::<
                PixelModel,
                Seq<char>,
            >(p[i]),
        to_shrink(pages) is Ok <==> present(pages).len() > 0 && forall|i: int|
            0 <= i < present(pages).len() ==> images::decoded(#[trigger] present(pages)[i]) is Ok,
        present(pages).len() == 0 ==> to_shrink(pages) == Err::<Seq<PixelModel>, ErrorModel>(
            ErrorModel::Pdf("no scanned pages to save"@),
        ),
        present(pages).len() > 0 && to_shrink(pages) is Err ==> exists|i: int|
            0 <= i < present(pages).len() && images::decoded(#[trigger] present(pages)[i]) is Err
                && to_shrink(pages) == Err::<Seq<PixelModel>, ErrorModel>(
                ErrorModel::Image(images::decoded(present(pages)[i])->Err_0),
            ),
{
    lemma_decoding(present(pages));
}

/// A try for an email has a file for every page, each made of its own page: as it is where its
/// size stays, else scaled, at the quality of the try.
pub proof fn every_page_is_encoded(
    pages: Seq<PixelModel>,
    sizes: Seq<(u32, u32)>,
    quality: u8,
    i: int,
)
    requires
        all_recompressed(pages, sizes, quality) is Ok,
        0 <= i < pages.len(),
    ensures
        ({
            let files = all_recompressed(pages, sizes, quality)->Ok_0;
            &&& files.len() == pages.len()
            &&& sizes[i] == (pages[i].width, pages[i].height) ==> images::jpeg(pages[i], quality)
                == Ok::<Seq<u8>, Seq<char>>(files[i])
            &&& sizes[i] != (pages[i].width, pages[i].height) ==> images::jpeg(
                images::scaled(pages[i], sizes[i].0, sizes[i].1),
                quality,
            ) == Ok::<Seq<u8>, Seq<char>>(files[i])
        }),
    decreases pages.len(),
{
    let t = pages.drop_last();
    assert(pages[pages.len() - 1] == pages.last());
    if t.len() > 0 {
        every_page_is_encoded(
            t,
            sizes,
            quality,
            if i < t.len() {
                i
            } else {
                0
            },
        );
    }
    if i < t.len() {
        assert(t[i] == pages[i]);
    }
}

/// A try for an email is given up where the file of one of its pages cannot be made, and only
/// there.
pub proof fn a_try_fails_with_a_page(pages: Seq<PixelModel>, sizes: Seq<(u32, u32)>, quality: u8)
    ensures
        all_recompressed(pages, sizes, quality) is Ok <==> forall|i: int|
            0 <= i < pages.len() ==> recompressed(#[trigger] pages[i], sizes[i], quality) is Ok,
    decreases pages.len(),
{
    if pages.len() > 0 {
        let t = pages.drop_last();
        a_try_fails_with_a_page(t, sizes, quality);
        assert(pages[pages.len() - 1] == pages.last());
        assert forall|i: int| 0 <= i < t.len() implies #[trigger] t[i] == pages[i] by {}
        if all_recompressed(pages, sizes, quality) is Ok {
            assert forall|i: int| 0 <= i < pages.len() implies recompressed(
                #[trigger] pages[i],
                sizes[i],
                quality,
            ) is Ok by {
                if i < t.len() {
                    assert(t[i] == pages[i]);
                }
            }
        } else if forall|i: int|
            0 <= i < pages.len() ==> recompressed(#[trigger] pages[i], sizes[i], quality) is Ok {
            assert forall|i: int| 0 <= i < t.len() implies recompressed(
                #[trigger] t[i],
                sizes[i],
                quality,
            ) is Ok by {
                assert(t[i] == pages[i]);
            }
        }
    }
}

/// The search for an email keeps the shortest of the file in full quality and the files tried, and
/// goes on exactly while none fits and fewer than ten were tried; each try has a lower quality
/// than the one before, down to 38.
pub proof fn the_shortest_file_is_kept(f: FitModel, file: Seq<u8>)
    requires
        searching(f),
    ensures
        tried(f, file).best == f.best || tried(f, file).best == file,
        tried(f, file).best.len() <= f.best.len(),
        tried(f, file).best.len() <= file.len(),
        file.len() <= 5 * 1024 * 1024 ==> !searching(tried(f, file)) && fitted(tried(f, file))
            == Ok::<Seq<u8>, ErrorModel>(file),
        file.len() > 5 * 1024 * 1024 ==> (searching(tried(f, file)) <==> f.round + 1 < 10),
        tried(f, file).round == f.round + 1,
        46 <= f.quality ==> tried(f, file).quality == f.quality - 8,
        38 <= f.quality < 46 ==> tried(f, file).quality == 38,
{
}

/// An email fails only where the file in full quality and every file tried are too long for a
/// mailbox.
pub proof fn an_email_fails_only_for_its_size(full: Seq<u8>, files: Seq<Seq<u8>>, i: int)
    requires
        files.len() <= 10,
        fitted(after_tries(fit_start(full), files)) is Err,
        0 <= i < files.len(),
    ensures
        full.len() > 5 * 1024 * 1024,
        files[i].len() > 5 * 1024 * 1024,
        fit_start(full).quality == 78,
    decreases files.len(),
{
    let t = files.drop_last();
    lemma_best(full, t);
    lemma_rounds(full, t);
    lemma_best(full, files);
    let before = after_tries(fit_start(full), t);
    assert(before.best.len() > 5 * 1024 * 1024) by {
        assert(!fits(after_tries(fit_start(full), files).best));
    }
    if i < t.len() {
        assert(t[i] == files[i]);
        an_email_fails_only_for_its_size(full, t, i);
    } else {
        if !searching(before) {
            lemma_rounds_reached(full, t);
        }
        assert(searching(before));
    }
}

proof fn lemma_rounds_reached(full: Seq<u8>, files: Seq<Seq<u8>>)
    requires
        !fits(after_tries(fit_start(full), files).best),
        files.len() < ROUNDS,
    ensures
        searching(after_tries(fit_start(full), files)),
    decreases files.len(),
{
    lemma_best(full, files);
}

/// Where nothing is scanned there is nothing to shrink, and the user is told.
pub proof fn no_page_makes_no_email(pages: Seq<Seq<u8>>)
    requires
        present(pages).len() == 0,
    ensures
        to_shrink(pages) == Err::<Seq<PixelModel>, ErrorModel>(
            ErrorModel::Pdf("no scanned pages to save"@),
        ),
{
}

} // verus!
