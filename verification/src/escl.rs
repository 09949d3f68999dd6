//! The eSCL protocol: what is asked of a scanner, and what its answers mean.

use vstd::prelude::*;

use crate::error::{AppError, AppResult, ErrorModel};
use crate::number;
use crate::scanner;
use crate::scanner::{ScannerInfo, ScannerModel, Transport};
use crate::state;
use crate::text;
use crate::text::Strip;

verus! {

/// The settings document up to the height of the scan region.
pub const SETTINGS_HEAD: &'static str = r#"<?xml version="1.0" encoding="UTF-8"?>
<scan:ScanSettings xmlns:scan="http://schemas.hp.com/imaging/escl/2011/05/03" xmlns:pwg="http://www.pwg.org/schemas/2010/12/sm">
  <pwg:Version>2.0</pwg:Version>
  <scan:Intent>Document</scan:Intent>
  <pwg:ScanRegions>
    <pwg:ScanRegion>
      <pwg:ContentRegionUnits>escl:ThreeHundredthsOfInches</pwg:ContentRegionUnits>
      <pwg:XOffset>0</pwg:XOffset>
      <pwg:YOffset>0</pwg:YOffset>
      <pwg:Width>2550</pwg:Width>
      <pwg:Height>"#;

/// The settings document between the height and the choice of both sides.
pub const SETTINGS_SOURCE: &'static str = r#"</pwg:Height>
    </pwg:ScanRegion>
  </pwg:ScanRegions>
  <pwg:InputSource>Feeder</pwg:InputSource>
  <scan:Duplex>"#;

/// The settings document between the choice of both sides and the resolution.
pub const SETTINGS_COLOR: &'static str = r#"</scan:Duplex>
  <scan:AutoCrop>true</scan:AutoCrop>
  <pwg:ContentType>TextAndPhoto</pwg:ContentType>
  <scan:ColorMode>RGB24</scan:ColorMode>
  <scan:XResolution>"#;

/// The settings document between the two resolutions.
pub const SETTINGS_BETWEEN: &'static str = r#"</scan:XResolution>
  <scan:YResolution>"#;

/// The settings document after the resolutions.
pub const SETTINGS_TAIL: &'static str = r#"</scan:YResolution>
  <pwg:DocumentFormat>image/jpeg</pwg:DocumentFormat>
</scan:ScanSettings>
"#;

/// The height of the scan region in three hundredths of an inch: 14 inches for two sides, 31.5
/// inches for a long receipt.
pub open spec fn region_height(long_receipt: bool) -> nat {
    if long_receipt {
        9450
    } else {
        4200
    }
}

/// The settings document of a scan job: a long receipt has one side.
pub open spec fn settings(long_receipt: bool, dpi: nat) -> Seq<char> {
    SETTINGS_HEAD@ + number::decimal(region_height(long_receipt)) + SETTINGS_SOURCE@ + (
    if long_receipt {
        "false"@
    } else {
        "true"@
    }) + SETTINGS_COLOR@ + number::decimal(dpi) + SETTINGS_BETWEEN@ + number::decimal(dpi)
        + SETTINGS_TAIL@
}

/// The settings document of a scan job.
pub fn scan_settings(long_receipt: bool, dpi: u16) -> (r: String)
    ensures
        r@ == settings(long_receipt, dpi as nat),
{
    let height: u128 = if long_receipt {
        9450
    } else {
        4200
    };
    let mut s = SETTINGS_HEAD.to_owned();
    s.append(number::decimal_text(height).as_str());
    s.append(SETTINGS_SOURCE);
    s.append(
        if long_receipt {
            "false"
        } else {
            "true"
        },
    );
    s.append(SETTINGS_COLOR);
    s.append(number::decimal_text(dpi as u128).as_str());
    s.append(SETTINGS_BETWEEN);
    s.append(number::decimal_text(dpi as u128).as_str());
    s.append(SETTINGS_TAIL);
    s
}

/// The URL at which a scanner reports its status.
pub fn status_url(scanner: &ScannerInfo) -> (r: String)
    ensures
        r@ == scanner::base_url_text(scanner@) + "/ScannerStatus"@,
{
    let mut s = scanner.base_url();
    s.append("/ScannerStatus");
    s
}

/// The URL at which a scanner takes scan jobs.
pub fn jobs_url(scanner: &ScannerInfo) -> (r: String)
    ensures
        r@ == scanner::base_url_text(scanner@) + "/ScanJobs"@,
{
    let mut s = scanner.base_url();
    s.append("/ScanJobs");
    s
}

/// The URL at which a scanner may tell its battery charge on `port`.
pub open spec fn battery_url(s: ScannerModel, port: nat) -> Seq<char> {
    "http://"@ + scanner::host_text(s.ip) + ":"@ + number::decimal(port) + "/ft/gen_status"@
}

fn battery_url_on(scanner: &ScannerInfo, port: u16) -> (r: String)
    ensures
        r@ == battery_url(scanner@, port as nat),
{
    let mut s = "http://".to_owned();
    s.append(scanner.ip.to_host().as_str());
    s.append(":");
    s.append(number::decimal_text(port as u128).as_str());
    s.append("/ft/gen_status");
    s
}

/// The URLs at which a scanner may tell its battery charge, in the order of the asking.
pub fn battery_urls(scanner: &ScannerInfo) -> (r: Vec<String>)
    ensures
        text::texts_of(r@) == seq![battery_url(scanner@, 80), battery_url(scanner@, 8080)],
{
    let r = vec![battery_url_on(scanner, 80), battery_url_on(scanner, 8080)];
    assert(text::texts_of(r@) =~= seq![battery_url(scanner@, 80), battery_url(scanner@, 8080)]);
    r
}

/// A scanner on another port.
pub open spec fn on_port(s: ScannerModel, port: u16) -> ScannerModel {
    ScannerModel { port, ..s }
}

/// The other ways to a scanner that does not answer: the usual ports but its own. A scanner that
/// SANE drives has none.
pub open spec fn other_routes(s: ScannerModel) -> Seq<ScannerModel> {
    if s.sane_device is Some {
        Seq::empty()
    } else {
        (if s.port == 8080 {
            Seq::empty()
        } else {
            seq![on_port(s, 8080)]
        }) + (if s.port == 80 {
            Seq::empty()
        } else {
            seq![on_port(s, 80)]
        })
    }
}

fn moved(scanner: &ScannerInfo, port: u16) -> (r: ScannerInfo)
    ensures
        r@ == on_port(scanner@, port),
{
    let mut s = scanner.clone();
    s.port = port;
    s
}

/// The other ways to a scanner that does not answer, in the order of the asking.
pub fn alt_routes(scanner: &ScannerInfo) -> (r: Vec<ScannerInfo>)
    ensures
        state::scanners_of(r@) == other_routes(scanner@),
{
    let mut out: Vec<ScannerInfo> = Vec::new();
    if scanner.sane_device.is_none() {
        if scanner.port != 8080 {
            out.push(moved(scanner, 8080));
        }
        if scanner.port != 80 {
            out.push(moved(scanner, 80));
        }
    }
    assert(state::scanners_of(out@) =~= other_routes(scanner@));
    out
}

/// Another route leads to the same device over another port.
pub proof fn other_routes_lead_elsewhere(s: ScannerModel, i: int)
    requires
        0 <= i < other_routes(s).len(),
    ensures
        other_routes(s)[i].port != s.port,
        other_routes(s)[i] == on_port(s, other_routes(s)[i].port),
        s.via == Transport::Wifi ==> scanner::key(other_routes(s)[i]) == scanner::key(s),
{
}

/// The URL of a scan job that the scanner names in `location`: the same path on the address that
/// the scanner was reached at, whatever host the answer names.
pub open spec fn job_url(s: ScannerModel, location: Seq<char>) -> Seq<char> {
    let loc = text::trimmed(location);
    match text::find(loc, "/eSCL"@) {
        Some(i) => scanner::origin(s) + loc.skip(i),
        None => if loc.len() > 0 && loc[0] == '/' {
            scanner::origin(s) + loc
        } else {
            scanner::origin(s) + "/eSCL/ScanJobs"@
        },
    }
}

/// The URL of a scan job that the scanner names in `location`.
pub fn job_url_on_scanner(scanner: &ScannerInfo, location: &str) -> (r: String)
    ensures
        r@ == job_url(scanner@, location@),
{
    let loc = text::trim(location);
    let chars = text::chars_of(loc.as_str());
    let mark = text::chars_of("/eSCL");
    let mut url = scanner.origin_url();
    match text::find_chars(&chars, &mark, 0) {
        Some(i) => {
            proof {
                text::lemma_find_from(loc@, "/eSCL"@, 0);
                assert(loc@.skip(i as int) =~= loc@.subrange(i as int, loc@.len() as int));
            }
            url.append(text::slice_text(&chars, i, chars.len()).as_str());
        },
        None => {
            if chars.len() > 0 && chars[0] == '/' {
                url.append(loc.as_str());
            } else {
                url.append("/eSCL/ScanJobs");
            }
        },
    }
    url
}

/// A job is always looked for on the scanner itself.
pub proof fn jobs_stay_on_the_scanner(s: ScannerModel, location: Seq<char>)
    ensures
        text::begins(job_url(s, location), scanner::origin(s) + "/"@),
{
    let loc = text::trimmed(location);
    let o = scanner::origin(s);
    reveal_strlit("/");
    reveal_strlit("/eSCL");
    reveal_strlit("/eSCL/ScanJobs");
    text::lemma_find_from(loc, "/eSCL"@, 0);
    let u = job_url(s, location);
    let rest = u.skip(o.len() as int);
    if let Some(i) = text::find(loc, "/eSCL"@) {
        assert(loc[i] == '/') by {
            assert(text::matches_at(loc, "/eSCL"@, i));
            assert(loc.subrange(i, i + 5)[0] == "/eSCL"@[0]);
        }
        assert(rest =~= loc.skip(i));
    } else if loc.len() > 0 && loc[0] == '/' {
        assert(rest =~= loc);
    } else {
        assert(rest =~= "/eSCL/ScanJobs"@);
    }
    assert(rest[0] == '/');
    assert(u.subrange(0, o.len() as int + 1) =~= o + "/"@);
}

/// The text after `boundary=` in the first part that begins with it.
pub open spec fn first_boundary(parts: Seq<Seq<char>>) -> Option<Seq<char>>
    decreases parts.len(),
{
    if parts.len() == 0 {
        None
    } else {
        match text::without_prefix(text::trimmed(parts[0]), "boundary="@) {
            Some(b) => Some(text::strip_ends(b, Strip::Only('"'))),
            None => first_boundary(parts.skip(1)),
        }
    }
}

/// The boundary between the parts of a multipart body; none where the body has one part.
pub open spec fn boundary(content_type: Seq<char>) -> Option<Seq<char>> {
    if text::begins(text::lower(content_type), "multipart/"@) {
        first_boundary(text::pieces(content_type, ';'))
    } else {
        None
    }
}

/// The boundary between the parts of a multipart body; none where the body has one part.
pub fn multipart_boundary(content_type: &str) -> (r: Option<String>)
    ensures
        text::text_of(r) == boundary(content_type@),
{
    if !text::starts_with(text::to_lower(content_type).as_str(), "multipart/") {
        return None;
    }
    let parts = text::split(content_type, ';');
    let ghost all = text::texts_of(parts@);
    let mut i: usize = 0;
    assert(all.skip(0) =~= all);
    while i < parts.len()
        invariant
            i <= parts@.len(),
            all == text::texts_of(parts@),
            all == text::pieces(content_type@, ';'),
            text::begins(text::lower(content_type@), "multipart/"@),
            first_boundary(all) == first_boundary(all.skip(i as int)),
        decreases parts@.len() - i,
    {
        let part = text::trim(parts[i].as_str());
        assert(all.skip(i as int)[0] == parts@[i as int]@);
        assert(all.skip(i as int).skip(1) =~= all.skip(i + 1));
        if let Some(b) = text::strip_prefix(part.as_str(), "boundary=") {
            return Some(text::strip(b.as_str(), Strip::Only('"')));
        }
        i += 1;
    }
    None
}

/// Bytes that are taken for an image: the start of a JPEG or PNG file, or anything too long to be
/// a message.
pub open spec fn image_like(b: Seq<u8>) -> bool {
    ||| b.len() >= 3 && b[0] == 0xFF && b[1] == 0xD8 && b[2] == 0xFF
    ||| b.len() >= 4 && b[0] == 0x89 && b[1] == 0x50 && b[2] == 0x4E && b[3] == 0x47
    ||| b.len() > 128
}

/// Bytes that are taken for an image.
pub fn looks_like_image(b: &[u8]) -> (r: bool)
    ensures
        r == image_like(b@),
{
    let n: usize = b.len();
    (n >= 3 && b[0] == 0xFF && b[1] == 0xD8 && b[2] == 0xFF) || (n >= 4 && b[0] == 0x89 && b[1]
        == 0x50 && b[2] == 0x4E && b[3] == 0x47) || n > 128
}

/// An HTTP status that tells of an error.
pub open spec fn is_error(status: u16) -> bool {
    400 <= status < 600
}

/// What an HTTP status says of a status request.
pub fn status_answer(status: u16) -> (r: AppResult<()>)
    ensures
        r is Err <==> is_error(status),
        r matches Err(e) ==> e@ == ErrorModel::Escl("Couldn't read scanner status."@),
{
    if 400 <= status && status < 600 {
        Err(AppError::escl("Couldn't read scanner status."))
    } else {
        Ok(())
    }
}

/// How often the next page is asked for before the scan fails.
pub const PAGE_ATTEMPTS: u64 = 6;

/// The wait in milliseconds after an attempt that failed, counted from zero; none where there was
/// no such attempt.
pub fn retry_wait(attempt: u64) -> (r: Option<u64>)
    ensures
        attempt < PAGE_ATTEMPTS ==> r == Some((400 + attempt * 250) as u64),
        attempt >= PAGE_ATTEMPTS ==> r is None,
{
    if attempt < PAGE_ATTEMPTS {
        Some(400 + attempt * 250)
    } else {
        None
    }
}

/// What a scanner says of a page that it was asked for.
#[derive(Debug, Clone, Copy, PartialEq, Eq, Structural)]
pub enum PageAnswer {
    /// The answer holds the page.
    Page,
    /// There is no further page.
    NoMore,
}

/// What an HTTP status says of a page request.
pub open spec fn page_status(status: u16) -> Result<PageAnswer, ErrorModel> {
    if status == 404 {
        Ok(PageAnswer::NoMore)
    } else if status == 503 {
        Err(ErrorModel::Escl("Load a page in the feeder, then scan."@))
    } else if is_error(status) {
        Err(ErrorModel::Escl("Couldn't download a scanned page."@))
    } else {
        Ok(PageAnswer::Page)
    }
}

/// What an HTTP status says of a page request.
pub fn page_answer(status: u16) -> (r: AppResult<PageAnswer>)
    ensures
        match r {
            Ok(a) => page_status(status) == Ok::<PageAnswer, ErrorModel>(a),
            Err(e) => page_status(status) == Err::<PageAnswer, ErrorModel>(e@),
        },
{
    if status == 404 {
        Ok(PageAnswer::NoMore)
    } else if status == 503 {
        Err(AppError::escl("Load a page in the feeder, then scan."))
    } else if 400 <= status && status < 600 {
        Err(AppError::escl("Couldn't download a scanned page."))
    } else {
        Ok(PageAnswer::Page)
    }
}

/// A document holds a value between an opening and a closing tag.
pub open spec fn holds(
    doc: Seq<char>,
    open_tag: Seq<char>,
    value: Seq<char>,
    close_tag: Seq<char>,
) -> bool {
    exists|i: int| #[trigger] text::matches_at(doc, open_tag + value + close_tag, i)
}

proof fn lemma_holds(
    before: Seq<char>,
    open_tag: Seq<char>,
    value: Seq<char>,
    close_tag: Seq<char>,
    doc: Seq<char>,
)
    requires
        before.len() + (open_tag + value + close_tag).len() <= doc.len(),
        doc.take(before.len() as int) == before,
        doc.skip(before.len() as int).take((open_tag + value + close_tag).len() as int) == open_tag
            + value + close_tag,
    ensures
        holds(doc, open_tag, value, close_tag),
{
    let inner = open_tag + value + close_tag;
    let at = before.len() as int;
    assert(doc.subrange(at, at + inner.len()) =~= doc.skip(at).take(inner.len() as int));
    assert(text::matches_at(doc, inner, at));
}

/// A value stands between the last tag of the text before it and the first tag of the text after.
proof fn lemma_value_held(
    front: Seq<char>,
    a: Seq<char>,
    open_tag: Seq<char>,
    value: Seq<char>,
    tail: Seq<char>,
    close_tag: Seq<char>,
    rest: Seq<char>,
)
    requires
        text::begins(tail, close_tag),
    ensures
        holds(front + (a + open_tag) + value + tail + rest, open_tag, value, close_tag),
{
    let doc = front + (a + open_tag) + value + tail + rest;
    let before = front + a;
    assert(tail.subrange(0, close_tag.len() as int) == close_tag);
    assert(doc.take(before.len() as int) =~= before);
    assert forall|i: int| 0 <= i < close_tag.len() implies tail[i] == close_tag[i] by {
        assert(tail.subrange(0, close_tag.len() as int)[i] == tail[i]);
    }
    assert(doc.skip(before.len() as int).take((open_tag + value + close_tag).len() as int)
        =~= open_tag + value + close_tag);
    lemma_holds(before, open_tag, value, close_tag, doc);
}

proof fn lemma_head_tags()
    ensures
        exists|a: Seq<char>| SETTINGS_HEAD@ == #[trigger] (a + "<pwg:Height>"@),
{
    reveal_strlit(r#"<?xml version="1.0" encoding="UTF-8"?>
<scan:ScanSettings xmlns:scan="http://schemas.hp.com/imaging/escl/2011/05/03" xmlns:pwg="http://www.pwg.org/schemas/2010/12/sm">
  <pwg:Version>2.0</pwg:Version>
  <scan:Intent>Document</scan:Intent>
  <pwg:ScanRegions>
    <pwg:ScanRegion>
      <pwg:ContentRegionUnits>escl:ThreeHundredthsOfInches</pwg:ContentRegionUnits>
      <pwg:XOffset>0</pwg:XOffset>
      <pwg:YOffset>0</pwg:YOffset>
      <pwg:Width>2550</pwg:Width>
      <pwg:Height>"#);
    reveal_strlit("<pwg:Height>");
    assert(SETTINGS_HEAD@.skip(474) =~= "<pwg:Height>"@);
    assert(SETTINGS_HEAD@ =~= SETTINGS_HEAD@.take(474) + "<pwg:Height>"@);
}

proof fn lemma_source_tags()
    ensures
        text::begins(SETTINGS_SOURCE@, "</pwg:Height>"@),
        exists|a: Seq<char>| SETTINGS_SOURCE@ == #[trigger] (a + "<scan:Duplex>"@),
{
    reveal_strlit(r#"</pwg:Height>
    </pwg:ScanRegion>
  </pwg:ScanRegions>
  <pwg:InputSource>Feeder</pwg:InputSource>
  <scan:Duplex>"#);
    reveal_strlit("</pwg:Height>");
    assert(SETTINGS_SOURCE@.subrange(0, 13) =~= "</pwg:Height>"@);
    reveal_strlit("<scan:Duplex>");
    assert(SETTINGS_SOURCE@.skip(103) =~= "<scan:Duplex>"@);
    assert(SETTINGS_SOURCE@ =~= SETTINGS_SOURCE@.take(103) + "<scan:Duplex>"@);
}

proof fn lemma_color_tags()
    ensures
        text::begins(SETTINGS_COLOR@, "</scan:Duplex>"@),
        exists|a: Seq<char>| SETTINGS_COLOR@ == #[trigger] (a + "<scan:XResolution>"@),
{
    reveal_strlit(r#"</scan:Duplex>
  <scan:AutoCrop>true</scan:AutoCrop>
  <pwg:ContentType>TextAndPhoto</pwg:ContentType>
  <scan:ColorMode>RGB24</scan:ColorMode>
  <scan:XResolution>"#);
    reveal_strlit("</scan:Duplex>");
    assert(SETTINGS_COLOR@.subrange(0, 14) =~= "</scan:Duplex>"@);
    reveal_strlit("<scan:XResolution>");
    assert(SETTINGS_COLOR@.skip(146) =~= "<scan:XResolution>"@);
    assert(SETTINGS_COLOR@ =~= SETTINGS_COLOR@.take(146) + "<scan:XResolution>"@);
}

proof fn lemma_between_tags()
    ensures
        text::begins(SETTINGS_BETWEEN@, "</scan:XResolution>"@),
        exists|a: Seq<char>| SETTINGS_BETWEEN@ == #[trigger] (a + "<scan:YResolution>"@),
{
    reveal_strlit(r#"</scan:XResolution>
  <scan:YResolution>"#);
    reveal_strlit("</scan:XResolution>");
    assert(SETTINGS_BETWEEN@.subrange(0, 19) =~= "</scan:XResolution>"@);
    reveal_strlit("<scan:YResolution>");
    assert(SETTINGS_BETWEEN@.skip(22) =~= "<scan:YResolution>"@);
    assert(SETTINGS_BETWEEN@ =~= SETTINGS_BETWEEN@.take(22) + "<scan:YResolution>"@);
}

proof fn lemma_tail_tags()
    ensures
        text::begins(SETTINGS_TAIL@, "</scan:YResolution>"@),
{
    reveal_strlit(r#"</scan:YResolution>
  <pwg:DocumentFormat>image/jpeg</pwg:DocumentFormat>
</scan:ScanSettings>
"#);
    reveal_strlit("</scan:YResolution>");
    assert(SETTINGS_TAIL@.subrange(0, 19) =~= "</scan:YResolution>"@);
}


/// The settings document of a scan job asks for the resolution in both directions, for both sides
/// of a sheet or one of a receipt, and for a region of 14 or of 31.5 inches.
pub proof fn settings_ask_for_what_was_chosen(long_receipt: bool, dpi: nat)
    ensures
        holds(
            settings(long_receipt, dpi),
            "<scan:XResolution>"@,
            number::decimal(dpi),
            "</scan:XResolution>"@,
        ),
        holds(
            settings(long_receipt, dpi),
            "<scan:YResolution>"@,
            number::decimal(dpi),
            "</scan:YResolution>"@,
        ),
        long_receipt ==> holds(
            settings(long_receipt, dpi),
            "<scan:Duplex>"@,
            "false"@,
            "</scan:Duplex>"@,
        ),
        !long_receipt ==> holds(
            settings(long_receipt, dpi),
            "<scan:Duplex>"@,
            "true"@,
            "</scan:Duplex>"@,
        ),
        long_receipt ==> holds(
            settings(long_receipt, dpi),
            "<pwg:Height>"@,
            number::decimal(9450),
            "</pwg:Height>"@,
        ),
        !long_receipt ==> holds(
            settings(long_receipt, dpi),
            "<pwg:Height>"@,
            number::decimal(4200),
            "</pwg:Height>"@,
        ),
{
    lemma_head_tags();
    lemma_source_tags();
    lemma_color_tags();
    lemma_between_tags();
    lemma_tail_tags();
    let doc = settings(long_receipt, dpi);
    let d = number::decimal(dpi);
    let h = number::decimal(region_height(long_receipt));
    let duplex = if long_receipt {
        "false"@
    } else {
        "true"@
    };
    let none = Seq::<char>::empty();
    let a = choose|a: Seq<char>| SETTINGS_HEAD@ == #[trigger] (a + "<pwg:Height>"@);
    let after = duplex + SETTINGS_COLOR@ + d + SETTINGS_BETWEEN@ + d + SETTINGS_TAIL@;
    lemma_value_held(none, a, "<pwg:Height>"@, h, SETTINGS_SOURCE@, "</pwg:Height>"@, after);
    assert(doc =~= none + (a + "<pwg:Height>"@) + h + SETTINGS_SOURCE@ + after);
    let b = choose|a: Seq<char>| SETTINGS_SOURCE@ == #[trigger] (a + "<scan:Duplex>"@);
    let front = SETTINGS_HEAD@ + h;
    let after = d + SETTINGS_BETWEEN@ + d + SETTINGS_TAIL@;
    lemma_value_held(front, b, "<scan:Duplex>"@, duplex, SETTINGS_COLOR@, "</scan:Duplex>"@, after);
    assert(doc =~= front + (b + "<scan:Duplex>"@) + duplex + SETTINGS_COLOR@ + after);
    let c = choose|a: Seq<char>| SETTINGS_COLOR@ == #[trigger] (a + "<scan:XResolution>"@);
    let front = SETTINGS_HEAD@ + h + SETTINGS_SOURCE@ + duplex;
    let after = d + SETTINGS_TAIL@;
    lemma_value_held(
        front,
        c,
        "<scan:XResolution>"@,
        d,
        SETTINGS_BETWEEN@,
        "</scan:XResolution>"@,
        after,
    );
    assert(doc =~= front + (c + "<scan:XResolution>"@) + d + SETTINGS_BETWEEN@ + after);
    let e = choose|a: Seq<char>| SETTINGS_BETWEEN@ == #[trigger] (a + "<scan:YResolution>"@);
    let front = SETTINGS_HEAD@ + h + SETTINGS_SOURCE@ + duplex + SETTINGS_COLOR@ + d;
    lemma_value_held(
        front,
        e,
        "<scan:YResolution>"@,
        d,
        SETTINGS_TAIL@,
        "</scan:YResolution>"@,
        none,
    );
    assert(doc =~= front + (e + "<scan:YResolution>"@) + d + SETTINGS_TAIL@ + none);
}

/// Settings of different resolutions differ, and those of a receipt from those of a sheet.
pub proof fn settings_tell_scans_apart(long_receipt: bool, other: bool, a: nat, b: nat)
    requires
        settings(long_receipt, a) == settings(other, b),
    ensures
        long_receipt == other,
        a == b,
{
    let n = SETTINGS_HEAD@.len() as int;
    reveal_with_fuel(number::decimal, 5);
    if long_receipt != other {
        assert(settings(true, a)[n] == '9' || settings(true, b)[n] == '9');
        assert(settings(false, a)[n] == '4' || settings(false, b)[n] == '4');
        assert(false);
    }
    let x = number::decimal(a);
    let y = number::decimal(b);
    let front = SETTINGS_HEAD@ + number::decimal(region_height(other)) + SETTINGS_SOURCE@ + (
    if other {
        "false"@
    } else {
        "true"@
    }) + SETTINGS_COLOR@;
    assert(settings(other, a) =~= front + x + SETTINGS_BETWEEN@ + x + SETTINGS_TAIL@);
    assert(settings(other, b) =~= front + y + SETTINGS_BETWEEN@ + y + SETTINGS_TAIL@);
    assert(x.len() == y.len());
    assert(x =~= settings(other, a).skip(front.len() as int).take(x.len() as int));
    assert(y =~= settings(other, b).skip(front.len() as int).take(y.len() as int));
    number::decimal_reads_back(a);
    number::decimal_reads_back(b);
}

/// A silent scanner is looked for on each of the two usual ports that it was not asked on, the
/// better one first, and is otherwise the same; one that SANE drives is not.
pub proof fn usual_ports_are_tried(s: ScannerModel)
    ensures
        s.sane_device is Some ==> other_routes(s).len() == 0,
        s.sane_device is None && s.port != 8080 && s.port != 80 ==> other_routes(s) == seq![
            (ScannerModel { port: 8080, ..s }),
            (ScannerModel { port: 80, ..s }),
        ],
        s.sane_device is None && s.port == 8080 ==> other_routes(s) == seq![
            (ScannerModel { port: 80, ..s }),
        ],
        s.sane_device is None && s.port == 80 ==> other_routes(s) == seq![
            (ScannerModel { port: 8080, ..s }),
        ],
{
}

/// The path of a job that a scanner gives stays as it is, whatever host the scanner named: the
/// job is looked for at that path of the scanner itself.
pub proof fn the_path_of_a_job_stays(s: ScannerModel, host: Seq<char>, path: Seq<char>)
    requires
        text::begins(path, "/eSCL"@),
        !text::has(host, "/eSCL"@),
        !text::is_white((host + path)[0]),
        !text::is_white(path.last()),
    ensures
        job_url(s, host + path) == scanner::origin(s) + path,
{
    reveal_strlit("/eSCL");
    let loc = host + path;
    let needle = "/eSCL"@;
    let n = host.len() as int;
    assert(loc.last() == path.last());
    assert(text::trimmed(loc) == loc);
    assert(loc.subrange(n, n + 5) =~= path.subrange(0, 5));
    assert(text::matches_at(loc, needle, n));
    text::lemma_find_from(loc, needle, 0);
    let i = text::find(loc, needle)->0;
    if i < n {
        assert(loc.subrange(i, i + 5)[0] == '/');
        if i + 5 <= n {
            assert(host.subrange(i, i + 5) =~= loc.subrange(i, i + 5));
            assert(text::matches_at(host, needle, i));
        } else {
            assert(loc[n] == path[0]);
            assert(path.subrange(0, 5)[0] == path[0]);
            assert(loc.subrange(i, i + 5)[n - i] == loc[n]);
            assert(needle[n - i] == '/');
        }
    }
    assert(loc.skip(n) =~= path);
}

/// A page is taken wherever the scanner reports success, the pages are at their end where it knows
/// none, and everything else that it calls an error is one.
pub proof fn page_answers_are_told_apart(status: u16)
    ensures
        200 <= status < 300 ==> page_status(status) == Ok::<PageAnswer, ErrorModel>(
            PageAnswer::Page,
        ),
        page_status(status) == Ok::<PageAnswer, ErrorModel>(PageAnswer::NoMore) <==> status == 404,
        400 <= status < 600 && status != 404 ==> page_status(status) is Err,
        status < 400 || status >= 600 ==> page_status(status) is Ok && !is_error(status),
{
}

/// A JPEG or PNG file is taken for a page whatever comes after its first bytes; of other parts,
/// those of at most 128 bytes are not.
pub proof fn images_are_told_from_messages(b: Seq<u8>, rest: Seq<u8>)
    ensures
        image_like(seq![0xFFu8, 0xD8u8, 0xFFu8] + rest),
        image_like(seq![0x89u8, 0x50u8, 0x4Eu8, 0x47u8] + rest),
        b.len() > 128 ==> image_like(b),
        b.len() <= 128 && b.len() > 0 && b[0] != 0xFF && b[0] != 0x89 ==> !image_like(b),
{
}

/// The charge is asked for on the scanner's own host, at the port that is tried.
pub proof fn the_charge_is_asked_of_the_scanner(s: ScannerModel, port: nat, other: nat)
    ensures
        text::begins(battery_url(s, port), "http://"@ + scanner::host_text(s.ip) + ":"@),
        battery_url(s, port) == "http://"@ + scanner::host_text(s.ip) + ":"@ + number::decimal(port)
            + "/ft/gen_status"@,
        page_status(503) == Err::<PageAnswer, ErrorModel>(
            ErrorModel::Escl("Load a page in the feeder, then scan."@),
        ),
{
    let head = "http://"@ + scanner::host_text(s.ip) + ":"@;
    assert(battery_url(s, port).subrange(0, head.len() as int) =~= head);
}

/// Where the scanner answers with several parts, they end at the mark that it names, quoted or not;
/// no other answer has parts.
pub proof fn parts_end_at_the_mark(first: Seq<char>, other: Seq<char>, mark: Seq<char>)
    requires
        !first.contains(';'),
        first.len() > 0,
        first[0] == 'm' || first[0] == 'M',
        !mark.contains(';'),
        mark.len() > 0,
        mark[0] != '"',
        mark.last() != '"',
        !text::is_white(mark.last()),
    ensures
        ({
            let named = first + seq![';'] + ("boundary="@ + mark);
            let quoted = first + seq![';'] + ("boundary=\""@ + mark + seq!['"']);
            &&& text::begins(text::lower(first), "multipart/"@) ==> boundary(named) == Some(mark)
            &&& text::begins(text::lower(first), "multipart/"@) ==> boundary(quoted) == Some(mark)
            &&& text::begins(text::lower(first), "multipart/"@) ==> boundary(first) is None
        }),
        !text::begins(text::lower(other), "multipart/"@) ==> boundary(other) is None,
{
    if text::begins(text::lower(first), "multipart/"@) {
        let p = "boundary="@ + mark;
        let q = "boundary=\""@ + mark + seq!['"'];
        reveal_strlit("boundary=");
        reveal_strlit("boundary=\"");
        reveal_strlit("multipart/");
        assert(!p.contains(';')) by {
            if p.contains(';') {
                let i = choose|i: int| 0 <= i < p.len() && p[i] == ';';
                assert(i >= 9 ==> p[i] == mark[i - 9]);
            }
        }
        assert(!q.contains(';')) by {
            if q.contains(';') {
                let i = choose|i: int| 0 <= i < q.len() && q[i] == ';';
                assert(10 <= i < 10 + mark.len() ==> q[i] == mark[i - 10]);
            }
        }
        lemma_mark(first, p, mark);
        assert(q =~= "boundary="@ + (seq!['"'] + mark + seq!['"']));
        lemma_mark(first, q, seq!['"'] + mark + seq!['"']);
        lemma_unquoted(mark);
        text::pieces_end_at_the_separator(first, ';', p);
        lemma_no_mark(first);
        assert(seq![first].skip(1) =~= Seq::empty());
        assert(first_boundary(seq![first].skip(1)) is None);
        assert(first_boundary(seq![first]) is None);
    }
}

proof fn lemma_front_stays(s: Seq<char>, k: Strip)
    requires
        s.len() > 0,
        !text::strips(k, s[0]),
    ensures
        text::strip_front(s, k) == s,
        text::strip_back(s, k).len() > 0,
        text::strip_back(s, k)[0] == s[0],
    decreases s.len(),
{
    if text::strips(k, s.last()) {
        assert(s.drop_last()[0] == s[0]);
        lemma_front_stays(s.drop_last(), k);
    }
}

proof fn lemma_no_mark(first: Seq<char>)
    requires
        first.len() > 0,
        first[0] == 'm' || first[0] == 'M',
    ensures
        text::without_prefix(text::trimmed(first), "boundary="@) is None,
{
    reveal_strlit("boundary=");
    lemma_front_stays(first, Strip::White);
    let t = text::trimmed(first);
    if text::begins(t, "boundary="@) {
        assert(t.subrange(0, 9)[0] == t[0]);
    }
}

proof fn lemma_unquoted(mark: Seq<char>)
    requires
        mark.len() > 0,
        mark[0] != '"',
        mark.last() != '"',
    ensures
        text::strip_ends(mark, Strip::Only('"')) == mark,
        text::strip_ends(seq!['"'] + mark + seq!['"'], Strip::Only('"')) == mark,
{
    let k = Strip::Only('"');
    let q = seq!['"'] + mark + seq!['"'];
    let r = mark + seq!['"'];
    assert(q.drop_first() =~= r);
    assert(text::strip_front(r, k) == r);
    assert(text::strip_front(q, k) == text::strip_front(q.drop_first(), k));
    assert(r.last() == '"');
    assert(r.drop_last() =~= mark);
    assert(text::strip_back(mark, k) == mark);
    assert(text::strip_back(r, k) == text::strip_back(r.drop_last(), k));
}

proof fn lemma_mark(first: Seq<char>, p: Seq<char>, v: Seq<char>)
    requires
        !first.contains(';'),
        first.len() > 0,
        first[0] == 'm' || first[0] == 'M',
        text::begins(text::lower(first), "multipart/"@),
        !p.contains(';'),
        p == "boundary="@ + v,
        v.len() > 0,
        !text::is_white(v.last()),
    ensures
        boundary(first + seq![';'] + p) == Some(text::strip_ends(v, Strip::Only('"'))),
{
    reveal_strlit("boundary=");
    reveal_strlit("multipart/");
    let whole = first + seq![';'] + p;
    let head = "multipart/"@;
    assert(text::lower(whole).subrange(0, head.len() as int) =~= text::lower(first).subrange(
        0,
        head.len() as int,
    ));
    assert(text::begins(text::lower(whole), head));
    text::pieces_end_at_the_separator(first, ';', p);
    text::pieces_end_at_the_separator(p, ';', Seq::empty());
    let parts = text::pieces(whole, ';');
    assert(parts =~= seq![first, p]);
    lemma_no_mark(first);
    assert(parts.skip(1) =~= seq![p]);
    assert(p[0] == 'b');
    assert(p.last() == v.last());
    assert(text::trimmed(p) == p);
    assert(p.subrange(0, 9) =~= "boundary="@);
    assert(p.skip(9) =~= v);
    assert(first_boundary(seq![p]) == Some(text::strip_ends(v, Strip::Only('"'))));
}

/// The mark is found wherever among the parameters it stands, and the first one counts.
pub proof fn a_mark_is_found_among_parameters(parts: Seq<Seq<char>>, i: int, mark: Seq<char>)
    requires
        0 <= i < parts.len(),
        text::without_prefix(text::trimmed(parts[i]), "boundary="@) == Some(mark),
        forall|j: int|
            0 <= j < i ==> text::without_prefix(
                text::trimmed(#[trigger] parts[j]),
                "boundary="@,
            ) is None,
    ensures
        first_boundary(parts) == Some(text::strip_ends(mark, Strip::Only('"'))),
    decreases i,
{
    if i > 0 {
        let rest = parts.skip(1);
        assert forall|j: int| 0 <= j < i - 1 implies text::without_prefix(
            text::trimmed(#[trigger] rest[j]),
            "boundary="@,
        ) is None by {
            assert(rest[j] == parts[j + 1]);
        }
        a_mark_is_found_among_parameters(rest, i - 1, mark);
        assert(parts[0] == parts[0]);
    }
}

} // verus!
