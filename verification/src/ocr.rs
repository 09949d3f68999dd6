//! The text of scanned pages.

use std::sync::Arc;

use vstd::prelude::*;

use crate::error;
use crate::error::{AppError, ErrorModel};
use crate::images;
use crate::number;
use crate::text;

verus! {

/// The reader of text, with the weights of its model; without weights it reads nothing.
#[derive(Debug, Clone, Copy)]
pub struct OcrEngine {
    pub model: &'static [u8],
}

impl Default for OcrEngine {
    fn default() -> (r: OcrEngine)
        ensures
            r.model@.len() == 0,
    {
        OcrEngine::new()
    }
}

impl OcrEngine {
    /// A reader without weights.
    pub fn new() -> (r: OcrEngine)
        ensures
            r.model@.len() == 0,
    {
        OcrEngine { model: &[] }
    }

    /// A reader with the given weights.
    pub fn with_model(model: &'static [u8]) -> (r: OcrEngine)
        ensures
            r.model@ == model@,
    {
        OcrEngine { model }
    }

    /// The reader has weights.
    pub fn has_model(self) -> (r: bool)
        ensures
            r == (self.model@.len() > 0),
    {
        self.model.len() > 0
    }
}

/// The text of a page of as many bytes, whose size was read or not. Nothing is read of an empty
/// page, nor without a model.
pub open spec fn page_text(
    len: nat,
    size: Result<(u32, u32), Seq<char>>,
    model_present: bool,
    label: Seq<char>,
) -> Seq<char> {
    if len == 0 || !model_present {
        Seq::empty()
    } else {
        match size {
            Ok((w, h)) => "["@ + label + "] "@ + number::decimal(w as nat) + "x"@ + number::decimal(
                h as nat,
            ) + "  "@ + number::kibibytes(len) + " KiB — OCR model ready."@,
            Err(e) => "["@ + label + "] decode failed: "@ + error::error_text(
                ErrorModel::Image(e),
            ),
        }
    }
}

/// The text of a page of as many bytes, whose size was read or not.
pub fn describe_page(
    len: usize,
    size: Result<(u32, u32), String>,
    model_present: bool,
    label: &str,
) -> (r: String)
    ensures
        r@ == page_text(len as nat, images::size_of(size), model_present, label@),
{
    if len == 0 || !model_present {
        let none = String::new();
        assert(none@ =~= Seq::empty());
        return none;
    }
    let mut s = "[".to_owned();
    s.append(label);
    match size {
        Ok((w, h)) => {
            s.append("] ");
            s.append(number::decimal_text(w as u128).as_str());
            s.append("x");
            s.append(number::decimal_text(h as u128).as_str());
            s.append("  ");
            s.append(number::kibibytes_text(len as u64).as_str());
            s.append(" KiB — OCR model ready.");
        },
        Err(e) => {
            s.append("] decode failed: ");
            s.append(AppError::Image(e).message().as_str());
        },
    }
    s
}

/// The text of a page.
pub fn extract_page(page: &Arc<Vec<u8>>, model_present: bool, label: &str) -> (r: String)
    ensures
        r@ == page_text(page@.len(), images::header_size(page@), model_present, label@),
{
    if page.len() == 0 || !model_present {
        let none = String::new();
        assert(none@ =~= Seq::empty());
        return none;
    }
    describe_page(page.len(), images::read_size(page.as_slice()), model_present, label)
}

/// Nothing is read without a model, nor of an empty page; else the size of the page is told after
/// its side, or why it could not be read.
pub proof fn a_read_page_is_described(
    len: nat,
    size: Result<(u32, u32), Seq<char>>,
    label: Seq<char>,
)
    ensures
        page_text(len, size, false, label).len() == 0,
        page_text(0, size, true, label).len() == 0,
        len > 0 ==> text::begins(page_text(len, size, true, label), "["@ + label + "] "@),
        len > 0 && size is Ok ==> text::begins(
            page_text(len, size, true, label),
            "["@ + label + "] "@ + number::decimal(size->Ok_0.0 as nat) + "x"@ + number::decimal(
                size->Ok_0.1 as nat,
            ),
        ),
        len > 0 && size is Err ==> page_text(len, size, true, label) == "["@ + label
            + "] decode failed: "@ + "image decode error: "@ + size->Err_0,
{
    reveal_strlit("] ");
    reveal_strlit("] decode failed: ");
    if len > 0 {
        let t = page_text(len, size, true, label);
        let head = "["@ + label + "] "@;
        if size is Ok {
            let all = head + number::decimal(size->Ok_0.0 as nat) + "x"@ + number::decimal(
                size->Ok_0.1 as nat,
            );
            assert(t.subrange(0, all.len() as int) =~= all);
            assert(t.subrange(0, head.len() as int) =~= head);
        } else {
            assert(t.subrange(0, head.len() as int) =~= head);
            assert(t =~= "["@ + label + "] decode failed: "@ + "image decode error: "@
                + size->Err_0);
        }
    }
}

} // verus!
