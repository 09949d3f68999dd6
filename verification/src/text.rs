//! Text as sequences of characters: search, trimming, splitting and case.

use vstd::prelude::*;

verus! {

/// `String::push` appends the given character to the end of the string.
pub assume_specification[ String::push ](s: &mut String, c: char)
    ensures
        final(s)@ == old(s)@.push(c),
;

/// The text that `String::from_utf8_lossy` makes of bytes.
pub uninterp spec fn lossy(bytes: Seq<u8>) -> Seq<char>;

/// `String::from_utf8_lossy` turns bytes into text: the text they encode where they are valid
/// UTF-8, else one with replacement characters for what is not.
#[verifier::external_body]
pub(crate) fn text_lossy(bytes: &[u8]) -> (r: String)
    ensures
        r@ == lossy(bytes@),
        vstd::utf8::valid_utf8(bytes@) ==> vstd::utf8::encode_utf8(r@) == bytes@,
{
    String::from_utf8_lossy(bytes).into_owned()
}

/// `needle` stands in `hay` at position `i`.
pub open spec fn matches_at(hay: Seq<char>, needle: Seq<char>, i: int) -> bool {
    &&& 0 <= i
    &&& i + needle.len() <= hay.len()
    &&& hay.subrange(i, i + needle.len()) == needle
}

/// `needle` stands somewhere in `hay`.
pub open spec fn has(hay: Seq<char>, needle: Seq<char>) -> bool {
    exists|i: int| matches_at(hay, needle, i)
}

/// The first position at or after `from` at which `needle` stands in `hay`.
pub open spec fn find_from(hay: Seq<char>, needle: Seq<char>, from: int) -> Option<int>
    decreases hay.len() - from,
{
    if from + needle.len() > hay.len() {
        None
    } else if matches_at(hay, needle, from) {
        Some(from)
    } else if from < hay.len() {
        find_from(hay, needle, from + 1)
    } else {
        None
    }
}

/// The first position at which `needle` stands in `hay`.
pub open spec fn find(hay: Seq<char>, needle: Seq<char>) -> Option<int> {
    find_from(hay, needle, 0)
}

/// `find_from` gives the least match at or after `from`, and none only where there is none.
pub proof fn lemma_find_from(hay: Seq<char>, needle: Seq<char>, from: int)
    requires
        0 <= from,
    ensures
        match find_from(hay, needle, from) {
            Some(i) => from <= i && matches_at(hay, needle, i) && forall|j: int|
                from <= j < i ==> !matches_at(hay, needle, j),
            None => forall|j: int| from <= j ==> !matches_at(hay, needle, j),
        },
    decreases hay.len() - from,
{
    if from + needle.len() > hay.len() {
    } else if matches_at(hay, needle, from) {
    } else if from < hay.len() {
        lemma_find_from(hay, needle, from + 1);
    }
}

/// The characters of a text.
pub fn chars_of(s: &str) -> (r: Vec<char>)
    ensures
        r@ == s@,
{
    let mut out: Vec<char> = Vec::new();
    for c in it: s.chars()
        invariant
            it.seq() == s@,
            out@ == s@.take(it.index() as int),
    {
        out.push(c);
    }
    out
}

/// The text from character `from` up to character `to`.
pub fn slice_text(v: &Vec<char>, from: usize, to: usize) -> (r: String)
    requires
        from <= to <= v@.len(),
    ensures
        r@ == v@.subrange(from as int, to as int),
{
    let mut out = String::new();
    let mut i: usize = from;
    while i < to
        invariant
            from <= i <= to <= v@.len(),
            out@ == v@.subrange(from as int, i as int),
        decreases to - i,
    {
        out.push(v[i]);
        i += 1;
    }
    out
}

/// Two texts are the same.
pub fn same(a: &str, b: &str) -> (r: bool)
    ensures
        r == (a@ == b@),
{
    let x = a.to_owned();
    let y = b.to_owned();
    x == y
}

fn stands_at(hay: &Vec<char>, needle: &Vec<char>, i: usize) -> (r: bool)
    requires
        i + needle@.len() <= hay@.len(),
    ensures
        r == matches_at(hay@, needle@, i as int),
{
    let mut k: usize = 0;
    let end: usize = hay.len();
    while k < needle.len()
        invariant
            k <= needle@.len(),
            end == hay@.len(),
            i + needle@.len() <= end,
            forall|j: int| 0 <= j < k ==> hay@[i + j] == needle@[j],
        decreases needle@.len() - k,
    {
        if hay[i + k] != needle[k] {
            assert(hay@.subrange(i as int, i + needle@.len())[k as int] != needle@[k as int]);
            return false;
        }
        k += 1;
    }
    assert(hay@.subrange(i as int, i + needle@.len()) =~= needle@);
    true
}

/// The first position at or after `from` at which `needle` stands in `hay`.
pub fn find_chars(hay: &Vec<char>, needle: &Vec<char>, from: usize) -> (r: Option<usize>)
    ensures
        match r {
            Some(i) => find_from(hay@, needle@, from as int) == Some(i as int) && from <= i && i
                + needle@.len() <= hay@.len(),
            None => find_from(hay@, needle@, from as int) is None,
        },
{
    let mut i: usize = from;
    while i <= hay.len() && needle.len() <= hay.len() - i
        invariant
            from <= i,
            find_from(hay@, needle@, from as int) == find_from(hay@, needle@, i as int),
            from <= hay@.len() ==> i <= hay@.len() + 1,
        decreases hay@.len() + 1 - i,
    {
        if stands_at(hay, needle, i) {
            return Some(i);
        }
        if i == hay.len() {
            return None;
        }
        i += 1;
    }
    None
}

/// `needle` stands somewhere in `hay`.
pub fn contains(hay: &str, needle: &str) -> (r: bool)
    ensures
        r == has(hay@, needle@),
{
    let h = chars_of(hay);
    let n = chars_of(needle);
    proof {
        lemma_find_from(hay@, needle@, 0);
    }
    match find_chars(&h, &n, 0) {
        Some(i) => {
            assert(matches_at(hay@, needle@, i as int));
            true
        },
        None => {
            assert forall|i: int| !matches_at(hay@, needle@, i) by {
                if i >= 0 {
                }
            }
            false
        },
    }
}

/// `s` begins with `prefix`.
pub open spec fn begins(s: Seq<char>, prefix: Seq<char>) -> bool {
    matches_at(s, prefix, 0)
}

/// `s` begins with `prefix`.
pub fn starts_with(s: &str, prefix: &str) -> (r: bool)
    ensures
        r == begins(s@, prefix@),
{
    let h = chars_of(s);
    let n = chars_of(prefix);
    n.len() <= h.len() && stands_at(&h, &n, 0)
}

/// What follows `prefix` where `s` begins with it.
pub open spec fn without_prefix(s: Seq<char>, prefix: Seq<char>) -> Option<Seq<char>> {
    if begins(s, prefix) {
        Some(s.skip(prefix.len() as int))
    } else {
        None
    }
}

/// The view of an optional text.
pub open spec fn text_of(t: Option<String>) -> Option<Seq<char>> {
    match t {
        Some(s) => Some(s@),
        None => None,
    }
}

/// What follows `prefix` where `s` begins with it.
pub fn strip_prefix(s: &str, prefix: &str) -> (r: Option<String>)
    ensures
        text_of(r) == without_prefix(s@, prefix@),
{
    let h = chars_of(s);
    let n = chars_of(prefix);
    if n.len() <= h.len() && stands_at(&h, &n, 0) {
        let rest = slice_text(&h, n.len(), h.len());
        assert(rest@ =~= s@.skip(prefix@.len() as int));
        Some(rest)
    } else {
        None
    }
}

/// The lower case of an ASCII letter; every other character itself.
pub open spec fn lower_char(c: char) -> char {
    if 'A' <= c && c <= 'Z' {
        ((c as u8 + 32) as u8) as char
    } else {
        c
    }
}

/// The upper case of an ASCII letter; every other character itself.
pub open spec fn upper_char(c: char) -> char {
    if 'a' <= c && c <= 'z' {
        ((c as u8 - 32) as u8) as char
    } else {
        c
    }
}

/// A text with its ASCII letters in lower case.
pub open spec fn lower(s: Seq<char>) -> Seq<char> {
    Seq::new(s.len(), |i: int| lower_char(s[i]))
}

/// A text with its ASCII letters in upper case.
pub open spec fn upper(s: Seq<char>) -> Seq<char> {
    Seq::new(s.len(), |i: int| upper_char(s[i]))
}

/// A text with its ASCII letters in lower case.
pub fn to_lower(s: &str) -> (r: String)
    ensures
        r@ == lower(s@),
{
    let v = chars_of(s);
    let mut out = String::new();
    let mut i: usize = 0;
    while i < v.len()
        invariant
            i <= v@.len(),
            v@ == s@,
            out@ == lower(s@).take(i as int),
        decreases v@.len() - i,
    {
        let c = v[i];
        if 'A' <= c && c <= 'Z' {
            out.push((c as u8 + 32) as char);
        } else {
            out.push(c);
        }
        i += 1;
        assert(out@ =~= lower(s@).take(i as int));
    }
    assert(out@ =~= lower(s@));
    out
}

/// A text with its ASCII letters in upper case.
pub fn to_upper(s: &str) -> (r: String)
    ensures
        r@ == upper(s@),
{
    let v = chars_of(s);
    let mut out = String::new();
    let mut i: usize = 0;
    while i < v.len()
        invariant
            i <= v@.len(),
            v@ == s@,
            out@ == upper(s@).take(i as int),
        decreases v@.len() - i,
    {
        let c = v[i];
        if 'a' <= c && c <= 'z' {
            out.push((c as u8 - 32) as char);
        } else {
            out.push(c);
        }
        i += 1;
        assert(out@ =~= upper(s@).take(i as int));
    }
    assert(out@ =~= upper(s@));
    out
}

/// The characters with the Unicode property White_Space.
pub open spec fn is_white(c: char) -> bool {
    ||| '\u{9}' <= c && c <= '\u{d}'
    ||| c == ' '
    ||| c == '\u{85}'
    ||| c == '\u{a0}'
    ||| c == '\u{1680}'
    ||| '\u{2000}' <= c && c <= '\u{200a}'
    ||| c == '\u{2028}'
    ||| c == '\u{2029}'
    ||| c == '\u{202f}'
    ||| c == '\u{205f}'
    ||| c == '\u{3000}'
}

/// The characters that trimming takes off.
#[derive(Clone, Copy, PartialEq, Eq, Structural)]
pub enum Strip {
    /// White space.
    White,
    /// One character.
    Only(char),
}

/// Trimming by `k` takes `c` off.
pub open spec fn strips(k: Strip, c: char) -> bool {
    match k {
        Strip::White => is_white(c),
        Strip::Only(x) => c == x,
    }
}

fn takes(k: Strip, c: char) -> (r: bool)
    ensures
        r == strips(k, c),
{
    match k {
        Strip::White => ('\u{9}' <= c && c <= '\u{d}') || c == ' ' || c == '\u{85}' || c == '\u{a0}'
            || c == '\u{1680}' || ('\u{2000}' <= c && c <= '\u{200a}') || c == '\u{2028}' || c
            == '\u{2029}' || c == '\u{202f}' || c == '\u{205f}' || c == '\u{3000}',
        Strip::Only(x) => c == x,
    }
}

/// `s` without the characters that `k` takes off its front.
pub open spec fn strip_front(s: Seq<char>, k: Strip) -> Seq<char>
    decreases s.len(),
{
    if s.len() > 0 && strips(k, s[0]) {
        strip_front(s.drop_first(), k)
    } else {
        s
    }
}

/// `s` without the characters that `k` takes off its back.
pub open spec fn strip_back(s: Seq<char>, k: Strip) -> Seq<char>
    decreases s.len(),
{
    if s.len() > 0 && strips(k, s.last()) {
        strip_back(s.drop_last(), k)
    } else {
        s
    }
}

/// `s` without the characters that `k` takes off both ends.
pub open spec fn strip_ends(s: Seq<char>, k: Strip) -> Seq<char> {
    strip_back(strip_front(s, k), k)
}

/// `s` without white space at its ends.
pub open spec fn trimmed(s: Seq<char>) -> Seq<char> {
    strip_ends(s, Strip::White)
}

fn front_end(v: &Vec<char>, k: Strip) -> (r: usize)
    ensures
        r <= v@.len(),
        v@.skip(r as int) == strip_front(v@, k),
{
    let mut i: usize = 0;
    assert(v@.skip(0) =~= v@);
    while i < v.len() && takes(k, v[i])
        invariant
            i <= v@.len(),
            strip_front(v@.skip(i as int), k) == strip_front(v@, k),
        decreases v@.len() - i,
    {
        assert(v@.skip(i as int).drop_first() =~= v@.skip(i + 1));
        i += 1;
    }
    i
}

fn back_end(v: &Vec<char>, from: usize, k: Strip) -> (r: usize)
    requires
        from <= v@.len(),
    ensures
        from <= r <= v@.len(),
        v@.subrange(from as int, r as int) == strip_back(v@.skip(from as int), k),
{
    let mut i: usize = v.len();
    assert(v@.subrange(from as int, i as int) =~= v@.skip(from as int));
    while i > from && takes(k, v[i - 1])
        invariant
            from <= i <= v@.len(),
            strip_back(v@.subrange(from as int, i as int), k) == strip_back(
                v@.skip(from as int),
                k,
            ),
        decreases i,
    {
        assert(v@.subrange(from as int, i as int).drop_last() =~= v@.subrange(
            from as int,
            i - 1,
        ));
        i -= 1;
    }
    i
}

/// `s` without the characters that `k` takes off both ends.
pub fn strip(s: &str, k: Strip) -> (r: String)
    ensures
        r@ == strip_ends(s@, k),
{
    let v = chars_of(s);
    let a = front_end(&v, k);
    let b = back_end(&v, a, k);
    slice_text(&v, a, b)
}

/// `s` without the characters that `k` takes off its back.
pub fn strip_end(s: &str, k: Strip) -> (r: String)
    ensures
        r@ == strip_back(s@, k),
{
    let v = chars_of(s);
    let b = back_end(&v, 0, k);
    assert(v@.skip(0) =~= v@);
    slice_text(&v, 0, b)
}

/// `s` without white space at its ends.
pub fn trim(s: &str) -> (r: String)
    ensures
        r@ == trimmed(s@),
{
    strip(s, Strip::White)
}

proof fn lemma_strip_front(s: Seq<char>, k: Strip)
    ensures
        strip_front(s, k).len() > 0 ==> !strips(k, strip_front(s, k)[0]),
    decreases s.len(),
{
    if s.len() > 0 && strips(k, s[0]) {
        lemma_strip_front(s.drop_first(), k);
    }
}

proof fn lemma_strip_back(s: Seq<char>, k: Strip)
    ensures
        strip_back(s, k).len() > 0 ==> !strips(k, strip_back(s, k).last()) && strip_back(s, k)[0]
            == s[0],
    decreases s.len(),
{
    if s.len() > 0 && strips(k, s.last()) {
        lemma_strip_back(s.drop_last(), k);
    }
}

/// What is stripped has nothing to strip left, so stripping twice is stripping once.
pub proof fn stripping_settles(s: Seq<char>, k: Strip)
    ensures
        strip_ends(strip_ends(s, k), k) == strip_ends(s, k),
        strip_ends(s, k).len() > 0 ==> !strips(k, strip_ends(s, k)[0]) && !strips(
            k,
            strip_ends(s, k).last(),
        ),
{
    lemma_strip_front(s, k);
    lemma_strip_back(strip_front(s, k), k);
}

/// One text and then another.
pub fn joined(a: &str, b: &str) -> (r: String)
    ensures
        r@ == a@ + b@,
{
    let mut s = a.to_owned();
    s.append(b);
    s
}

/// `s` with every `from`, found left to right, put as `to`.
pub open spec fn replaced(s: Seq<char>, from: Seq<char>, to: Seq<char>) -> Seq<char>
    decreases s.len(),
{
    match find(s, from) {
        Some(i) => if from.len() > 0 && 0 <= i && i + from.len() <= s.len() {
            s.take(i) + to + replaced(s.skip(i + from.len()), from, to)
        } else {
            s
        },
        None => s,
    }
}

proof fn lemma_find_skip(s: Seq<char>, n: Seq<char>, at: int, from: int)
    requires
        0 <= at <= s.len(),
        0 <= from,
    ensures
        find_from(s.skip(at), n, from) == match find_from(s, n, at + from) {
            Some(i) => Some(i - at),
            None => None,
        },
    decreases s.len() - at - from,
{
    let t = s.skip(at);
    if from + n.len() <= t.len() {
        assert(t.subrange(from, from + n.len()) =~= s.subrange(at + from, at + from + n.len()));
        if !matches_at(t, n, from) && from < t.len() {
            lemma_find_skip(s, n, at, from + 1);
        }
    }
}

/// `s` with every `from`, found left to right, put as `to`.
pub fn replace(s: &str, from: &str, to: &str) -> (r: String)
    requires
        from@.len() > 0,
    ensures
        r@ == replaced(s@, from@, to@),
{
    let v = chars_of(s);
    let f = chars_of(from);
    let mut out = String::new();
    let mut at: usize = 0;
    assert(v@.skip(0) =~= v@);
    assert(out@ + replaced(v@, f@, to@) =~= replaced(v@, f@, to@));
    loop
        invariant
            v@ == s@,
            f@ == from@,
            f@.len() > 0,
            at <= v@.len(),
            out@ + replaced(v@.skip(at as int), f@, to@) == replaced(s@, from@, to@),
        decreases v@.len() - at,
    {
        let ghost rest = v@.skip(at as int);
        proof {
            lemma_find_skip(v@, f@, at as int, 0);
        }
        match find_chars(&v, &f, at) {
            Some(i) => {
                let ghost before = out@;
                let piece = slice_text(&v, at, i);
                out.append(piece.as_str());
                out.append(to);
                let end: usize = v.len();
                assert(i + f@.len() <= end);
                at = i + f.len();
                assert(piece@ =~= rest.take(rest.len() - (v@.len() - i)));
                assert(v@.skip(at as int) =~= rest.skip(rest.len() - (v@.len() - i) + f@.len()));
                assert(before + (piece@ + to@ + replaced(v@.skip(at as int), f@, to@)) =~= out@
                    + replaced(v@.skip(at as int), f@, to@));
            },
            None => {
                let piece = slice_text(&v, at, v.len());
                out.append(piece.as_str());
                assert(piece@ =~= rest);
                return out;
            },
        }
    }
}

/// The text before and after the first `sep`.
pub open spec fn cut(s: Seq<char>, sep: Seq<char>) -> Option<(Seq<char>, Seq<char>)> {
    match find(s, sep) {
        Some(i) => Some((s.take(i), s.skip(i + sep.len()))),
        None => None,
    }
}

/// The text before and after the first `sep`.
pub fn split_once(s: &str, sep: &str) -> (r: Option<(String, String)>)
    ensures
        match r {
            Some((a, b)) => cut(s@, sep@) == Some((a@, b@)),
            None => cut(s@, sep@) is None,
        },
{
    let v = chars_of(s);
    let n = chars_of(sep);
    match find_chars(&v, &n, 0) {
        Some(i) => {
            let end: usize = v.len();
            assert(i + n@.len() <= end);
            let a = slice_text(&v, 0, i);
            let b = slice_text(&v, i + n.len(), end);
            assert(a@ =~= s@.take(i as int));
            assert(b@ =~= s@.skip(i + sep@.len()));
            Some((a, b))
        },
        None => None,
    }
}

/// The last position of `c` in `s`.
pub open spec fn last_of(s: Seq<char>, c: char) -> Option<int>
    decreases s.len(),
{
    if s.len() == 0 {
        None
    } else if s.last() == c {
        Some(s.len() - 1)
    } else {
        last_of(s.drop_last(), c)
    }
}

/// What follows the last `c` in `s`.
pub open spec fn after_last(s: Seq<char>, c: char) -> Option<Seq<char>> {
    match last_of(s, c) {
        Some(i) => Some(s.skip(i + 1)),
        None => None,
    }
}

/// What follows the last `c` in `s`.
pub fn tail_after(s: &str, c: char) -> (r: Option<String>)
    ensures
        text_of(r) == after_last(s@, c),
{
    let v = chars_of(s);
    let mut i: usize = v.len();
    assert(v@.take(i as int) =~= v@);
    while i > 0
        invariant
            i <= v@.len(),
            v@ == s@,
            last_of(v@.take(i as int), c) == last_of(s@, c),
        decreases i,
    {
        assert(v@.take(i as int).drop_last() =~= v@.take(i - 1));
        if v[i - 1] == c {
            let t = slice_text(&v, i, v.len());
            assert(t@ =~= s@.skip(i as int));
            return Some(t);
        }
        i -= 1;
    }
    None
}

/// The pieces of `s` between the occurrences of `c`.
pub open spec fn pieces(s: Seq<char>, c: char) -> Seq<Seq<char>>
    decreases s.len(),
{
    match find(s, seq![c]) {
        Some(i) => if 0 <= i < s.len() {
            seq![s.take(i)] + pieces(s.skip(i + 1), c)
        } else {
            seq![s]
        },
        None => seq![s],
    }
}

/// The views of a list of texts.
pub open spec fn texts_of(v: Seq<String>) -> Seq<Seq<char>> {
    v.map_values(|t: String| t@)
}

/// The views of a list with one more text.
pub proof fn lemma_texts_push(v: Seq<String>, s: String)
    ensures
        texts_of(v.push(s)) == texts_of(v).push(s@),
{
    assert(texts_of(v.push(s)) =~= texts_of(v).push(s@));
}

/// The pieces of `s` between the occurrences of `c`.
pub fn split(s: &str, c: char) -> (r: Vec<String>)
    ensures
        texts_of(r@) == pieces(s@, c),
{
    let v = chars_of(s);
    let mut sep: Vec<char> = Vec::new();
    sep.push(c);
    assert(sep@ =~= seq![c]);
    let mut out: Vec<String> = Vec::new();
    let mut at: usize = 0;
    assert(v@.skip(0) =~= v@);
    assert(texts_of(out@) + pieces(v@, c) =~= pieces(v@, c));
    loop
        invariant
            v@ == s@,
            sep@ == seq![c],
            at <= v@.len(),
            texts_of(out@) + pieces(v@.skip(at as int), c) == pieces(s@, c),
        decreases v@.len() - at,
    {
        let ghost rest = v@.skip(at as int);
        let ghost before = texts_of(out@);
        proof {
            lemma_find_skip(v@, sep@, at as int, 0);
        }
        match find_chars(&v, &sep, at) {
            Some(i) => {
                let total: usize = v.len();
                assert(i + sep@.len() <= total);
                let piece = slice_text(&v, at, i);
                let ghost head = piece@;
                let ghost old_at = at as int;
                out.push(piece);
                at = i + 1;
                assert(head =~= rest.take(i - old_at));
                assert(v@.skip(at as int) =~= rest.skip(i - old_at + 1));
                assert(texts_of(out@) =~= before.push(head));
                assert(before.push(head) + pieces(v@.skip(at as int), c) =~= before + (seq![head]
                    + pieces(v@.skip(at as int), c)));
            },
            None => {
                let piece = slice_text(&v, at, v.len());
                assert(piece@ =~= rest);
                out.push(piece);
                assert(texts_of(out@) =~= before + seq![rest]);
                return out;
            },
        }
    }
}

/// A line without the carriage return at its end.
pub open spec fn without_cr(s: Seq<char>) -> Seq<char> {
    if s.len() > 0 && s.last() == '\r' {
        s.drop_last()
    } else {
        s
    }
}

/// The lines of a text: each ends in a line feed, before which one carriage return is
/// dropped; the last may lack it.
pub open spec fn lines(s: Seq<char>) -> Seq<Seq<char>>
    decreases s.len(),
{
    if s.len() == 0 {
        seq![]
    } else {
        match find(s, seq!['\n']) {
            Some(i) => if 0 <= i < s.len() {
                seq![without_cr(s.take(i))] + lines(s.skip(i + 1))
            } else {
                seq![s]
            },
            None => seq![s],
        }
    }
}

/// The lines of a text.
pub fn lines_of(s: &str) -> (r: Vec<String>)
    ensures
        texts_of(r@) == lines(s@),
{
    let v = chars_of(s);
    let mut sep: Vec<char> = Vec::new();
    sep.push('\n');
    assert(sep@ =~= seq!['\n']);
    let mut out: Vec<String> = Vec::new();
    let mut at: usize = 0;
    assert(v@.skip(0) =~= v@);
    assert(texts_of(out@) + lines(v@) =~= lines(v@));
    while at < v.len()
        invariant
            v@ == s@,
            sep@ == seq!['\n'],
            at <= v@.len(),
            texts_of(out@) + lines(v@.skip(at as int)) == lines(s@),
        decreases v@.len() - at,
    {
        let ghost rest = v@.skip(at as int);
        let ghost before = texts_of(out@);
        proof {
            lemma_find_skip(v@, sep@, at as int, 0);
        }
        match find_chars(&v, &sep, at) {
            Some(i) => {
                let total: usize = v.len();
                assert(i + sep@.len() <= total);
                let end: usize = if i > at && v[i - 1] == '\r' {
                    i - 1
                } else {
                    i
                };
                let piece = slice_text(&v, at, end);
                let ghost head = piece@;
                let ghost old_at = at as int;
                out.push(piece);
                at = i + 1;
                assert(head =~= without_cr(rest.take(i - old_at)));
                assert(v@.skip(at as int) =~= rest.skip(i - old_at + 1));
                assert(texts_of(out@) =~= before.push(head));
                assert(before.push(head) + lines(v@.skip(at as int)) =~= before + (seq![head]
                    + lines(v@.skip(at as int))));
            },
            None => {
                let piece = slice_text(&v, at, v.len());
                assert(piece@ =~= rest);
                out.push(piece);
                assert(texts_of(out@) =~= before + seq![rest]);
                return out;
            },
        }
    }
    assert(v@.skip(at as int) =~= Seq::<char>::empty());
    assert(texts_of(out@) + lines(v@.skip(at as int)) =~= texts_of(out@));
    out
}

/// What is stripped off a text are just characters to be stripped, at its two ends.
pub proof fn only_ends_are_stripped(s: Seq<char>, k: Strip) -> (r: (Seq<char>, Seq<char>))
    ensures
        s == r.0 + strip_ends(s, k) + r.1,
        forall|i: int| 0 <= i < r.0.len() ==> strips(k, #[trigger] r.0[i]),
        forall|i: int| 0 <= i < r.1.len() ==> strips(k, #[trigger] r.1[i]),
{
    let a = lemma_front_off(s, k);
    let b = lemma_back_off(strip_front(s, k), k);
    assert(s =~= a + strip_ends(s, k) + b);
    (a, b)
}

proof fn lemma_front_off(s: Seq<char>, k: Strip) -> (a: Seq<char>)
    ensures
        s == a + strip_front(s, k),
        forall|i: int| 0 <= i < a.len() ==> strips(k, #[trigger] a[i]),
    decreases s.len(),
{
    if s.len() > 0 && strips(k, s[0]) {
        let a = lemma_front_off(s.drop_first(), k);
        let r = seq![s[0]] + a;
        assert(s =~= seq![s[0]] + s.drop_first());
        assert(s =~= r + strip_front(s, k));
        r
    } else {
        assert(s =~= Seq::<char>::empty() + s);
        Seq::empty()
    }
}

proof fn lemma_back_off(s: Seq<char>, k: Strip) -> (b: Seq<char>)
    ensures
        s == strip_back(s, k) + b,
        forall|i: int| 0 <= i < b.len() ==> strips(k, #[trigger] b[i]),
    decreases s.len(),
{
    if s.len() > 0 && strips(k, s.last()) {
        let b = lemma_back_off(s.drop_last(), k);
        let r = b.push(s.last());
        assert(s =~= s.drop_last().push(s.last()));
        assert(s =~= strip_back(s, k) + r);
        r
    } else {
        assert(s =~= s + Seq::<char>::empty());
        Seq::empty()
    }
}

/// A text is cut at the first place of a separator, and the two parts with the separator between
/// them are the text again.
pub proof fn a_text_is_cut_at_the_first_place(s: Seq<char>, sep: Seq<char>)
    ensures
        cut(s, sep) matches Some(parts) ==> s == parts.0 + sep + parts.1 && forall|j: int|
            0 <= j < parts.0.len() ==> !matches_at(s, sep, j),
        cut(s, sep) is None ==> !self::has(s, sep),
{
    lemma_find_from(s, sep, 0);
    if cut(s, sep) is Some {
        let i = find(s, sep)->0;
        assert(s =~= s.take(i) + s.subrange(i, i + sep.len()) + s.skip(i + sep.len()));
    } else {
        assert forall|i: int| !matches_at(s, sep, i) by {
            if i < 0 {
            }
        }
    }
}

pub proof fn lemma_last_of_none(s: Seq<char>, c: char)
    requires
        !s.contains(c),
    ensures
        last_of(s, c) is None,
        after_last(s, c) is None,
    decreases s.len(),
{
    if s.len() > 0 {
        assert(s[s.len() - 1] == s.last());
        let t = s.drop_last();
        assert(!t.contains(c)) by {
            if t.contains(c) {
                let i = choose|i: int| 0 <= i < t.len() && t[i] == c;
                assert(s[i] == c);
            }
        }
        lemma_last_of_none(t, c);
    }
}

/// What stands after the last place of a character is found.
pub proof fn what_comes_last_is_found(before: Seq<char>, c: char, after: Seq<char>)
    requires
        !after.contains(c),
    ensures
        after_last(before + seq![c] + after, c) == Some(after),
    decreases after.len(),
{
    lemma_last_at(before, c, after);
    let s = before + seq![c] + after;
    assert(s.skip(before.len() as int + 1) =~= after);
}

proof fn lemma_last_at(before: Seq<char>, c: char, after: Seq<char>)
    requires
        !after.contains(c),
    ensures
        last_of(before + seq![c] + after, c) == Some(before.len() as int),
    decreases after.len(),
{
    let s = before + seq![c] + after;
    if after.len() > 0 {
        let t = after.drop_last();
        assert(!t.contains(c)) by {
            if t.contains(c) {
                let i = choose|i: int| 0 <= i < t.len() && t[i] == c;
                assert(after[i] == c);
            }
        }
        lemma_last_at(before, c, t);
        assert(after[after.len() - 1] == s.last());
        assert(s.drop_last() =~= before + seq![c] + t);
    } else {
        assert(s.last() == c);
    }
}

/// The pieces of a text are taken at the separator: the first ends at its first place, and a text
/// without one is a single piece.
pub proof fn pieces_end_at_the_separator(first: Seq<char>, c: char, rest: Seq<char>)
    requires
        !first.contains(c),
    ensures
        pieces(first + seq![c] + rest, c) == seq![first] + pieces(rest, c),
        pieces(first, c) == seq![first],
{
    lemma_first_at(first, c, rest);
    let s = first + seq![c] + rest;
    let n = first.len() as int;
    assert(s.take(n) =~= first);
    assert(s.skip(n + 1) =~= rest);
}

proof fn lemma_first_at(first: Seq<char>, c: char, rest: Seq<char>)
    requires
        !first.contains(c),
    ensures
        find(first + seq![c] + rest, seq![c]) == Some(first.len() as int),
        find(first, seq![c]) is None,
{
    let s = first + seq![c] + rest;
    let n = first.len() as int;
    lemma_find_from(s, seq![c], 0);
    lemma_find_from(first, seq![c], 0);
    assert(s.subrange(n, n + 1) =~= seq![c]);
    assert(matches_at(s, seq![c], n));
    let i = find(s, seq![c])->0;
    if i < n {
        assert(s.subrange(i, i + 1)[0] == s[i]);
        assert(first[i] == c);
    }
    if find(first, seq![c]) is Some {
        let j = find(first, seq![c])->0;
        assert(first.subrange(j, j + 1)[0] == first[j]);
        assert(first[j] == c);
    }
}

/// The lines of a text end at its line breaks, a carriage return before one belongs to it, and none
/// is lost.
pub proof fn lines_end_at_line_breaks(first: Seq<char>, rest: Seq<char>)
    requires
        !first.contains('\n'),
    ensures
        first.len() == 0 || first.last() != '\r' ==> lines(first + seq!['\n'] + rest) == seq![first]
            + lines(rest),
        first.len() > 0 && first.last() == '\r' ==> lines(first + seq!['\n'] + rest) == seq![
            first.drop_last(),
        ] + lines(rest),
        first.len() > 0 ==> lines(first) == seq![first],
        lines(Seq::empty()).len() == 0,
{
    lemma_first_at(first, '\n', rest);
    let s = first + seq!['\n'] + rest;
    let n = first.len() as int;
    assert(s.take(n) =~= first);
    assert(s.skip(n + 1) =~= rest);
}

/// A text is replaced at every place of what is sought and nowhere else: up to the first place it
/// stays, and after it the rest is replaced in turn.
pub proof fn every_place_is_replaced(s: Seq<char>, from: Seq<char>, to: Seq<char>)
    requires
        from.len() > 0,
    ensures
        !self::has(s, from) ==> replaced(s, from, to) == s,
        find(s, from) matches Some(i) ==> replaced(s, from, to) == s.take(i) + to + replaced(
            s.skip(i + from.len()),
            from,
            to,
        ),
{
    lemma_find_from(s, from, 0);
    if find(s, from) is Some {
        assert(matches_at(s, from, find(s, from)->0));
    }
}

/// Case changes letters of the alphabet alone, one for one, and back again.
pub proof fn case_changes_letters_alone(s: Seq<char>, i: int)
    requires
        0 <= i < s.len(),
    ensures
        lower(s).len() == s.len() && upper(s).len() == s.len(),
        !('A' <= s[i] && s[i] <= 'Z') ==> lower(s)[i] == s[i],
        !('a' <= s[i] && s[i] <= 'z') ==> upper(s)[i] == s[i],
        'A' <= s[i] && s[i] <= 'Z' ==> lower(s)[i] as u32 == s[i] as u32 + 32,
        'a' <= s[i] && s[i] <= 'z' ==> upper(s)[i] as u32 + 32 == s[i] as u32,
        lower(upper(s))[i] == lower(s)[i],
{
}

/// A word stands in a text where the text can be taken apart around it.
pub proof fn words_stand_in_a_text(a: Seq<char>, word: Seq<char>, b: Seq<char>)
    ensures
        has(a + word + b, word),
        begins(word + b, word),
        without_prefix(word + b, word) == Some(b),
{
    let s = a + word + b;
    let n = a.len() as int;
    assert(s.subrange(n, n + word.len()) =~= word);
    assert(matches_at(s, word, n));
    assert((word + b).subrange(0, word.len() as int) =~= word);
    assert((word + b).skip(word.len() as int) =~= b);
}

/// Of the plain characters, white space is the blank, the tab and the marks of a line's or a page's
/// end; no letter, digit or sign is.
pub proof fn blanks_are_white(c: char)
    requires
        (c as u32) < 0x80,
    ensures
        is_white(c) <==> c == ' ' || c == '\t' || c == '\n' || c == '\r' || c == '\u{b}' || c
            == '\u{c}',
{
}

} // verus!
