//! The files that are written and the mail that carries them.

use vstd::prelude::*;

use crate::text;

verus! {

/// The name of a PDF file by the time of the scan.
pub fn scan_pdf_name(stamp: &str) -> (r: String)
    ensures
        r@ == "scan_"@ + stamp@ + ".pdf"@,
{
    let mut s = "scan_".to_owned();
    s.append(stamp);
    s.append(".pdf");
    s
}

/// The name of a PDF file for an email by the time of the scan.
pub fn email_pdf_name(stamp: &str) -> (r: String)
    ensures
        r@ == "scan_"@ + stamp@ + "-email.pdf"@,
{
    let mut s = "scan_".to_owned();
    s.append(stamp);
    s.append("-email.pdf");
    s
}

/// A character as it stands in a JSON string.
pub open spec fn escaped_char(c: char) -> Seq<char> {
    if c == '"' {
        seq!['\\', '"']
    } else if c == '\\' {
        seq!['\\', '\\']
    } else if c == '\n' {
        seq!['\\', 'n']
    } else if c == '\r' {
        seq!['\\', 'r']
    } else if c == '\t' {
        seq!['\\', 't']
    } else {
        seq![c]
    }
}

/// A text as it stands between the quotes of a JSON string.
pub open spec fn escaped(s: Seq<char>) -> Seq<char>
    decreases s.len(),
{
    if s.len() == 0 {
        Seq::empty()
    } else {
        escaped(s.drop_last()) + escaped_char(s.last())
    }
}

/// The JSON string of a text.
pub open spec fn quoted(s: Seq<char>) -> Seq<char> {
    seq!['"'] + escaped(s) + seq!['"']
}

/// The JSON string of a text.
pub fn json_string(value: &str) -> (r: String)
    ensures
        r@ == quoted(value@),
{
    let chars = text::chars_of(value);
    let mut out = String::new();
    out.push('"');
    let mut i: usize = 0;
    assert(chars@.take(0) =~= Seq::empty());
    assert(out@ =~= seq!['"'] + escaped(chars@.take(0)));
    while i < chars.len()
        invariant
            i <= chars@.len(),
            out@ == seq!['"'] + escaped(chars@.take(i as int)),
        decreases chars@.len() - i,
    {
        let c = chars[i];
        proof {
            assert(chars@.take(i + 1).drop_last() =~= chars@.take(i as int));
            assert(chars@.take(i + 1).last() == c);
        }
        let ghost before = out@;
        if c == '"' {
            out.push('\\');
            out.push('"');
        } else if c == '\\' {
            out.push('\\');
            out.push('\\');
        } else if c == '\n' {
            out.push('\\');
            out.push('n');
        } else if c == '\r' {
            out.push('\\');
            out.push('r');
        } else if c == '\t' {
            out.push('\\');
            out.push('t');
        } else {
            out.push(c);
        }
        assert(out@ =~= before + escaped_char(c));
        assert(out@ =~= seq!['"'] + (escaped(chars@.take(i as int)) + escaped_char(c)));
        i += 1;
    }
    assert(chars@.take(i as int) =~= chars@);
    out.push('"');
    assert(out@ =~= quoted(value@));
    out
}

/// The character that stands after a backslash in a JSON string.
pub open spec fn unescaped_char(c: char) -> char {
    if c == 'n' {
        '\n'
    } else if c == 'r' {
        '\r'
    } else if c == 't' {
        '\t'
    } else {
        c
    }
}

/// The text that stands between the quotes of a JSON string.
pub open spec fn read_back(s: Seq<char>) -> Seq<char>
    decreases s.len(),
{
    if s.len() == 0 {
        Seq::empty()
    } else if s[0] == '\\' && s.len() > 1 {
        seq![unescaped_char(s[1])] + read_back(s.skip(2))
    } else {
        seq![s[0]] + read_back(s.skip(1))
    }
}

proof fn lemma_front(c: char, rest: Seq<char>)
    ensures
        read_back(escaped_char(c) + rest) == seq![c] + read_back(rest),
{
    let e = escaped_char(c);
    let s = e + rest;
    if e.len() == 2 {
        assert(s[0] == '\\');
        assert(s.skip(2) =~= rest);
    } else {
        assert(s[0] == c);
        assert(s.skip(1) =~= rest);
        assert(c != '\\');
    }
}

proof fn lemma_escaped_front(s: Seq<char>)
    requires
        s.len() > 0,
    ensures
        escaped(s) == escaped_char(s[0]) + escaped(s.skip(1)),
    decreases s.len(),
{
    if s.len() == 1 {
        assert(s.drop_last() =~= Seq::empty());
        assert(s.skip(1) =~= Seq::empty());
        assert(escaped(s) =~= escaped_char(s[0]) + escaped(s.skip(1)));
    } else {
        lemma_escaped_front(s.drop_last());
        assert(s.drop_last().skip(1) =~= s.skip(1).drop_last());
        assert(s.skip(1).last() == s.last());
        assert(escaped(s) =~= escaped_char(s[0]) + escaped(s.skip(1)));
    }
}

/// A text is read back from its JSON string as it was.
pub proof fn json_reads_back(s: Seq<char>)
    ensures
        quoted(s).len() >= 2,
        read_back(quoted(s).subrange(1, quoted(s).len() - 1)) == s,
    decreases s.len(),
{
    assert(quoted(s).subrange(1, quoted(s).len() - 1) =~= escaped(s));
    lemma_read_back(s);
}

proof fn lemma_read_back(s: Seq<char>)
    ensures
        read_back(escaped(s)) == s,
    decreases s.len(),
{
    if s.len() > 0 {
        lemma_escaped_front(s);
        lemma_front(s[0], escaped(s.skip(1)));
        lemma_read_back(s.skip(1));
        assert(seq![s[0]] + s.skip(1) =~= s);
    } else {
        assert(s =~= Seq::empty());
    }
}

/// The request to the desktop to open a mail with a file attached.
pub open spec fn compose_request(path: Seq<char>) -> Seq<char> {
    "{\"compose\":true,\"attachments\":["@ + quoted(path)
        + "],\"mailto\":\"mailto:?subject=Scan\"}"@
}

/// The request to the desktop to open a mail with the file at `path` attached.
pub fn compose_payload(path: &str) -> (r: String)
    ensures
        r@ == compose_request(path@),
{
    let mut s = "{\"compose\":true,\"attachments\":[".to_owned();
    s.append(json_string(path).as_str());
    s.append("],\"mailto\":\"mailto:?subject=Scan\"}");
    s
}

/// The request for a mail names the file and nothing else that depends on it.
pub proof fn a_mail_carries_its_file(path: Seq<char>, other: Seq<char>)
    ensures
        text::has(compose_request(path), "\"attachments\":["@ + quoted(path) + "]"@),
        compose_request(path) == compose_request(other) ==> path == other,
{
    reveal_strlit("{\"compose\":true,\"attachments\":[");
    reveal_strlit("\"attachments\":[");
    reveal_strlit("],\"mailto\":\"mailto:?subject=Scan\"}");
    reveal_strlit("]");
    let a = "{\"compose\":true,\"attachments\":["@;
    let b = "],\"mailto\":\"mailto:?subject=Scan\"}"@;
    let word = "\"attachments\":["@ + quoted(path) + "]"@;
    let s = compose_request(path);
    assert(a.len() == 31 && "\"attachments\":["@.len() == 15);
    assert(s.subrange(16, 16int + word.len()) =~= word);
    assert(text::matches_at(s, word, 16));
    if s == compose_request(other) {
        let t = compose_request(other);
        assert(s.len() == a.len() + quoted(path).len() + b.len());
        assert(t.len() == a.len() + quoted(other).len() + b.len());
        assert(quoted(path) =~= s.subrange(31, 31int + quoted(path).len()));
        assert(quoted(other) =~= t.subrange(31, 31int + quoted(other).len()));
        json_reads_back(path);
        json_reads_back(other);
    }
}

/// In a JSON text every character stands for itself but for quotes, backslashes, line breaks and
/// tabs, which are escaped, each at its place.
pub proof fn every_character_is_escaped(a: Seq<char>, b: Seq<char>, c: char)
    ensures
        escaped(a + b) == escaped(a) + escaped(b),
        c != '"' && c != '\\' && c != '\n' && c != '\r' && c != '\t' ==> escaped(seq![c]) == seq![c],
        escaped(seq!['"']) == seq!['\\', '"'],
        escaped(seq!['\\']) == seq!['\\', '\\'],
        escaped(seq!['\n']) == seq!['\\', 'n'],
        escaped(seq!['\r']) == seq!['\\', 'r'],
        escaped(seq!['\t']) == seq!['\\', 't'],
        escaped(Seq::empty()).len() == 0,
    decreases b.len(),
{
    lemma_one_escaped(c);
    lemma_one_escaped('"');
    lemma_one_escaped('\\');
    lemma_one_escaped('\n');
    lemma_one_escaped('\r');
    lemma_one_escaped('\t');
    if b.len() == 0 {
        assert(a + b =~= a);
        assert(escaped(a) + escaped(b) =~= escaped(a));
    } else {
        every_character_is_escaped(a, b.drop_last(), c);
        assert((a + b).drop_last() =~= a + b.drop_last());
        assert(escaped(a) + (escaped(b.drop_last()) + escaped_char(b.last())) =~= escaped(a)
            + escaped(b.drop_last()) + escaped_char(b.last()));
    }
}

proof fn lemma_one_escaped(c: char)
    ensures
        escaped(seq![c]) == escaped_char(c),
{
    assert(seq![c].drop_last() =~= Seq::empty());
    assert(escaped(Seq::<char>::empty()) =~= Seq::empty());
    assert(Seq::<char>::empty() + escaped_char(c) =~= escaped_char(c));
}

} // verus!
