use scanbro::mail::{compose_payload, email_pdf_name, json_string, scan_pdf_name};
use scanbro::percent::parse_percent;
use scanbro::text::{
    contains, lines_of, replace, same, split, split_once, starts_with, strip, strip_end,
    strip_prefix, tail_after, to_lower, to_upper, trim, Strip,
};

#[test]
fn text_functions_agree_with_the_standard_library() {
    let samples = [
        "",
        " ",
        "a",
        "  Brother DS-940DW \t\n",
        "multipart/related; boundary=\"x\"",
        "a;b;;c",
        ";",
        "ÄÖÜ straße İ ſ",
        "\u{2003}wide\u{3000}",
        "//eSCL//",
        "...local...",
        "one\ntwo\r\nthree\n\nfour",
        "\n",
        "ends with cr\r",
        "abcabcabc",
        "aaaa",
    ];
    let needles = ["a", "abc", "aa", "/eSCL", "=", ";", "\n", "ß", "zz"];
    for s in samples {
        assert_eq!(trim(s), s.trim(), "{s:?}");
        assert_eq!(to_lower(s), s.to_ascii_lowercase(), "{s:?}");
        assert_eq!(to_upper(s), s.to_ascii_uppercase(), "{s:?}");
        assert_eq!(strip(s, Strip::Only('/')), s.trim_matches('/'), "{s:?}");
        assert_eq!(strip(s, Strip::White), s.trim(), "{s:?}");
        assert_eq!(strip_end(s, Strip::Only('.')), s.trim_end_matches('.'), "{s:?}");
        assert_eq!(split(s, ';'), s.split(';').collect::<Vec<_>>(), "{s:?}");
        assert_eq!(lines_of(s), s.lines().collect::<Vec<_>>(), "{s:?}");
        assert_eq!(
            tail_after(s, ':').as_deref(),
            s.rsplit_once(':').map(|(_, t)| t),
            "{s:?}"
        );
        for n in needles {
            assert_eq!(contains(s, n), s.contains(n), "{s:?} {n:?}");
            assert_eq!(starts_with(s, n), s.starts_with(n), "{s:?} {n:?}");
            assert_eq!(strip_prefix(s, n).as_deref(), s.strip_prefix(n), "{s:?} {n:?}");
            assert_eq!(replace(s, n, "-+"), s.replace(n, "-+"), "{s:?} {n:?}");
            let cut = split_once(s, n);
            assert_eq!(
                cut.as_ref().map(|(a, b)| (a.as_str(), b.as_str())),
                s.split_once(n),
                "{s:?} {n:?}"
            );
            assert_eq!(same(s, n), s == n, "{s:?} {n:?}");
        }
    }
}

#[test]
fn percentages_agree_with_the_parser_of_floating_point() {
    let samples = [
        "", " ", "%", "0", "100", "73", "73%", " 73 % ", "73%%", "+5", "-5", "-0", "12.9", "99.999",
        "99.9999999999999999", "100.0001", "1e2", "1e-2", "5e-1", "0.5e1", "1e400", "1e-400", ".5",
        "5.", ".", "e5", "1e", "1e+", "1e+1", "1E1", "inf", "-inf", "+Infinity", "nan", "NaN",
        "infinity%", "255", "256", "1_000", "0x10", "  42\n", "4 2", "٣", "1e99999999999999999999",
        "0e99999999999999999999", "0.99999997", "0.99999998", "1.9999999", "1.99999999", "49.999998",
        "49.9999999", "00000000000000000000000012", "12.00000000000000000000000000001",
        "63.999997", "63.9999985", "63.99999809265137",
    ];
    for s in samples {
        let trimmed = s.trim().trim_end_matches('%');
        let expected = trimmed.parse::<f32>().ok().map(|v| v.clamp(0.0, 100.0) as u8);
        assert_eq!(parse_percent(s), expected, "{s:?}");
    }
    let mut n: u32 = 0;
    while n < 2_000 {
        let s = format!("{}.{:03}%", n / 19, (n * 7919) % 1000);
        let expected =
            s.trim_end_matches('%').parse::<f32>().ok().map(|v| v.clamp(0.0, 100.0) as u8);
        assert_eq!(parse_percent(&s), expected, "{s}");
        n += 1;
    }
}

#[test]
fn json_strings_are_escaped() {
    assert_eq!(json_string(""), "\"\"");
    assert_eq!(json_string("/home/me/scan.pdf"), "\"/home/me/scan.pdf\"");
    assert_eq!(json_string("a\"b\\c\nd\re\tf"), "\"a\\\"b\\\\c\\nd\\re\\tf\"");
    assert_eq!(json_string("Übersicht"), "\"Übersicht\"");
}

#[test]
fn json_string_of_a_text_reads_back() {
    for s in ["", "plain", "\\n", "\n", "\"", "\\\"", "a\\\\b", "tab\tend\\"] {
        let quoted = json_string(s);
        let inner = &quoted[1..quoted.len() - 1];
        let mut back = String::new();
        let mut chars = inner.chars();
        while let Some(c) = chars.next() {
            if c == '\\' {
                match chars.next() {
                    Some('n') => back.push('\n'),
                    Some('r') => back.push('\r'),
                    Some('t') => back.push('\t'),
                    Some(other) => back.push(other),
                    None => panic!("a backslash ends {quoted}"),
                }
            } else {
                back.push(c);
            }
        }
        assert_eq!(back, s);
    }
}

#[test]
fn files_and_mails_are_named() {
    assert_eq!(scan_pdf_name("20260102-030405"), "scan_20260102-030405.pdf");
    assert_eq!(email_pdf_name("20260102-030405"), "scan_20260102-030405-email.pdf");
    assert_eq!(
        compose_payload("/tmp/a \"b\".pdf"),
        "{\"compose\":true,\"attachments\":[\"/tmp/a \\\"b\\\".pdf\"],\"mailto\":\"mailto:?subject=Scan\"}"
    );
}

#[test]
fn trimming_twice_is_trimming_once() {
    let once = trim(" \t DS-940DW \u{3000}\n");
    assert_eq!(once, "DS-940DW");
    assert_eq!(trim(&once), once);
}
