//! Percentages in device reports: a decimal numeral, taken in single precision, held to the
//! range from 0 to 100 and cut to a whole number.

use vstd::prelude::*;
use vstd::arithmetic::div_mod::*;
use vstd::arithmetic::power::*;

use crate::number;
use crate::text;
use crate::text::Strip;

verus! {

/// Every character of `s` is a decimal digit.
pub open spec fn is_digits(s: Seq<char>) -> bool {
    forall|i: int| 0 <= i < s.len() ==> '0' <= #[trigger] s[i] && s[i] <= '9'
}

/// A decimal numeral: the digits before and after its point, and its power of ten.
pub struct Numeral {
    pub whole: Seq<char>,
    pub part: Seq<char>,
    pub exp: int,
}

/// `s` begins with a minus sign.
pub open spec fn negative(s: Seq<char>) -> bool {
    s.len() > 0 && s[0] == '-'
}

/// `s` without a sign at its front.
pub open spec fn unsigned(s: Seq<char>) -> Seq<char> {
    if s.len() > 0 && (s[0] == '+' || s[0] == '-') {
        s.drop_first()
    } else {
        s
    }
}

/// The power of ten that stands behind the letter `e`.
pub open spec fn exponent(s: Seq<char>) -> Option<int> {
    let d = unsigned(s);
    if d.len() == 0 || !is_digits(d) {
        None
    } else if negative(s) {
        Some(-number::decimal_value(d))
    } else {
        Some(number::decimal_value(d))
    }
}

/// The digits before and after the point.
pub open spec fn digits_of(s: Seq<char>) -> Option<(Seq<char>, Seq<char>)> {
    let (whole, part) = match text::find(s, seq!['.']) {
        Some(i) => (s.take(i), s.skip(i + 1)),
        None => (s, Seq::empty()),
    };
    if whole.len() + part.len() > 0 && is_digits(whole) && is_digits(part) {
        Some((whole, part))
    } else {
        None
    }
}

/// The numeral that an unsigned text writes, where it writes one: digits with at most one
/// point, then perhaps the letter `e` and a signed power of ten.
pub open spec fn numeral(s: Seq<char>) -> Option<Numeral> {
    let (body, exp) = match text::find(text::lower(s), seq!['e']) {
        Some(i) => (s.take(i), exponent(s.skip(i + 1))),
        None => (s, Some(0)),
    };
    match (digits_of(body), exp) {
        (Some((whole, part)), Some(exp)) => Some(Numeral { whole, part, exp }),
        _ => None,
    }
}

/// The digits `s`, read as a whole number with its point moved behind digit `m`, rounded down.
pub open spec fn shifted(s: Seq<char>, m: int) -> int {
    if m >= s.len() {
        number::decimal_value(s) * pow(10, (m - s.len()) as nat)
    } else {
        number::decimal_value(s) / pow(10, (s.len() - m) as nat)
    }
}

/// Digits kept behind the point: every midpoint between a whole number up to 100 and its
/// single precision predecessor has at most this many.
pub const PLACES: i128 = 25;

/// The least power of two that is not below `k`.
pub open spec fn power_over(k: int) -> int {
    if k <= 1 {
        1
    } else if k <= 2 {
        2
    } else if k <= 4 {
        4
    } else if k <= 8 {
        8
    } else if k <= 16 {
        16
    } else if k <= 32 {
        32
    } else if k <= 64 {
        64
    } else {
        128
    }
}

/// The least value, with `PLACES` digits behind the point, that single precision rounds to `k`
/// or more: `k` less half the distance to its predecessor.
pub open spec fn reach(k: int) -> int {
    k * 10_000_000_000_000_000_000_000_000 - 298_023_223_876_953_125 * power_over(k)
}

/// The greatest whole number up to `k` that the value `q` reaches.
pub open spec fn whole_reached(q: int, k: nat) -> nat
    decreases k,
{
    if k == 0 || q >= reach(k as int) {
        k
    } else {
        whole_reached(q, (k - 1) as nat)
    }
}

/// The percentage that an unsigned numeral stands for.
pub open spec fn percent_of(n: Numeral) -> nat {
    whole_reached(shifted(n.whole + n.part, n.whole.len() + n.exp + PLACES), 100)
}

/// The percentage that a trimmed text stands for.
pub open spec fn percent_value(s: Seq<char>) -> Option<nat> {
    let rest = unsigned(s);
    let word = text::lower(rest);
    if word == "nan"@ {
        Some(0)
    } else if word == "inf"@ || word == "infinity"@ {
        Some(
            if negative(s) {
                0
            } else {
                100
            },
        )
    } else {
        match numeral(rest) {
            Some(n) => Some(
                if negative(s) {
                    0
                } else {
                    percent_of(n)
                },
            ),
            None => None,
        }
    }
}

/// The percentage that a text stands for: white space at its ends and percent signs behind the
/// numeral do not count.
pub open spec fn percent(s: Seq<char>) -> Option<nat> {
    percent_value(text::strip_back(text::trimmed(s), Strip::Only('%')))
}

proof fn lemma_value_bound(s: Seq<char>)
    requires
        is_digits(s),
    ensures
        0 <= number::decimal_value(s) < pow(10, s.len()),
    decreases s.len(),
{
    if s.len() == 0 {
        lemma_pow0(10);
    } else {
        let t = s.drop_last();
        assert forall|i: int| 0 <= i < t.len() implies '0' <= #[trigger] t[i] && t[i] <= '9' by {
            assert(t[i] == s[i]);
        }
        lemma_value_bound(t);
        lemma_pow_adds(10, t.len(), 1);
        lemma_pow1(10);
        assert(pow(10, s.len()) == pow(10, t.len()) * 10);
        assert('0' <= s.last() && s.last() <= '9');
    }
}

proof fn lemma_shift_step(s: Seq<char>, m: int)
    requires
        is_digits(s),
        0 <= m,
    ensures
        shifted(s, m + 1) == shifted(s, m) * 10 + (if m < s.len() {
            s[m] as int - 48
        } else {
            0
        }),
        shifted(s, 0) == 0,
{
    lemma_shift_zero(s, 0);
    if m >= s.len() {
        let t = (m - s.len()) as nat;
        lemma_pow_adds(10, t, 1);
        lemma_pow1(10);
        assert(number::decimal_value(s) * (pow(10, t) * 10) == number::decimal_value(s) * pow(10, t) * 10)
            by (nonlinear_arith);
    } else {
        lemma_take(s, m);
        if m + 1 < s.len() {
            lemma_take(s, m + 1);
        } else {
            assert(s.take(m + 1) =~= s);
            lemma_pow0(10);
        }
        assert(s.take(m + 1).drop_last() =~= s.take(m));
    }
}

proof fn lemma_take(s: Seq<char>, m: int)
    requires
        is_digits(s),
        0 <= m < s.len(),
    ensures
        shifted(s, m) == number::decimal_value(s.take(m)),
    decreases s.len(),
{
    let t = s.drop_last();
    assert forall|i: int| 0 <= i < t.len() implies '0' <= #[trigger] t[i] && t[i] <= '9' by {
        assert(t[i] == s[i]);
    }
    lemma_value_bound(s);
    lemma_value_bound(t);
    assert('0' <= s.last() && s.last() <= '9');
    assert(number::decimal_value(s) / 10 == number::decimal_value(t));
    let k = (s.len() - m - 1) as nat;
    lemma_pow_adds(10, 1, k);
    lemma_pow1(10);
    lemma_pow_positive(10, k);
    lemma_div_denominator(number::decimal_value(s), 10, pow(10, k));
    assert(shifted(s, m) == number::decimal_value(t) / pow(10, k));
    if m < t.len() {
        lemma_take(t, m);
        assert(t.take(m) =~= s.take(m));
    } else {
        assert(t =~= s.take(m));
        lemma_pow0(10);
    }
}

proof fn lemma_shift_zero(s: Seq<char>, m: int)
    requires
        is_digits(s),
        m <= 0,
    ensures
        shifted(s, m) == 0,
{
    lemma_value_bound(s);
    if m < s.len() {
        let a = s.len();
        let b = (-m) as nat;
        lemma_pow_adds(10, a, b);
        lemma_pow_positive(10, b);
        lemma_pow_positive(10, a);
        assert(pow(10, a) <= pow(10, a) * pow(10, b)) by (nonlinear_arith)
            requires
                pow(10, b) >= 1,
                pow(10, a) >= 1,
        ;
        lemma_basic_div(number::decimal_value(s), pow(10, (s.len() - m) as nat));
    } else {
        assert(s =~= Seq::<char>::empty());
        assert(number::decimal_value(s) == 0);
    }
}

proof fn lemma_shift_grows(s: Seq<char>, a: int, b: int)
    requires
        is_digits(s),
        0 <= a <= b,
    ensures
        0 <= shifted(s, a) <= shifted(s, b),
    decreases b - a,
{
    lemma_value_bound(s);
    if a == b {
        if a >= s.len() {
            lemma_pow_positive(10, (a - s.len()) as nat);
            assert(0 <= number::decimal_value(s) * pow(10, (a - s.len()) as nat)) by (nonlinear_arith)
                requires
                    0 <= number::decimal_value(s),
                    0 <= pow(10, (a - s.len()) as nat),
            ;
        } else {
            lemma_take(s, a);
            let t = s.take(a);
            assert forall|i: int| 0 <= i < t.len() implies '0' <= #[trigger] t[i] && t[i]
                <= '9' by {
                assert(t[i] == s[i]);
            }
            lemma_value_bound(t);
        }
    } else {
        lemma_shift_grows(s, a, b - 1);
        lemma_shift_step(s, b - 1);
        if b - 1 < s.len() {
            assert('0' <= s[b - 1] && s[b - 1] <= '9');
        }
    }
}

/// The greatest value told apart: above it every value stands for the whole range.
const CAP: u128 = 10_000_000_000_000_000_000_000_000_000;

proof fn lemma_shift_far(s: Seq<char>, m: int)
    requires
        is_digits(s),
        m >= s.len() + 28,
        number::decimal_value(s) > 0,
    ensures
        shifted(s, m) >= CAP,
{
    let k = (m - s.len()) as nat;
    lemma_pow_increases(10, 28, k);
    assert(pow(10, 28) == CAP) by {
        assert(pow(10, 7) == 10_000_000) by {
            reveal_with_fuel(pow, 8);
        }
        lemma_pow_adds(10, 7, 7);
        assert(pow(10, 14) == 100_000_000_000_000);
        lemma_pow_adds(10, 14, 14);
    }
    assert(number::decimal_value(s) * pow(10, k) >= pow(10, k)) by (nonlinear_arith)
        requires
            number::decimal_value(s) >= 1,
            pow(10, k) >= 0,
    ;
}

proof fn lemma_shift_none(s: Seq<char>, m: int)
    requires
        is_digits(s),
        m >= s.len(),
        number::decimal_value(s) == 0,
    ensures
        shifted(s, m) == 0,
{
    assert(0 * pow(10, (m - s.len()) as nat) == 0) by (nonlinear_arith);
}

/// `shifted`, told apart up to `CAP`.
fn shift(v: &Vec<char>, m: i128) -> (r: u128)
    requires
        is_digits(v@),
    ensures
        r <= CAP,
        r == CAP ==> shifted(v@, m as int) >= CAP,
        r < CAP ==> r == shifted(v@, m as int),
{
    if m <= 0 {
        proof {
            lemma_shift_zero(v@, m as int);
        }
        return 0;
    }
    let n: usize = v.len();
    let mut acc: u128 = 0;
    let mut i: i128 = 0;
    proof {
        lemma_shift_step(v@, 0);
    }
    while i < m
        invariant
            is_digits(v@),
            n == v@.len(),
            0 <= i <= m,
            acc < CAP,
            acc == shifted(v@, i as int),
        decreases m - i,
    {
        proof {
            lemma_shift_step(v@, i as int);
            lemma_shift_grows(v@, i + 1, m as int);
        }
        if i < n as i128 {
            let c = v[i as usize];
            assert('0' <= c && c <= '9');
            acc = acc * 10 + (c as u8 - 48) as u128;
        } else if acc == 0 {
            proof {
                lemma_value_bound(v@);
                lemma_pow_positive(10, (i - v@.len()) as nat);
                assert(number::decimal_value(v@) == 0) by (nonlinear_arith)
                    requires
                        number::decimal_value(v@) * pow(10, (i - v@.len()) as nat) == 0,
                        pow(10, (i - v@.len()) as nat) > 0,
                ;
                lemma_shift_none(v@, m as int);
            }
            return 0;
        } else {
            acc = acc * 10;
        }
        i += 1;
        if acc >= CAP {
            return CAP;
        }
    }
    acc
}

fn next_power(k: u128) -> (r: u128)
    ensures
        r == power_over(k as int),
        r <= 128,
{
    if k <= 1 {
        1
    } else if k <= 2 {
        2
    } else if k <= 4 {
        4
    } else if k <= 8 {
        8
    } else if k <= 16 {
        16
    } else if k <= 32 {
        32
    } else if k <= 64 {
        64
    } else {
        128
    }
}

proof fn lemma_whole_same(p: int, q: int, k: nat)
    requires
        p == q || (p >= CAP && q >= CAP),
        k <= 100,
    ensures
        whole_reached(p, k) == whole_reached(q, k),
    decreases k,
{
    if k > 0 {
        lemma_whole_same(p, q, (k - 1) as nat);
    }
}

fn reached(q: u128) -> (r: u8)
    requires
        q <= CAP,
    ensures
        r == whole_reached(q as int, 100),
        r <= 100,
{
    let mut k: u128 = 100;
    while k > 0
        invariant
            k <= 100,
            q <= CAP,
            whole_reached(q as int, 100) == whole_reached(q as int, k as nat),
        decreases k,
    {
        let w: u128 = next_power(k);
        if q + 298_023_223_876_953_125 * w >= k * 10_000_000_000_000_000_000_000_000 {
            return k as u8;
        }
        k -= 1;
    }
    0
}

fn digits_only(v: &Vec<char>) -> (r: bool)
    ensures
        r == is_digits(v@),
{
    let mut i: usize = 0;
    while i < v.len()
        invariant
            i <= v@.len(),
            forall|j: int| 0 <= j < i ==> '0' <= #[trigger] v@[j] && v@[j] <= '9',
        decreases v@.len() - i,
    {
        if !('0' <= v[i] && v[i] <= '9') {
            return false;
        }
        i += 1;
    }
    true
}

/// Powers of ten of this size leave no digit of a text in the range that is told apart.
const FAR: i128 = 1_000_000_000_000_000_000_000_000_000_000;

/// The value of digits, told apart up to `FAR`.
fn small_value(v: &Vec<char>) -> (r: i128)
    requires
        is_digits(v@),
    ensures
        0 <= r <= FAR,
        r < FAR ==> r == number::decimal_value(v@),
        r == FAR ==> number::decimal_value(v@) >= FAR,
{
    let mut acc: i128 = 0;
    let mut i: usize = 0;
    while i < v.len()
        invariant
            is_digits(v@),
            i <= v@.len(),
            0 <= acc <= FAR,
            acc < FAR ==> acc == number::decimal_value(v@.take(i as int)),
            acc == FAR ==> number::decimal_value(v@.take(i as int)) >= FAR,
        decreases v@.len() - i,
    {
        let c = v[i];
        assert('0' <= c && c <= '9');
        assert(v@.take(i + 1).drop_last() =~= v@.take(i as int));
        acc = acc * 10 + (c as u8 - 48) as i128;
        if acc > FAR {
            acc = FAR;
        }
        i += 1;
    }
    assert(v@.take(i as int) =~= v@);
    acc
}

fn rest_of(v: &Vec<char>, from: usize, to: usize) -> (r: Vec<char>)
    requires
        from <= to <= v@.len(),
    ensures
        r@ == v@.subrange(from as int, to as int),
{
    let mut out: Vec<char> = Vec::new();
    let mut i: usize = from;
    while i < to
        invariant
            from <= i <= to <= v@.len(),
            out@ == v@.subrange(from as int, i as int),
        decreases to - i,
    {
        out.push(v[i]);
        i += 1;
    }
    out
}

fn sign_len(v: &Vec<char>) -> (r: usize)
    ensures
        r <= v@.len(),
        v@.skip(r as int) == unsigned(v@),
{
    assert(v@.skip(0) =~= v@);
    if v.len() > 0 && (v[0] == '+' || v[0] == '-') {
        assert(v@.skip(1) =~= v@.drop_first());
        1
    } else {
        0
    }
}

/// `exponent`, told apart up to `FAR` on both sides.
fn small_exponent(v: &Vec<char>) -> (r: Option<i128>)
    ensures
        match (r, exponent(v@)) {
            (Some(a), Some(b)) => -FAR <= a <= FAR && (-FAR < a < FAR ==> a == b) && (a == FAR
                ==> b >= FAR) && (a == -FAR ==> b <= -FAR),
            (None, None) => true,
            _ => false,
        },
{
    let s: usize = sign_len(v);
    let d = rest_of(v, s, v.len());
    assert(d@ =~= unsigned(v@));
    if d.len() == 0 || !digits_only(&d) {
        return None;
    }
    let n: i128 = small_value(&d);
    if v[0] == '-' {
        Some(-n)
    } else {
        Some(n)
    }
}

fn digits_percent(whole: &Vec<char>, part: &Vec<char>, exp: i128, Ghost(e): Ghost<int>) -> (r: u8)
    requires
        is_digits(whole@),
        is_digits(part@),
        whole@.len() + part@.len() <= u64::MAX,
        -FAR <= exp <= FAR,
        -FAR < exp < FAR ==> exp == e,
        exp == FAR ==> e >= FAR,
        exp == -FAR ==> e <= -FAR,
    ensures
        r == percent_of(Numeral { whole: whole@, part: part@, exp: e }),
        r <= 100,
{
    let mut all: Vec<char> = rest_of(whole, 0, whole.len());
    let mut i: usize = 0;
    while i < part.len()
        invariant
            i <= part@.len(),
            all@ == whole@ + part@.take(i as int),
        decreases part@.len() - i,
    {
        all.push(part[i]);
        i += 1;
    }
    assert(all@ =~= whole@ + part@);
    assert(is_digits(all@)) by {
        assert forall|j: int| 0 <= j < all@.len() implies '0' <= #[trigger] all@[j] && all@[j]
            <= '9' by {
            if j < whole@.len() {
                assert(all@[j] == whole@[j]);
            } else {
                assert(all@[j] == part@[j - whole@.len()]);
            }
        }
    }
    let m: i128 = whole.len() as i128 + exp + PLACES;
    let q: u128 = shift(&all, m);
    proof {
        let t = whole@.len() + e + PLACES;
        let exact = shifted(all@, t);
        if -FAR < exp < FAR {
        } else if exp == FAR {
            lemma_value_bound(all@);
            if number::decimal_value(all@) > 0 {
                lemma_shift_far(all@, t);
                lemma_shift_far(all@, m as int);
            } else {
                lemma_shift_none(all@, t);
                lemma_shift_none(all@, m as int);
            }
        } else {
            lemma_shift_zero(all@, t);
            lemma_shift_zero(all@, m as int);
        }
        assert(q == exact || (q >= CAP && exact >= CAP));
        lemma_whole_same(q as int, exact, 100);
    }
    reached(q)
}

/// The percentage that a text stands for, where it stands for a number: cut to a whole number
/// from 0 to 100.
pub fn parse_percent(t: &str) -> (r: Option<u8>)
    ensures
        match r {
            Some(p) => percent(t@) == Some(p as nat) && p <= 100,
            None => percent(t@) is None,
        },
{
    let value = text::strip_end(text::trim(t).as_str(), Strip::Only('%'));
    let v = text::chars_of(value.as_str());
    let minus = v.len() > 0 && v[0] == '-';
    let s: usize = sign_len(&v);
    let rest = rest_of(&v, s, v.len());
    assert(rest@ =~= unsigned(v@));
    let rest_text = text::slice_text(&v, s, v.len());
    let word = text::to_lower(rest_text.as_str());
    if text::same(word.as_str(), "nan") {
        return Some(0);
    }
    if text::same(word.as_str(), "inf") || text::same(word.as_str(), "infinity") {
        return Some(
            if minus {
                0
            } else {
                100
            },
        );
    }
    let low = text::chars_of(word.as_str());
    let mut letter: Vec<char> = Vec::new();
    letter.push('e');
    assert(letter@ =~= seq!['e']);
    let ghost exact: Option<int> = match text::find(text::lower(rest@), seq!['e']) {
        Some(i) => exponent(rest@.skip(i + 1)),
        None => Some(0),
    };
    let (body, exp): (Vec<char>, Option<i128>) = match text::find_chars(&low, &letter, 0) {
        Some(i) => {
            let body = rest_of(&rest, 0, i);
            let tail = rest_of(&rest, i + 1, rest.len());
            assert(body@ =~= rest@.take(i as int));
            assert(tail@ =~= rest@.skip(i + 1));
            (body, small_exponent(&tail))
        },
        None => {
            let body = rest_of(&rest, 0, rest.len());
            assert(body@ =~= rest@);
            (body, Some(0))
        },
    };
    let mut dot: Vec<char> = Vec::new();
    dot.push('.');
    assert(dot@ =~= seq!['.']);
    let (whole, part): (Vec<char>, Vec<char>) = match text::find_chars(&body, &dot, 0) {
        Some(i) => {
            let whole = rest_of(&body, 0, i);
            let part = rest_of(&body, i + 1, body.len());
            assert(whole@ =~= body@.take(i as int));
            assert(part@ =~= body@.skip(i + 1));
            (whole, part)
        },
        None => {
            let whole = rest_of(&body, 0, body.len());
            assert(whole@ =~= body@);
            (whole, Vec::new())
        },
    };
    let total: usize = v.len();
    assert(whole@.len() + part@.len() <= total);
    if whole.len() + part.len() == 0 || !digits_only(&whole) || !digits_only(&part) {
        return None;
    }
    match exp {
        Some(e) => {
            let p = digits_percent(&whole, &part, e, Ghost(exact->0));
            Some(
                if minus {
                    0
                } else {
                    p
                },
            )
        },
        None => None,
    }
}

proof fn lemma_reached_bound(q: int, k: nat)
    ensures
        whole_reached(q, k) <= k,
    decreases k,
{
    if k > 0 {
        lemma_reached_bound(q, (k - 1) as nat);
    }
}

/// Whatever number a text writes, its percentage is at most 100.
pub proof fn percent_is_within_range(s: Seq<char>)
    ensures
        percent(s) matches Some(p) ==> p <= 100,
{
    let rest = unsigned(text::strip_back(text::trimmed(s), Strip::Only('%')));
    if let Some(n) = numeral(rest) {
        lemma_reached_bound(shifted(n.whole + n.part, n.whole.len() + n.exp + PLACES), 100);
    }
}

proof fn lemma_decimal_digits(n: nat)
    ensures
        is_digits(number::decimal(n)),
        number::decimal(n).len() > 0,
    decreases n,
{
    if n >= 10 {
        lemma_decimal_digits(n / 10);
        let d = number::decimal(n);
        assert forall|i: int| 0 <= i < d.len() implies '0' <= #[trigger] d[i] && d[i] <= '9' by {
            if i < d.len() - 1 {
                assert(number::decimal(n / 10)[i] == d[i]);
            }
        }
    }
}

proof fn lemma_whole_at(n: nat, k: nat)
    requires
        k <= 100,
    ensures
        whole_reached((n * 10_000_000_000_000_000_000_000_000) as int, k) == (if n < k {
            n
        } else {
            k
        }),
    decreases k,
{
    if k > 0 {
        lemma_whole_at(n, (k - 1) as nat);
    }
}

/// A whole number is its own percentage, and 100 where it is more; a sign and a percent mark do
/// not change that, and what is negative is none.
pub proof fn whole_numbers_are_percentages(n: nat)
    ensures
        n <= 100 ==> percent(number::decimal(n)) == Some(n),
        n > 100 ==> percent(number::decimal(n)) == Some(100nat),
        percent(number::decimal(n).push('%')) == percent(number::decimal(n)),
        percent_value(seq!['-'] + number::decimal(n)) == Some(0nat),
{
    let s = number::decimal(n);
    lemma_decimal_digits(n);
    number::decimal_reads_back(n);
    let mark = Strip::Only('%');
    assert(text::trimmed(s) == s);
    assert(text::strip_back(s, mark) == s);
    let t = s.push('%');
    assert(t[0] == s[0]);
    assert(text::trimmed(t) == t);
    assert(t.drop_last() =~= s);
    assert(text::strip_back(t, mark) == text::strip_back(s, mark));
    assert(unsigned(s) == s);
    lemma_numeral(s);
    let m = seq!['-'] + s;
    assert(m[0] == '-');
    assert(m.drop_first() =~= s);
    assert(s + Seq::<char>::empty() =~= s);
    assert(pow(10, 25) == 10_000_000_000_000_000_000_000_000) by {
        reveal(pow);
        lemma_pow_adds(10, 20, 5);
        assert(pow(10, 5) == 100_000) by {
            reveal_with_fuel(pow, 6);
        }
        lemma_pow_adds(10, 10, 10);
        lemma_pow_adds(10, 5, 5);
        assert(100_000 * 100_000 == 10_000_000_000int) by (nonlinear_arith);
        assert(10_000_000_000 * 10_000_000_000 == 100_000_000_000_000_000_000int)
            by (nonlinear_arith);
        assert(100_000_000_000_000_000_000 * 100_000 == 10_000_000_000_000_000_000_000_000int)
            by (nonlinear_arith);
    }
    lemma_whole_at(n, 100);
}

proof fn lemma_numeral(s: Seq<char>)
    requires
        is_digits(s),
        s.len() > 0,
    ensures
        numeral(s) == Some(Numeral { whole: s, part: Seq::empty(), exp: 0 }),
        text::lower(s) == s,
        s != "nan"@,
        s != "inf"@,
        s != "infinity"@,
{
    assert(text::lower(s) =~= s);
    text::lemma_find_from(s, seq!['e'], 0);
    text::lemma_find_from(s, seq!['.'], 0);
    if text::find(s, seq!['e']) is Some {
        let i = text::find(s, seq!['e'])->0;
        assert(s.subrange(i, i + 1)[0] == s[i]);
        assert(s[i] == 'e');
    }
    if text::find(s, seq!['.']) is Some {
        let i = text::find(s, seq!['.'])->0;
        assert(s.subrange(i, i + 1)[0] == s[i]);
        assert(s[i] == '.');
    }
    reveal_strlit("nan");
    reveal_strlit("inf");
    reveal_strlit("infinity");
    if s == "nan"@ {
        assert("nan"@[0] == 'n');
        assert('0' <= s[0] && s[0] <= '9');
    }
    if s == "inf"@ {
        assert("inf"@[0] == 'i');
        assert('0' <= s[0] && s[0] <= '9');
    }
    if s == "infinity"@ {
        assert("infinity"@[0] == 'i');
        assert('0' <= s[0] && s[0] <= '9');
    }
}

proof fn lemma_tenth_at(n: nat, d: int, k: nat)
    requires
        k <= 100,
        0 <= d <= 9,
    ensures
        whole_reached((n * 10 + d) * 1_000_000_000_000_000_000_000_000, k) == (if n < k {
            n
        } else {
            k
        }),
    decreases k,
{
    if k > 0 {
        lemma_tenth_at(n, d, (k - 1) as nat);
    }
}

proof fn lemma_no_char(s: Seq<char>, c: char)
    requires
        forall|i: int| 0 <= i < s.len() ==> #[trigger] s[i] != c,
    ensures
        text::find(s, seq![c]) is None,
{
    text::lemma_find_from(s, seq![c], 0);
    if text::find(s, seq![c]) is Some {
        let i = text::find(s, seq![c])->0;
        assert(s.subrange(i, i + 1)[0] == s[i]);
    }
}

/// Behind the point nothing counts: a number with a tenth is the percentage of its whole part.
pub proof fn tenths_are_cut_off(n: nat, d: char)
    requires
        '0' <= d && d <= '9',
    ensures
        n <= 100 ==> percent(number::decimal(n) + seq!['.', d]) == Some(n),
        n > 100 ==> percent(number::decimal(n) + seq!['.', d]) == Some(100nat),
{
    let w = number::decimal(n);
    let s = w + seq!['.', d];
    lemma_decimal_digits(n);
    number::decimal_reads_back(n);
    assert(s[0] == w[0]);
    assert(s.last() == d);
    assert(text::trimmed(s) == s);
    assert(text::strip_back(s, Strip::Only('%')) == s);
    assert(unsigned(s) == s);
    assert forall|i: int| 0 <= i < s.len() implies #[trigger] s[i] == text::lower_char(s[i])
        && s[i] != 'e' by {
        if i < w.len() {
            assert(s[i] == w[i]);
        }
    }
    assert(text::lower(s) =~= s);
    lemma_no_char(s, 'e');
    reveal_strlit("nan");
    reveal_strlit("inf");
    reveal_strlit("infinity");
    assert("nan"@[0] == 'n' && "inf"@[0] == 'i' && "infinity"@[0] == 'i');
    text::lemma_find_from(s, seq!['.'], 0);
    assert(s.subrange(w.len() as int, w.len() as int + 1) =~= seq!['.']);
    assert(text::matches_at(s, seq!['.'], w.len() as int));
    let i = text::find(s, seq!['.'])->0;
    assert(s.subrange(i, i + 1)[0] == s[i]);
    assert(i == w.len()) by {
        if i < w.len() {
            assert(s[i] == w[i]);
        }
    }
    assert(s.take(i) =~= w);
    assert(s.skip(i + 1) =~= seq![d]);
    assert(is_digits(seq![d]));
    let all = w + seq![d];
    assert(all.drop_last() =~= w);
    assert(all.last() == d);
    assert(number::decimal_value(all) == n * 10 + (d as int - 48));
    assert(pow(10, 24) == 1_000_000_000_000_000_000_000_000) by {
        lemma_pow_adds(10, 20, 4);
        assert(pow(10, 4) == 10_000) by {
            reveal_with_fuel(pow, 5);
        }
        assert(pow(10, 5) == 100_000) by {
            reveal_with_fuel(pow, 6);
        }
        lemma_pow_adds(10, 10, 10);
        lemma_pow_adds(10, 5, 5);
        assert(100_000 * 100_000 == 10_000_000_000int) by (nonlinear_arith);
        assert(10_000_000_000 * 10_000_000_000 == 100_000_000_000_000_000_000int)
            by (nonlinear_arith);
        assert(100_000_000_000_000_000_000 * 10_000 == 1_000_000_000_000_000_000_000_000int)
            by (nonlinear_arith);
    }
    lemma_tenth_at(n, d as int - 48, 100);
}

/// A word that names no number is no percentage.
pub proof fn words_are_no_percentage(s: Seq<char>)
    requires
        s.len() > 0,
        'a' <= s[0] && s[0] <= 'z' && s[0] != 'n' && s[0] != 'i',
    ensures
        percent_value(s) is None,
        percent_value(Seq::empty()) is None,
{
    reveal_strlit("nan");
    reveal_strlit("inf");
    reveal_strlit("infinity");
    assert("nan"@[0] == 'n' && "inf"@[0] == 'i' && "infinity"@[0] == 'i');
    assert(unsigned(s) == s);
    assert(text::lower(s)[0] == s[0]);
    text::lemma_find_from(text::lower(s), seq!['e'], 0);
    let body = match text::find(text::lower(s), seq!['e']) {
        Some(i) => s.take(i),
        None => s,
    };
    if body.len() > 0 {
        assert(body[0] == s[0]);
        text::lemma_find_from(body, seq!['.'], 0);
        if text::find(body, seq!['.']) is Some {
            let i = text::find(body, seq!['.'])->0;
            assert(body.subrange(i, i + 1)[0] == body[i]);
            assert(body.take(i)[0] == body[0]);
        }
        assert(digits_of(body) is None);
    } else {
        assert(body =~= Seq::empty());
    }
    lemma_no_char(Seq::empty(), '.');
    let none = Seq::<char>::empty();
    assert(digits_of(none) is None) by {
        assert(text::find(none, seq!['.']) is None);
    }
    assert(text::lower(none) =~= none);
    lemma_no_char(none, 'e');
}

} // verus!
