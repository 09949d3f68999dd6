//! Numbers as text: decimals, and quantities rounded for display.

use vstd::prelude::*;

verus! {

/// The decimal digit of `d`.
pub open spec fn digit_char(d: int) -> char {
    ((48 + d) as u8) as char
}

/// The decimal notation of `n`.
pub open spec fn decimal(n: nat) -> Seq<char>
    decreases n,
{
    if n < 10 {
        seq![digit_char(n as int)]
    } else {
        decimal(n / 10).push(digit_char((n % 10) as int))
    }
}

/// The decimal notation of `n`.
pub fn decimal_text(n: u128) -> (r: String)
    ensures
        r@ == decimal(n as nat),
    decreases n,
{
    if n < 10 {
        let mut s = String::new();
        s.push((48 + n as u8) as char);
        assert(s@ =~= decimal(n as nat));
        s
    } else {
        let mut s = decimal_text(n / 10);
        s.push((48 + (n % 10) as u8) as char);
        s
    }
}

/// The number that a decimal notation stands for.
pub open spec fn decimal_value(s: Seq<char>) -> int
    decreases s.len(),
{
    if s.len() == 0 {
        0
    } else {
        decimal_value(s.drop_last()) * 10 + (s.last() as int - 48)
    }
}

/// A decimal notation reads back as the number it was made from, so different numbers have
/// different notations.
pub proof fn decimal_reads_back(n: nat)
    ensures
        decimal_value(decimal(n)) == n,
        decimal(n).len() > 0,
    decreases n,
{
    if n < 10 {
        let s = decimal(n);
        assert(s.drop_last() =~= Seq::<char>::empty());
        assert(decimal_value(s.drop_last()) == 0);
    } else {
        decimal_reads_back(n / 10);
        assert(decimal(n).drop_last() =~= decimal(n / 10));
    }
}

/// `a / b` rounded to the nearest whole number, a half to the even one.
pub open spec fn half_even(a: int, b: int) -> int {
    let q = a / b;
    let r = a % b;
    if 2 * r > b || (2 * r == b && q % 2 == 1) {
        q + 1
    } else {
        q
    }
}

/// The distance between neighbouring numbers of the magnitude of `n`, where whole numbers
/// below `limit` are held exactly.
pub open spec fn spacing(n: nat, limit: nat) -> nat
    decreases n,
{
    if n < limit || limit == 0 {
        1
    } else {
        2 * spacing(n / 2, limit)
    }
}

/// `n` rounded to the nearest number that can be held, a half to the even one.
pub open spec fn held(n: nat, limit: nat) -> int {
    half_even(n as int, spacing(n, limit) as int) * spacing(n, limit)
}

/// Whole numbers below this are exact in single precision.
pub const SINGLE_LIMIT: u64 = 16_777_216;

/// Whole numbers below this are exact in double precision.
pub const DOUBLE_LIMIT: u64 = 9_007_199_254_740_992;

/// Bytes in a kilobyte.
pub const KB: u64 = 1024;

/// Bytes in a megabyte.
pub const MB: u64 = 1_048_576;

/// A number of tenths with one digit after the point.
pub open spec fn tenths(t: nat) -> Seq<char> {
    (decimal(t / 10) + "."@).push(digit_char((t % 10) as int))
}

/// `n` in units of `unit`, with one digit after the point.
pub open spec fn one_place(n: int, unit: int) -> Seq<char> {
    tenths(half_even(n * 10, unit) as nat)
}

/// A number of bytes in megabytes, with one digit after the point.
pub open spec fn megabytes(n: nat) -> Seq<char> {
    one_place(held(n, DOUBLE_LIMIT as nat), MB as int)
}

/// A number of bytes in kilobytes, with one digit after the point, from a single precision
/// quotient.
pub open spec fn kibibytes(n: nat) -> Seq<char> {
    one_place(held(n, SINGLE_LIMIT as nat), KB as int)
}

/// How a number of bytes is shown.
pub open spec fn bytes_shown(n: nat) -> Seq<char> {
    if n >= MB {
        megabytes(n) + " MB"@
    } else if n >= KB {
        decimal(half_even(n as int, KB as int) as nat) + " KB"@
    } else if n == 0 {
        "—"@
    } else {
        decimal(n) + " B"@
    }
}

fn rounded(a: u128, b: u128) -> (r: u128)
    requires
        0 < b,
        b < 0x1_0000_0000_0000_0000,
        a < 0x1_0000_0000_0000_0000_0000_0000,
    ensures
        r == half_even(a as int, b as int),
        r <= a / b + 1,
{
    let q: u128 = a / b;
    let m: u128 = a % b;
    assert(q <= a) by (nonlinear_arith)
        requires
            q == a / b,
            0 < b,
    ;
    if 2 * m > b || (2 * m == b && q % 2 == 1) {
        q + 1
    } else {
        q
    }
}

fn hold(n: u64, limit: u64) -> (r: u128)
    requires
        2 <= limit,
    ensures
        r == held(n as nat, limit as nat),
        r <= 2 * n + 1,
{
    let mut m: u64 = n;
    let mut step: u128 = 1;
    while m >= limit
        invariant
            2 <= limit,
            spacing(n as nat, limit as nat) == step * spacing(m as nat, limit as nat),
            1 <= step,
            step * m <= n,
            step == 1 || m >= 1,
        decreases m,
    {
        let half: u64 = m / 2;
        let ghost s = spacing(half as nat, limit as nat);
        assert(step * (2 * s) == step * 2 * s) by (nonlinear_arith);
        assert(step * 2 * half <= step * m && step <= step * m) by (nonlinear_arith)
            requires
                half == m / 2,
                m >= 1,
                1 <= step,
        ;
        m = half;
        step = step * 2;
    }
    assert(step == 1 || step <= n) by (nonlinear_arith)
        requires
            step * m <= n,
            step == 1 || m >= 1,
            1 <= step,
    ;
    let q: u128 = rounded(n as u128, step);
    assert(q * step <= n + step) by (nonlinear_arith)
        requires
            q <= n as u128 / step + 1,
            1 <= step,
    ;
    let ghost last = spacing(m as nat, limit as nat);
    assert(step * last == step) by (nonlinear_arith)
        requires
            last == 1,
    ;
    q * step
}

fn one_place_text(n: u128, unit: u64) -> (r: String)
    requires
        0 < unit,
        n < 0x1_0000_0000_0000_0000_0000,
    ensures
        r@ == one_place(n as int, unit as int),
{
    let t: u128 = rounded(n * 10, unit as u128);
    let mut s = decimal_text(t / 10);
    s.append(".");
    s.push((48 + (t % 10) as u8) as char);
    s
}

/// A number of bytes in megabytes, with one digit after the point.
pub fn megabytes_text(n: u64) -> (r: String)
    ensures
        r@ == megabytes(n as nat),
{
    one_place_text(hold(n, DOUBLE_LIMIT), MB)
}

/// A number of bytes in kilobytes, with one digit after the point, from a single precision
/// quotient.
pub fn kibibytes_text(n: u64) -> (r: String)
    ensures
        r@ == kibibytes(n as nat),
{
    one_place_text(hold(n, SINGLE_LIMIT), KB)
}

/// How a number of bytes is shown: megabytes to one place, whole kilobytes, or bytes.
pub fn format_bytes(n: u64) -> (r: String)
    ensures
        r@ == bytes_shown(n as nat),
{
    if n >= MB {
        let mut s = megabytes_text(n);
        s.append(" MB");
        s
    } else if n >= KB {
        let mut s = decimal_text(rounded(n as u128, KB as u128));
        s.append(" KB");
        s
    } else if n == 0 {
        "—".to_owned()
    } else {
        let mut s = decimal_text(n as u128);
        s.append(" B");
        s
    }
}

/// Rounding to a held number leaves every whole number below the limit as it is.
pub proof fn small_numbers_are_held(n: nat, limit: nat)
    requires
        n < limit,
    ensures
        held(n, limit) == n,
{
    assert(spacing(n, limit) == 1);
    assert(half_even(n as int, 1) == n);
}

/// A decimal notation has digits alone, and no zero in front but for zero itself.
pub proof fn decimals_are_plain(n: nat)
    ensures
        forall|i: int| 0 <= i < decimal(n).len() ==> '0' <= #[trigger] decimal(n)[i] && decimal(n)[i]
            <= '9',
        n > 0 ==> decimal(n)[0] != '0',
        n == 0 ==> decimal(n) == seq!['0'],
    decreases n,
{
    if n >= 10 {
        decimals_are_plain(n / 10);
    }
}

/// A rounded quotient is a nearest whole number, and an even one between two.
pub proof fn rounding_is_to_the_nearest(a: int, b: int)
    requires
        b > 0,
    ensures
        -b <= 2 * (half_even(a, b) * b - a) <= b,
        2 * (half_even(a, b) * b - a) == b || 2 * (a - half_even(a, b) * b) == b ==> half_even(a, b)
            % 2 == 0,
{
    let q = a / b;
    let r = a % b;
    assert(a == b * q + r && 0 <= r < b) by (nonlinear_arith)
        requires
            q == a / b,
            r == a % b,
            b > 0,
    ;
    assert((q + 1) * b == q * b + b) by (nonlinear_arith);
    assert(b * q == q * b) by (nonlinear_arith);
}

/// A number of bytes is shown in megabytes from a megabyte on, in kilobytes from a kilobyte on, and
/// else in bytes.
pub proof fn sizes_have_their_unit(n: nat)
    ensures
        n >= 1_048_576 ==> bytes_shown(n) == megabytes(n) + " MB"@,
        1024 <= n < 1_048_576 ==> exists|k: nat|
            #![trigger decimal(k)]
            bytes_shown(n) == decimal(k) + " KB"@ && -1024 <= 2 * (k * 1024 - n) <= 1024,
        0 < n < 1024 ==> bytes_shown(n) == decimal(n) + " B"@,
        n == 0 ==> bytes_shown(n) == "—"@,
{
    if 1024 <= n < 1_048_576 {
        rounding_is_to_the_nearest(n as int, 1024);
        let k = half_even(n as int, 1024) as nat;
        assert(bytes_shown(n) == decimal(k) + " KB"@);
    }
}

/// A number of megabytes has one digit after the point, and is within a twentieth of a megabyte of
/// the bytes that it is made from.
pub proof fn megabytes_are_near(n: nat)
    requires
        n < 9_007_199_254_740_992,
    ensures
        exists|t: nat|
            #![trigger tenths(t)]
            megabytes(n) == tenths(t) && -1_048_576 <= 2 * (t * 1_048_576 - 10 * n) <= 1_048_576,
        forall|t: nat| #[trigger]
            tenths(t) == decimal(t / 10) + seq!['.', digit_char((t % 10) as int)],
{
    small_numbers_are_held(n, DOUBLE_LIMIT as nat);
    rounding_is_to_the_nearest((n * 10) as int, 1_048_576);
    let t = half_even((n * 10) as int, 1_048_576) as nat;
    assert(megabytes(n) == tenths(t));
    reveal_strlit(".");
    assert forall|t: nat| #[trigger] tenths(t) == decimal(t / 10) + seq![
        '.',
        digit_char((t % 10) as int),
    ] by {
        assert(tenths(t) =~= decimal(t / 10) + seq!['.', digit_char((t % 10) as int)]);
    }
}

} // verus!
