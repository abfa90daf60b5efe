//! Fixed-point prices. A price is a `u64` counting `1e-8` units, so parsing
//! a quote string, taking the mid of bid and ask, and rendering cache values
//! are all exact integer operations.

use vstd::prelude::*;
use crate::json::is_digit;

verus! {

/// Number of fixed-point units in one whole price unit: prices carry eight
/// fractional decimal digits.
pub const PRICE_SCALE: u64 = 100_000_000;

/// Largest integral part the decimal parser accepts.
pub const MAX_INT_PART: u64 = 10_000_000_000;

/// Largest fixed-point price the parser can return; far below `u64::MAX / 2`,
/// so a bid and an ask can always be added.
pub const MAX_PRICE_UNITS: u64 = 1_000_000_000_099_999_999;

/// The numeric value of a digit character.
pub open spec fn digit_val(c: char) -> int {
    c as int - 48
}

/// The digit character of a value below ten.
pub open spec fn digit_char(d: int) -> char {
    if d == 0 { '0' } else if d == 1 { '1' } else if d == 2 { '2' } else if d == 3 { '3' }
    else if d == 4 { '4' } else if d == 5 { '5' } else if d == 6 { '6' } else if d == 7 { '7' }
    else if d == 8 { '8' } else { '9' }
}

/// Every character of `s` is a decimal digit.
pub open spec fn all_digits(s: Seq<char>) -> bool {
    forall|i: int| 0 <= i < s.len() ==> is_digit(#[trigger] s[i])
}

/// The value of a digit string, most significant digit first.
pub open spec fn digits_value(s: Seq<char>) -> int
    decreases s.len(),
{
    if s.len() == 0 {
        0
    } else {
        digits_value(s.drop_last()) * 10 + digit_val(s.last())
    }
}

/// Ten to the `k`.
pub open spec fn pow10(k: nat) -> int
    decreases k,
{
    if k == 0 {
        1
    } else {
        10 * pow10((k - 1) as nat)
    }
}

/// First occurrence of `c` in `s` at or after `i`.
pub open spec fn sp_find_from(s: Seq<char>, c: char, i: nat) -> Option<nat>
    decreases s.len() - i,
{
    if i >= s.len() {
        None
    } else if s[i as int] == c {
        Some(i)
    } else {
        sp_find_from(s, c, (i + 1) as nat)
    }
}

/// The fixed-point value of a decimal quote string: digits, at most one dot,
/// one to eight fractional digits, integral part at most `MAX_INT_PART`.
/// Anything else — signs, exponents, or an out-of-range value — is rejected,
/// and the message carrying it is dropped.
pub open spec fn spec_parse_price(s: Seq<char>) -> Option<u64> {
    match sp_find_from(s, '.', 0) {
        None => {
            if all_digits(s) && s.len() > 0 && digits_value(s) <= MAX_INT_PART {
                Some((digits_value(s) * PRICE_SCALE) as u64)
            } else {
                None
            }
        },
        Some(d) => {
            let ip = s.subrange(0, d as int);
            let fp = s.subrange(d + 1 as int, s.len() as int);
            if all_digits(ip) && ip.len() > 0 && all_digits(fp) && 0 < fp.len() <= 8
                && digits_value(ip) <= MAX_INT_PART {
                Some(
                    (digits_value(ip) * PRICE_SCALE + digits_value(fp) * pow10(
                        (8 - fp.len()) as nat,
                    )) as u64,
                )
            } else {
                None
            }
        },
    }
}

/// A digit string's value never goes down when it is extended to the right.
proof fn lemma_digits_prefix_le(s: Seq<char>, i: int, j: int)
    requires
        all_digits(s),
        0 <= i <= j <= s.len(),
    ensures
        digits_value(s.subrange(0, i)) <= digits_value(s.subrange(0, j)),
        digits_value(s.subrange(0, j)) >= 0,
    decreases j - i,
{
    if i == j {
        lemma_digits_nonneg(s.subrange(0, j));
    } else {
        lemma_digits_prefix_le(s, i, j - 1);
        assert(s.subrange(0, j).drop_last() =~= s.subrange(0, j - 1));
        assert(digit_val(s.subrange(0, j).last()) >= 0);
    }
}

/// A digit string's value is at least zero and below ten to its length.
proof fn lemma_digits_nonneg(s: Seq<char>)
    requires
        all_digits(s),
    ensures
        0 <= digits_value(s) < pow10(s.len()),
    decreases s.len(),
{
    if s.len() > 0 {
        lemma_digits_nonneg(s.drop_last());
        assert(0 <= digit_val(s.last()) <= 9);
        assert(digits_value(s.drop_last()) * 10 + 10 <= pow10((s.len() - 1) as nat) * 10) by {
            assert(digits_value(s.drop_last()) + 1 <= pow10((s.len() - 1) as nat));
            assert((digits_value(s.drop_last()) + 1) * 10 <= pow10((s.len() - 1) as nat) * 10)
                by (nonlinear_arith)
                requires
                    digits_value(s.drop_last()) + 1 <= pow10((s.len() - 1) as nat),
            ;
        }
    }
}

/// A fraction of `fl` digits, scaled out to eight digits, stays below one
/// whole unit.
proof fn lemma_frac_scaled_bound(fv: int, fl: int)
    requires
        1 <= fl <= 8,
        0 <= fv < pow10(fl as nat),
    ensures
        fv * pow10((8 - fl) as nat) < pow10(8),
{
    reveal_with_fuel(pow10, 9);
    assert(pow10(8) == 100000000);
    if fl == 1 {
        assert(pow10(7) == 10000000);
        assert(fv * pow10(7) == fv * 10000000);
        assert(fv <= 9);
        assert(fv * 10000000 < 100000000);
    } else if fl == 2 {
        assert(pow10(6) == 1000000);
        assert(fv * pow10(6) == fv * 1000000);
        assert(fv <= 99);
        assert(fv * 1000000 < 100000000);
    } else if fl == 3 {
        assert(pow10(5) == 100000);
        assert(fv * pow10(5) == fv * 100000);
        assert(fv <= 999);
        assert(fv * 100000 < 100000000);
    } else if fl == 4 {
        assert(pow10(4) == 10000);
        assert(fv * pow10(4) == fv * 10000);
        assert(fv <= 9999);
        assert(fv * 10000 < 100000000);
    } else if fl == 5 {
        assert(pow10(3) == 1000);
        assert(fv * pow10(3) == fv * 1000);
        assert(fv <= 99999);
        assert(fv * 1000 < 100000000);
    } else if fl == 6 {
        assert(pow10(2) == 100);
        assert(fv * pow10(2) == fv * 100);
        assert(fv <= 999999);
        assert(fv * 100 < 100000000);
    } else if fl == 7 {
        assert(pow10(1) == 10);
        assert(fv * pow10(1) == fv * 10);
        assert(fv <= 9999999);
        assert(fv * 10 < 100000000);
    } else {
        assert(pow10(0) == 1);
        assert(fv * pow10(0) == fv * 1);
        assert(fv <= 99999999);
        assert(fv * 1 < 100000000);
    }
}

/// The value of the digits of `s` between `from` and `to`, computed left to
/// right with an inclusive cap; `None` when a non-digit occurs, the range is
/// empty, or the value tops the cap.
fn digits_val_capped(s: &str, n: usize, from: usize, to: usize, cap: u64) -> (r: Option<u64>)
    requires
        n == s@.len(),
        from <= to <= n,
    ensures
        (match r {
            Some(v) => {
                let sub = s@.subrange(from as int, to as int);
                all_digits(sub) && sub.len() > 0 && digits_value(sub) == v && v <= cap
            },
            None => {
                let sub = s@.subrange(from as int, to as int);
                !(all_digits(sub) && sub.len() > 0 && digits_value(sub) <= cap)
            },
        }),
{
    let ghost sub = s@.subrange(from as int, to as int);
    if from == to {
        return None;
    }
    let mut acc: u64 = 0;
    let mut i: usize = from;
    while i < to
        invariant
            n == s@.len(),
            from <= i <= to <= n,
            cap <= u64::MAX,
            sub == s@.subrange(from as int, to as int),
            all_digits(sub.subrange(0, i - from)),
            acc == digits_value(sub.subrange(0, i - from)),
            acc <= cap,
        decreases to - i,
    {
        let c = s.get_char(i);
        if !(c >= '0' && c <= '9') {
            assert(sub[i - from] == s@[i as int]);
            assert(!all_digits(sub));
            return None;
        }
        let d: u64 = ((c as u32) - 48) as u64;
        assert(d <= 9);
        proof {
            assert(sub.subrange(0, i - from + 1).drop_last() =~= sub.subrange(0, i - from));
            assert(sub.subrange(0, i - from + 1).last() == s@[i as int]);
        }
        let next: u128 = acc as u128 * 10 + d as u128;
        if next > cap as u128 {
            proof {
                assert(all_digits(sub.subrange(0, i - from + 1)));
                assert(digits_value(sub.subrange(0, i - from + 1)) > cap);
                if all_digits(sub) {
                    lemma_digits_prefix_le(sub, i - from + 1, sub.len() as int);
                    assert(sub.subrange(0, sub.len() as int) =~= sub);
                }
            }
            return None;
        }
        acc = next as u64;
        i += 1;
    }
    proof {
        assert(sub.subrange(0, (to - from) as int) =~= sub);
    }
    Some(acc)
}

/// First occurrence of the decimal dot at or after `i`.
fn find_dot(s: &str, n: usize, i: usize) -> (r: Option<usize>)
    requires
        n == s@.len(),
        i <= n,
    ensures
        (match r {
            Some(d) => sp_find_from(s@, '.', i as nat) == Some(d as nat) && i <= d < n,
            None => sp_find_from(s@, '.', i as nat) is None,
        }),
    decreases n - i,
{
    if i >= n {
        None
    } else if s.get_char(i) == '.' {
        Some(i)
    } else {
        find_dot(s, n, i + 1)
    }
}

/// Ten to the `k`, for small `k`.
fn pow10_exec(k: usize) -> (r: u64)
    requires
        k <= 8,
    ensures
        r == pow10(k as nat),
        1 <= r <= 100_000_000,
{
    let table: [u64; 9] = [1, 10, 100, 1000, 10_000, 100_000, 1_000_000, 10_000_000, 100_000_000];
    proof {
        reveal_with_fuel(pow10, 9);
    }
    table[k]
}

/// Parse a decimal quote string into fixed-point units.
pub fn parse_price(s: &str) -> (r: Option<u64>)
    ensures
        r == spec_parse_price(s@),
        r is Some ==> r.unwrap() <= MAX_PRICE_UNITS,
{
    let n = s.unicode_len();
    match find_dot(s, n, 0) {
        None => {
            proof {
                assert(s@.subrange(0, n as int) =~= s@);
            }
            match digits_val_capped(s, n, 0, n, MAX_INT_PART) {
                Some(v) => Some(v * PRICE_SCALE),
                None => None,
            }
        },
        Some(d) => {
            let fl = n - d - 1;
            if fl == 0 || fl > 8 {
                return None;
            }
            match digits_val_capped(s, n, 0, d, MAX_INT_PART) {
                Some(ipv) => {
                    proof {
                        if all_digits(s@.subrange(d + 1 as int, n as int)) {
                            lemma_digits_nonneg(s@.subrange(d + 1 as int, n as int));
                            reveal_with_fuel(pow10, 9);
                        }
                    }
                    match digits_val_capped(s, n, d + 1, n, u64::MAX) {
                        Some(fv) => {
                            proof {
                                lemma_digits_nonneg(s@.subrange(d + 1 as int, n as int));
                                lemma_frac_scaled_bound(fv as int, fl as int);
                            }
                            let scaled_frac = fv * pow10_exec(8 - fl);
                            Some(ipv * PRICE_SCALE + scaled_frac)
                        },
                        None => None,
                    }
                },
                None => None,
            }
        },
    }
}

/// The exact mid of a best bid and a best ask, in fixed-point units, rounded
/// down to the unit.
pub open spec fn spec_mid(bid: u64, ask: u64) -> int {
    (bid + ask) / 2
}

/// The derived mid is exact: whenever the sum of bid and ask is even in
/// fixed-point units, twice the mid gives the sum back; the division loses
/// nothing.
pub proof fn lemma_mid_exact(bid: u64, ask: u64)
    requires
        (bid + ask) % 2 == 0,
    ensures
        2 * spec_mid(bid, ask) == bid + ask,
{
}

/// The mid of two parsed prices.
pub fn mid_price(bid: u64, ask: u64) -> (r: u64)
    requires
        bid <= MAX_PRICE_UNITS,
        ask <= MAX_PRICE_UNITS,
    ensures
        r == spec_mid(bid, ask),
        r <= MAX_PRICE_UNITS,
{
    (bid + ask) / 2
}

/// The decimal rendering of a natural number, most significant digit first.
pub open spec fn spec_dec(n: int) -> Seq<char>
    decreases n,
{
    if n < 10 {
        seq![digit_char(n)]
    } else {
        spec_dec(n / 10).push(digit_char(n % 10))
    }
}

/// The rendering of the low `w` digits of `n`, zero padded to width `w`.
pub open spec fn spec_dec_pad(n: int, w: nat) -> Seq<char>
    decreases w,
{
    if w == 0 {
        Seq::empty()
    } else {
        spec_dec_pad(n / 10, (w - 1) as nat).push(digit_char(n % 10))
    }
}

/// A digit sequence with its trailing zeros removed.
pub open spec fn spec_trim_zeros(s: Seq<char>) -> Seq<char>
    decreases s.len(),
{
    if s.len() > 0 && s.last() == '0' {
        spec_trim_zeros(s.drop_last())
    } else {
        s
    }
}

/// How a fixed-point price is shown as a decimal string: the integral part,
/// and the fractional digits only when they are not all zero, with trailing
/// zeros removed.
pub open spec fn spec_price_str(p: u64) -> Seq<char> {
    let ip = p as int / PRICE_SCALE as int;
    let f = p as int % PRICE_SCALE as int;
    if f == 0 {
        spec_dec(ip)
    } else {
        spec_dec(ip) + seq!['.'] + spec_trim_zeros(spec_dec_pad(f, 8))
    }
}

/// The fixed eight-decimal rendering used in the cache's source records.
pub open spec fn spec_price_8dp(p: u64) -> Seq<char> {
    spec_dec(p as int / PRICE_SCALE as int) + seq!['.'] + spec_dec_pad(
        p as int % PRICE_SCALE as int,
        8,
    )
}

/// The digit character of a value below ten.
fn digit_char_exec(d: u64) -> (r: char)
    requires
        d < 10,
    ensures
        r == digit_char(d as int),
{
    match d {
        0 => '0', 1 => '1', 2 => '2', 3 => '3', 4 => '4',
        5 => '5', 6 => '6', 7 => '7', 8 => '8', _ => '9',
    }
}

/// Append the decimal rendering of `n`.
pub fn push_dec(out: &mut Vec<char>, n: u64)
    ensures
        final(out)@ == old(out)@ + spec_dec(n as int),
    decreases n,
{
    if n < 10 {
        out.push(digit_char_exec(n));
        proof {
            assert(final(out)@ =~= old(out)@ + spec_dec(n as int));
        }
    } else {
        push_dec(out, n / 10);
        out.push(digit_char_exec(n % 10));
        proof {
            assert(final(out)@ =~= old(out)@ + spec_dec(n as int));
        }
    }
}

/// Append the zero-padded rendering of the low `w` digits of `n`.
pub fn push_dec_pad(out: &mut Vec<char>, n: u64, w: usize)
    ensures
        final(out)@ == old(out)@ + spec_dec_pad(n as int, w as nat),
    decreases w,
{
    if w > 0 {
        push_dec_pad(out, n / 10, w - 1);
        out.push(digit_char_exec(n % 10));
        proof {
            assert(final(out)@ =~= old(out)@ + spec_dec_pad(n as int, w as nat));
        }
    } else {
        proof {
            assert(final(out)@ =~= old(out)@ + spec_dec_pad(n as int, 0));
        }
    }
}

/// A `String` holding exactly the given characters.
pub fn chars_to_string(v: &Vec<char>) -> (r: String)
    ensures
        r@ == v@,
{
    let mut out = String::new();
    let mut i: usize = 0;
    while i < v.len()
        invariant
            i <= v@.len(),
            out@ == v@.subrange(0, i as int),
        decreases v@.len() - i,
    {
        out.push(v[i]);
        proof {
            assert(v@.subrange(0, i + 1) =~= v@.subrange(0, i as int).push(v@[i as int]));
        }
        i += 1;
    }
    proof {
        assert(v@.subrange(0, v@.len() as int) =~= v@);
    }
    out
}

/// The decimal string of a fixed-point price, trailing zeros removed: what
/// the cache stores under the plain price key.
pub fn format_price(p: u64) -> (r: String)
    ensures
        r@ == spec_price_str(p),
{
    let ip = p / PRICE_SCALE;
    let f = p % PRICE_SCALE;
    let mut out: Vec<char> = Vec::new();
    push_dec(&mut out, ip);
    if f != 0 {
        out.push('.');
        let mut frac: Vec<char> = Vec::new();
        push_dec_pad(&mut frac, f, 8);
        while frac.len() > 0 && frac[frac.len() - 1] == '0'
            invariant
                spec_trim_zeros(frac@) == spec_trim_zeros(spec_dec_pad(f as int, 8)),
            decreases frac@.len(),
        {
            frac.pop();
        }
        proof {
            assert(spec_trim_zeros(frac@) == frac@);
        }
        let mut k: usize = 0;
        let ghost mid = out@;
        while k < frac.len()
            invariant
                k <= frac@.len(),
                out@ == mid + frac@.subrange(0, k as int),
            decreases frac@.len() - k,
        {
            out.push(frac[k]);
            proof {
                assert(frac@.subrange(0, k + 1) =~= frac@.subrange(0, k as int).push(
                    frac@[k as int],
                ));
            }
            k += 1;
        }
        proof {
            assert(frac@.subrange(0, frac@.len() as int) =~= frac@);
            assert(out@ =~= spec_price_str(p));
        }
    } else {
        proof {
            assert(out@ =~= spec_price_str(p));
        }
    }
    chars_to_string(&out)
}

/// The eight-decimal string of a fixed-point price: what the cache stores
/// inside the source record.
pub fn format_price_8dp(p: u64) -> (r: String)
    ensures
        r@ == spec_price_8dp(p),
{
    let ip = p / PRICE_SCALE;
    let f = p % PRICE_SCALE;
    let mut out: Vec<char> = Vec::new();
    push_dec(&mut out, ip);
    out.push('.');
    push_dec_pad(&mut out, f, 8);
    proof {
        assert(out@ =~= spec_price_8dp(p));
    }
    chars_to_string(&out)
}

} // verus!
