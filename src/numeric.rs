//! Decimal text as it appears in a metrics snapshot.
use vstd::prelude::*;

verus! {

/// An ASCII decimal digit.
pub open spec fn is_digit(c: char) -> bool {
    '0' <= c && c <= '9'
}

pub open spec fn digit_value(c: char) -> int {
    (c as int) - ('0' as int)
}

pub open spec fn all_digits(s: Seq<char>) -> bool {
    forall|i: int| 0 <= i < s.len() ==> is_digit(#[trigger] s[i])
}

/// The number that a string of decimal digits spells, most significant first.
pub open spec fn digits_value(s: Seq<char>) -> int
    decreases s.len(),
{
    if s.len() == 0 {
        0
    } else {
        digits_value(s.drop_last()) * 10 + digit_value(s.last())
    }
}

/// The digits of an unsigned integer literal: an optional leading `+` is dropped.
pub open spec fn unsigned_digits(s: Seq<char>) -> Seq<char> {
    if s.len() > 0 && s[0] == '+' {
        s.drop_first()
    } else {
        s
    }
}

/// `s` is an unsigned decimal integer literal: an optional `+`, then one or more digits.
pub open spec fn is_unsigned_literal(s: Seq<char>) -> bool {
    unsigned_digits(s).len() > 0 && all_digits(unsigned_digits(s))
}

/// The value of the literal `s`, where it is one and fits in `bound`.
pub open spec fn unsigned_value(s: Seq<char>, bound: int) -> Option<int> {
    if is_unsigned_literal(s) && digits_value(unsigned_digits(s)) <= bound {
        Some(digits_value(unsigned_digits(s)))
    } else {
        None
    }
}

proof fn lemma_digits_value_nonneg(s: Seq<char>)
    requires
        all_digits(s),
    ensures
        digits_value(s) >= 0,
    decreases s.len(),
{
    if s.len() > 0 {
        lemma_digits_value_nonneg(s.drop_last());
    }
}

/// A prefix of a digit string never spells more than the whole string.
proof fn lemma_prefix_value_le(s: Seq<char>, k: int)
    requires
        all_digits(s),
        0 <= k <= s.len(),
    ensures
        digits_value(s.take(k)) <= digits_value(s),
    decreases s.len(),
{
    if k < s.len() {
        let d = s.drop_last();
        assert(d.take(k) =~= s.take(k));
        lemma_prefix_value_le(d, k);
        lemma_digits_value_nonneg(d);
    } else {
        assert(s.take(k) =~= s);
    }
}

/// Reads the digits of `s` in `lo..hi` as a number, or `None` where one of
/// them is not a digit or the number exceeds `u64::MAX`.
fn read_digits(s: &str, lo: usize, hi: usize) -> (r: Option<u64>)
    requires
        lo <= hi <= s@.len(),
    ensures
        ({
            let d = s@.subrange(lo as int, hi as int);
            r == if all_digits(d) && digits_value(d) <= u64::MAX {
                Some(digits_value(d) as u64)
            } else {
                None::<u64>
            }
        }),
{
    let ghost d = s@.subrange(lo as int, hi as int);
    let mut acc: u64 = 0;
    let mut i: usize = lo;
    while i < hi
        invariant
            lo <= i <= hi <= s@.len(),
            d == s@.subrange(lo as int, hi as int),
            all_digits(d.take(i - lo)),
            acc == digits_value(d.take(i - lo)),
        decreases hi - i,
    {
        let c = s.get_char(i);
        let ghost k = i - lo;
        assert(d.take(k + 1).drop_last() =~= d.take(k));
        assert(d[k] == c);
        if c < '0' || c > '9' {
            return None;
        }
        let v: u64 = (c as u32 - '0' as u32) as u64;
        if acc > (u64::MAX - v) / 10 {
            proof {
                if all_digits(d) {
                    lemma_prefix_value_le(d, k + 1);
                }
            }
            return None;
        }
        acc = acc * 10 + v;
        i = i + 1;
        assert(all_digits(d.take(i - lo)));
    }
    assert(d.take(hi - lo) =~= d);
    Some(acc)
}

/// Parses an unsigned decimal integer as `u64::from_str` does: an optional
/// `+` followed by at least one digit, with no other characters.
pub fn parse_u64(s: &str) -> (r: Option<u64>)
    ensures
        r == match unsigned_value(s@, u64::MAX as int) {
            Some(v) => Some(v as u64),
            None => None::<u64>,
        },
{
    let n = s.unicode_len();
    let mut start: usize = 0;
    if n > 0 && s.get_char(0) == '+' {
        start = 1;
    }
    assert(unsigned_digits(s@) =~= s@.subrange(start as int, n as int));
    if start == n {
        return None;
    }
    read_digits(s, start, n)
}

/// Parses an unsigned decimal integer that must fit in a `u32`.
pub fn parse_u32(s: &str) -> (r: Option<u32>)
    ensures
        r == match unsigned_value(s@, u32::MAX as int) {
            Some(v) => Some(v as u32),
            None => None::<u32>,
        },
{
    match parse_u64(s) {
        Some(v) => {
            proof {
                lemma_digits_value_nonneg(unsigned_digits(s@));
            }
            if v <= u32::MAX as u64 {
                Some(v as u32)
            } else {
                None
            }
        },
        None => {
            proof {
                if is_unsigned_literal(s@) {
                    assert(digits_value(unsigned_digits(s@)) > u64::MAX);
                }
            }
            None
        },
    }
}

/// A percentage held exactly enough for tier decisions: in millionths of a percent.
#[derive(Clone, Copy, Debug, PartialEq, Eq, Structural)]
pub struct Percent {
    pub micros: u64,
}

/// Millionths of a percent in one percent.
pub const MICROS_PER_PERCENT: u64 = 1_000_000;

/// Fraction digits that a `Percent` holds exactly.
pub const PERCENT_FRACTION_DIGITS: usize = 6;

pub open spec fn pow10(n: nat) -> int
    decreases n,
{
    if n == 0 {
        1
    } else {
        10 * pow10((n - 1) as nat)
    }
}

/// How many digits `u` starts with.
pub open spec fn leading_digits(u: Seq<char>) -> nat
    decreases u.len(),
{
    if u.len() == 0 || !is_digit(u[0]) {
        0
    } else {
        1 + leading_digits(u.drop_first())
    }
}

/// The integer digits of the decimal literal body `u`.
pub open spec fn integer_part(u: Seq<char>) -> Seq<char> {
    u.take(leading_digits(u) as int)
}

/// The fraction digits of the decimal literal body `u`: what follows the point.
pub open spec fn fraction_part(u: Seq<char>) -> Seq<char> {
    if leading_digits(u) < u.len() {
        u.skip(leading_digits(u) as int + 1)
    } else {
        Seq::empty()
    }
}

/// `s` is a decimal literal: an optional `+`, digits, and optionally a point
/// followed by digits, with at least one digit in all.
pub open spec fn is_decimal_literal(s: Seq<char>) -> bool {
    let u = unsigned_digits(s);
    let m = leading_digits(u);
    &&& m == u.len() || (u[m as int] == '.' && all_digits(fraction_part(u)))
    &&& integer_part(u).len() + fraction_part(u).len() > 0
}

pub open spec fn has_nonzero_digit(t: Seq<char>) -> bool {
    exists|j: int| 0 <= j < t.len() && t[j] != '0'
}

/// The fraction digits `f` in millionths, rounded up to the next millionth
/// where digits beyond the sixth are not all zero.
pub open spec fn fraction_micros(f: Seq<char>) -> int {
    if f.len() <= 6 {
        digits_value(f) * pow10((6 - f.len()) as nat)
    } else {
        digits_value(f.take(6)) + if has_nonzero_digit(f.skip(6)) {
            1int
        } else {
            0int
        }
    }
}

/// The value of the decimal literal `s` in millionths of a percent, rounded up
/// to a whole millionth: it is zero exactly when the literal is, and it is at
/// most a threshold given in whole millionths exactly when the literal is.
pub open spec fn decimal_micros(s: Seq<char>) -> int {
    let u = unsigned_digits(s);
    digits_value(integer_part(u)) * 1_000_000 + fraction_micros(fraction_part(u))
}

/// The value of `s` as a `Percent`, where it is a decimal literal that fits.
pub open spec fn percent_value(s: Seq<char>) -> Option<Percent> {
    if is_decimal_literal(s) && decimal_micros(s) <= u64::MAX {
        Some(Percent { micros: decimal_micros(s) as u64 })
    } else {
        None
    }
}

proof fn lemma_leading_digits(u: Seq<char>, i: int)
    requires
        0 <= i <= u.len(),
        all_digits(u.take(i)),
        i == u.len() || !is_digit(u[i]),
    ensures
        leading_digits(u) == i,
    decreases i,
{
    if i > 0 {
        assert(u.drop_first().take(i - 1) =~= u.take(i).drop_first());
        assert(u[0] == u.take(i)[0]);
        lemma_leading_digits(u.drop_first(), i - 1);
    }
}

proof fn lemma_pow10_step(n: nat)
    ensures
        pow10(n + 1) == 10 * pow10(n),
        pow10(n) >= 1,
    decreases n,
{
    if n > 0 {
        lemma_pow10_step((n - 1) as nat);
    }
}

/// Checks that `s` holds only digits in `lo..hi`, and whether one of them is not zero.
fn scan_fraction_tail(s: &str, lo: usize, hi: usize) -> (r: (bool, bool))
    requires
        lo <= hi <= s@.len(),
    ensures
        r.0 == all_digits(s@.subrange(lo as int, hi as int)),
        r.0 ==> r.1 == has_nonzero_digit(s@.subrange(lo as int, hi as int)),
{
    let ghost d = s@.subrange(lo as int, hi as int);
    let mut nonzero = false;
    let mut i: usize = lo;
    while i < hi
        invariant
            lo <= i <= hi <= s@.len(),
            d == s@.subrange(lo as int, hi as int),
            forall|j: int| 0 <= j < i - lo ==> is_digit(#[trigger] d[j]),
            nonzero == exists|j: int| 0 <= j < i - lo && #[trigger] d[j] != '0',
        decreases hi - i,
    {
        let c = s.get_char(i);
        assert(d[i - lo] == c);
        if c < '0' || c > '9' {
            return (false, false);
        }
        if c != '0' {
            nonzero = true;
        }
        i = i + 1;
    }
    (true, nonzero)
}

/// Reads the fraction digits of `s` in `lo..hi` as millionths, rounded up
/// past the sixth digit, or `None` where one of them is not a digit.
fn read_fraction(s: &str, lo: usize, hi: usize) -> (r: Option<u64>)
    requires
        lo <= hi <= s@.len(),
    ensures
        ({
            let f = s@.subrange(lo as int, hi as int);
            r == if all_digits(f) {
                Some(fraction_micros(f) as u64)
            } else {
                None::<u64>
            }
        }),
        r matches Some(v) ==> v == fraction_micros(s@.subrange(lo as int, hi as int)) && v <= 1_000_000,
{
    let frac_len: usize = hi - lo;
    let mut frac: u64 = 0;
    let head_end: usize = if frac_len <= PERCENT_FRACTION_DIGITS {
        hi
    } else {
        lo + PERCENT_FRACTION_DIGITS
    };
    let ghost f = s@.subrange(lo as int, hi as int);
    let ghost head = s@.subrange(lo as int, head_end as int);
    let ghost tail = s@.subrange(head_end as int, hi as int);
    assert(f.take(head.len() as int) =~= head);
    assert(f.skip(head.len() as int) =~= tail);
    let (tail_ok, tail_nonzero) = scan_fraction_tail(s, head_end, hi);
    let head_val = match read_digits(s, lo, head_end) {
        Some(v) => v,
        None => {
            proof {
                if all_digits(f) {
                    assert(all_digits(head)) by {
                        assert forall|j: int| 0 <= j < head.len() implies is_digit(
                            #[trigger] head[j],
                        ) by {
                            assert(head[j] == f[j]);
                        }
                    }
                    lemma_digits_below_pow10(head);
                    lemma_pow10_le_million(head.len());
                }
            }
            return None;
        },
    };
    if !tail_ok {
        proof {
            assert(!all_digits(f)) by {
                let j = choose|j: int| 0 <= j < tail.len() && !is_digit(#[trigger] tail[j]);
                assert(f[head.len() + j] == tail[j]);
            }
        }
        return None;
    }
    assert(all_digits(f)) by {
        assert forall|j: int| 0 <= j < f.len() implies is_digit(#[trigger] f[j]) by {
            if j < head.len() {
                assert(f[j] == head[j]);
            } else {
                assert(f[j] == tail[j - head.len()]);
            }
        }
    }
    proof {
        lemma_digits_below_pow10(head);
        lemma_pow10_le_million(head.len());
    }
    if frac_len <= PERCENT_FRACTION_DIGITS {
        proof {
            lemma_pow10_le_million(frac_len as nat);
        }
        assert(head =~= f);
        frac = head_val;
        let mut j: usize = frac_len;
        while j < PERCENT_FRACTION_DIGITS
            invariant
                frac_len <= j <= PERCENT_FRACTION_DIGITS,
                frac as int == head_val * pow10((j - frac_len) as nat),
                frac < pow10(j as nat),
                j < PERCENT_FRACTION_DIGITS ==> pow10(j as nat) <= 100_000,
            decreases PERCENT_FRACTION_DIGITS - j,
        {
            proof {
                lemma_pow10_step((j - frac_len) as nat);
                lemma_pow10_step(j as nat);
                let x = pow10((j - frac_len) as nat);
                assert(head_val * x * 10 == head_val * (10 * x)) by (nonlinear_arith);
                lemma_pow10_le_million((j + 1) as nat);
            }
            frac = frac * 10;
            j = j + 1;
            proof {
                if j < PERCENT_FRACTION_DIGITS {
                    lemma_pow10_le_million((j + 1) as nat);
                    lemma_pow10_step(j as nat);
                }
            }
        }
    } else {
        assert(tail =~= f.skip(6));
        assert(head =~= f.take(6));
        frac = head_val + if tail_nonzero {
            1
        } else {
            0
        };
    }
    proof {
        lemma_pow10_le_million(6);
    }
    Some(frac)
}

/// Parses a percentage written as a decimal literal (`0.05`, `12`, `+3.5`,
/// `.25`), as a whole number of millionths of a percent, rounded up past the
/// sixth fraction digit.
pub fn parse_percent(s: &str) -> (r: Option<Percent>)
    ensures
        r == percent_value(s@),
{
    let n = s.unicode_len();
    let mut start: usize = 0;
    if n > 0 && s.get_char(0) == '+' {
        start = 1;
    }
    let ghost u = unsigned_digits(s@);
    assert(u =~= s@.subrange(start as int, n as int));
    let mut m: usize = start;
    let mut scanning = true;
    while scanning && m < n
        invariant
            start <= m <= n,
            n == s@.len(),
            u == s@.subrange(start as int, n as int),
            all_digits(u.take(m - start)),
            !scanning ==> m < n && !is_digit(u[m - start]),
        decreases n - m + if scanning {
            1int
        } else {
            0int
        },
    {
        let c = s.get_char(m);
        if '0' <= c && c <= '9' {
            m = m + 1;
            assert(u.take(m - start).drop_last() =~= u.take(m - start - 1));
        } else {
            scanning = false;
        }
    }
    proof {
        lemma_leading_digits(u, m - start);
    }
    assert(integer_part(u) =~= s@.subrange(start as int, m as int));
    let whole = match read_digits(s, start, m) {
        Some(w) => w,
        None => {
            proof {
                if is_decimal_literal(s@) {
                    lemma_fraction_micros_nonneg(fraction_part(u));
                }
            }
            return None;
        },
    };
    proof {
        lemma_digits_value_nonneg(integer_part(u));
    }
    let mut frac: u64 = 0;
    let mut frac_len: usize = 0;
    if m < n {
        if s.get_char(m) != '.' {
            return None;
        }
        frac_len = n - (m + 1);
        assert(fraction_part(u) =~= s@.subrange(m + 1, n as int));
        frac = match read_fraction(s, m + 1, n) {
            Some(v) => v,
            None => {
                return None;
            },
        };
    }
    let ghost digit_count = integer_part(u).len() + fraction_part(u).len();
    if m == n {
        assert(fraction_part(u).len() == 0);
    }
    if (m - start) + frac_len == 0 {
        assert(digit_count == 0);
        return None;
    }
    proof {
        lemma_pow10_le_million(6);
    }
    assert(frac as int == fraction_micros(fraction_part(u)));
    assert(whole as int == digits_value(integer_part(u)));
    assert(decimal_micros(s@) == whole * 1_000_000 + frac);
    if whole > (u64::MAX - frac) / MICROS_PER_PERCENT {
        assert(whole * 1_000_000 + frac > u64::MAX) by (nonlinear_arith)
            requires
                whole > (u64::MAX - frac) / 1_000_000,
                frac <= 1_000_000,
        ;
        return None;
    }
    assert(whole * 1_000_000 + frac <= u64::MAX) by (nonlinear_arith)
        requires
            whole <= (u64::MAX - frac) / 1_000_000,
            frac <= 1_000_000,
    ;
    Some(Percent { micros: whole * MICROS_PER_PERCENT + frac })
}

proof fn lemma_fraction_micros_nonneg(f: Seq<char>)
    requires
        all_digits(f),
    ensures
        fraction_micros(f) >= 0,
{
    lemma_digits_value_nonneg(f);
    if f.len() > 6 {
        assert(all_digits(f.take(6))) by {
            assert forall|j: int| 0 <= j < 6 implies is_digit(#[trigger] f.take(6)[j]) by {
                assert(f.take(6)[j] == f[j]);
            }
        }
        lemma_digits_value_nonneg(f.take(6));
    } else {
        lemma_pow10_step((6 - f.len()) as nat);
        assert(digits_value(f) * pow10((6 - f.len()) as nat) >= 0) by (nonlinear_arith)
            requires
                digits_value(f) >= 0,
                pow10((6 - f.len()) as nat) >= 1,
        ;
    }
}

/// A string of `k` digits spells less than `10^k`.
proof fn lemma_digits_below_pow10(d: Seq<char>)
    requires
        all_digits(d),
    ensures
        0 <= digits_value(d) < pow10(d.len()),
    decreases d.len(),
{
    if d.len() > 0 {
        lemma_digits_below_pow10(d.drop_last());
        lemma_pow10_step((d.len() - 1) as nat);
    }
}

proof fn lemma_pow10_le_million(n: nat)
    requires
        n <= 6,
    ensures
        pow10(n) <= 1_000_000,
        n < 6 ==> pow10(n) <= 100_000,
        n == 6 ==> pow10(n) == 1_000_000,
{
    reveal_with_fuel(pow10, 7);
}

} // verus!
