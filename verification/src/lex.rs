//! The token layer of the model-file reader: whitespace-delimited words, a
//! discard-rest-of-line primitive, and tolerant numeric conversion (an
//! invalid token leaves the target field at its previous value).

use vstd::prelude::*;
use crate::fixed::{Fx, FX_MAX, FX_SCALE, fx_clip};

verus! {

pub open spec fn is_ws(c: u8) -> bool {
    c == 32 || c == 9 || c == 10 || c == 13 || c == 11 || c == 12
}

/// First index at or after `i` holding a non-whitespace byte, or the length.
pub open spec fn skip_ws(s: Seq<u8>, i: int) -> int
    decreases s.len() - i,
{
    if !(0 <= i < s.len()) {
        s.len() as int
    } else if is_ws(s[i]) {
        skip_ws(s, i + 1)
    } else {
        i
    }
}

/// First index at or after `i` holding a whitespace byte, or the length.
pub open spec fn token_end(s: Seq<u8>, i: int) -> int
    decreases s.len() - i,
{
    if !(0 <= i < s.len()) {
        s.len() as int
    } else if is_ws(s[i]) {
        i
    } else {
        token_end(s, i + 1)
    }
}

/// The next whitespace-delimited word starting at or after `i` (empty at
/// end of input).
pub open spec fn token_at(s: Seq<u8>, i: int) -> Seq<u8> {
    s.subrange(skip_ws(s, i), token_end(s, skip_ws(s, i)))
}

/// The position just past the next word.
pub open spec fn after_token(s: Seq<u8>, i: int) -> int {
    token_end(s, skip_ws(s, i))
}

/// The position just past the next newline, or the length.
pub open spec fn skip_line(s: Seq<u8>, i: int) -> int
    decreases s.len() - i,
{
    if !(0 <= i < s.len()) {
        s.len() as int
    } else if s[i] == 10 {
        i + 1
    } else {
        skip_line(s, i + 1)
    }
}

pub proof fn lemma_skip_ws_bounds(s: Seq<u8>, i: int)
    requires
        0 <= i <= s.len(),
    ensures
        i <= skip_ws(s, i) <= s.len(),
        skip_ws(s, i) < s.len() ==> !is_ws(s[skip_ws(s, i)]),
    decreases s.len() - i,
{
    if i < s.len() && is_ws(s[i]) {
        lemma_skip_ws_bounds(s, i + 1);
    }
}

pub proof fn lemma_token_end_bounds(s: Seq<u8>, i: int)
    requires
        0 <= i <= s.len(),
    ensures
        i <= token_end(s, i) <= s.len(),
    decreases s.len() - i,
{
    if i < s.len() && !is_ws(s[i]) {
        lemma_token_end_bounds(s, i + 1);
    }
}

/// Bounds and progress for one word: the next word ends within the input,
/// and a non-empty word moves the position strictly forward.
pub proof fn lemma_token_bounds(s: Seq<u8>, i: int)
    requires
        0 <= i <= s.len(),
    ensures
        i <= after_token(s, i) <= s.len(),
        token_at(s, i).len() > 0 <==> skip_ws(s, i) < s.len(),
        token_at(s, i).len() > 0 ==> after_token(s, i) > i,
        token_at(s, i).len() == 0 ==> after_token(s, i) == s.len(),
{
    lemma_skip_ws_bounds(s, i);
    let j = skip_ws(s, i);
    lemma_token_end_bounds(s, j);
    if j < s.len() {
        assert(!is_ws(s[j]));
        assert(token_end(s, j) == token_end(s, j + 1));
        lemma_token_end_bounds(s, j + 1);
    }
}

pub proof fn lemma_skip_line_bounds(s: Seq<u8>, i: int)
    requires
        0 <= i <= s.len(),
    ensures
        i <= skip_line(s, i) <= s.len(),
    decreases s.len() - i,
{
    if i < s.len() && s[i] != 10 {
        lemma_skip_line_bounds(s, i + 1);
    }
}

/// Reads the next word.
pub fn next_token(s: &[u8], i: usize) -> (r: (Vec<u8>, usize))
    requires
        i <= s@.len(),
    ensures
        r.0@ == token_at(s@, i as int),
        r.1 as int == after_token(s@, i as int),
        i <= r.1 <= s@.len(),
{
    proof {
        lemma_token_bounds(s@, i as int);
    }
    let mut j: usize = i;
    while j < s.len() && is_ws_e(s[j])
        invariant
            i <= j <= s@.len(),
            skip_ws(s@, i as int) == skip_ws(s@, j as int),
        decreases s@.len() - j,
    {
        j = j + 1;
    }
    assert(skip_ws(s@, j as int) == j as int);
    let mut k: usize = j;
    let mut tok: Vec<u8> = Vec::new();
    while k < s.len() && !is_ws_e(s[k])
        invariant
            j <= k <= s@.len(),
            token_end(s@, j as int) == token_end(s@, k as int),
            tok@ == s@.subrange(j as int, k as int),
        decreases s@.len() - k,
    {
        tok.push(s[k]);
        k = k + 1;
        proof {
            assert(tok@ =~= s@.subrange(j as int, k as int));
        }
    }
    assert(token_end(s@, k as int) == k as int);
    (tok, k)
}

/// Whitespace in the byte stream: space, tab, newline, carriage return,
/// vertical tab or form feed.
pub fn is_ws_e(c: u8) -> (r: bool)
    ensures
        r == is_ws(c),
{
    c == 32 || c == 9 || c == 10 || c == 13 || c == 11 || c == 12
}

/// Discards the rest of the current line.
pub fn skip_line_e(s: &[u8], i: usize) -> (r: usize)
    requires
        i <= s@.len(),
    ensures
        r as int == skip_line(s@, i as int),
        i <= r <= s@.len(),
{
    proof {
        lemma_skip_line_bounds(s@, i as int);
    }
    let mut k: usize = i;
    while k < s.len() && s[k] != 10
        invariant
            i <= k <= s@.len(),
            skip_line(s@, i as int) == skip_line(s@, k as int),
        decreases s@.len() - k,
    {
        k = k + 1;
    }
    if k < s.len() {
        k + 1
    } else {
        k
    }
}

pub open spec fn is_digit(c: u8) -> bool {
    48 <= c && c <= 57
}

pub open spec fn all_digits(t: Seq<u8>) -> bool {
    forall|k: int| 0 <= k < t.len() ==> is_digit(#[trigger] t[k])
}

/// The number a digit string denotes.
pub open spec fn digits_val(t: Seq<u8>) -> int
    decreases t.len(),
{
    if t.len() == 0 {
        0
    } else {
        digits_val(t.drop_last()) * 10 + (t.last() - 48)
    }
}

pub open spec fn pow10(e: int) -> int
    decreases e,
{
    if e <= 0 {
        1
    } else {
        10 * pow10(e - 1)
    }
}

/// Whether the token is a sign followed by at least one digit, within the
/// signed 32-bit range.
pub open spec fn i32_token_valid(t: Seq<u8>) -> bool {
    let neg = t.len() > 0 && t[0] == 45;
    let d = if neg {
        t.subrange(1, t.len() as int)
    } else {
        t
    };
    d.len() > 0 && all_digits(d) && (if neg {
        digits_val(d) <= 0x8000_0000
    } else {
        digits_val(d) <= 0x7FFF_FFFF
    })
}

pub open spec fn i32_token_val(t: Seq<u8>) -> int {
    let neg = t.len() > 0 && t[0] == 45;
    let d = if neg {
        t.subrange(1, t.len() as int)
    } else {
        t
    };
    if neg {
        -digits_val(d)
    } else {
        digits_val(d)
    }
}

pub open spec fn parse_i32_s(t: Seq<u8>) -> Option<int> {
    if i32_token_valid(t) {
        Option::Some(i32_token_val(t))
    } else {
        Option::None
    }
}

/// Converts a token to a signed 32-bit integer; `None` on any malformed or
/// out-of-range token.
#[verifier::loop_isolation(false)]
pub fn parse_i32_e(t: &[u8]) -> (r: Option<i32>)
    ensures
        parse_i32_s(t@) is Some ==> r is Some && r->0 as int == parse_i32_s(t@)->0,
        parse_i32_s(t@) is None ==> r is None,
{
    let neg: bool = t.len() > 0 && t[0] == 45;
    let st: usize = if neg {
        1
    } else {
        0
    };
    let ghost d = if neg {
        t@.subrange(1, t@.len() as int)
    } else {
        t@
    };
    if t.len() == st {
        return None;
    }
    let mut acc: u64 = 0;
    let mut k: usize = st;
    while k < t.len()
        invariant
            st <= k <= t@.len(),
            st == if neg { 1int } else { 0int },
            t@.len() > st,
            d == (if neg { t@.subrange(1, t@.len() as int) } else { t@ }),
            d.len() == t@.len() - st,
            forall|j: int| 0 <= j < d.len() ==> d[j] == t@[j + st],
            all_digits(d.subrange(0, k - st)),
            (acc <= 0xFFFF_FFFFu64 && acc as int == digits_val(d.subrange(0, k - st))) || (acc
                == 0x1_0000_0000u64 && digits_val(d.subrange(0, k - st)) > 0xFFFF_FFFF),
        decreases t@.len() - k,
    {
        let c = t[k];
        if c < 48 || c > 57 {
            assert(!is_digit(d[k - st]));
            assert(!i32_token_valid(t@));
            return None;
        }
        let ghost pre = d.subrange(0, k - st);
        let ghost pre2 = d.subrange(0, k + 1 - st);
        proof {
            assert(pre2.drop_last() =~= pre);
            assert(pre2.last() == t@[k as int]);
        }
        let dg: u64 = (c - 48) as u64;
        if acc <= 0xFFFF_FFFF {
            acc = acc * 10 + dg;
            if acc > 0xFFFF_FFFF {
                acc = 0x1_0000_0000;
            }
        }
        k = k + 1;
    }
    proof {
        assert(d.subrange(0, t@.len() - st) =~= d);
    }
    if neg {
        if acc > 0x8000_0000 {
            None
        } else if acc == 0x8000_0000 {
            Some(i32::MIN)
        } else {
            Some(-(acc as i32))
        }
    } else {
        if acc > 0x7FFF_FFFF {
            None
        } else {
            Some(acc as i32)
        }
    }
}

/// First index at or after `i` holding a dot, or the length.
pub open spec fn find_dot(s: Seq<u8>, i: int) -> int
    decreases s.len() - i,
{
    if !(0 <= i < s.len()) {
        s.len() as int
    } else if s[i] == 46 {
        i
    } else {
        find_dot(s, i + 1)
    }
}

pub proof fn lemma_find_dot_bounds(s: Seq<u8>, i: int)
    requires
        0 <= i <= s.len(),
    ensures
        i <= find_dot(s, i) <= s.len(),
    decreases s.len() - i,
{
    if i < s.len() && s[i] != 46 {
        lemma_find_dot_bounds(s, i + 1);
    }
}

/// A scalar token: a sign, at least one integer digit, and an optional dot
/// with fraction digits.
pub open spec fn fx_token_valid(t: Seq<u8>) -> bool {
    let neg = t.len() > 0 && t[0] == 45;
    let d = if neg {
        t.subrange(1, t.len() as int)
    } else {
        t
    };
    let p = find_dot(d, 0);
    let ip = d.subrange(0, p);
    let fr = if p == d.len() {
        Seq::<u8>::empty()
    } else {
        d.subrange(p + 1, d.len() as int)
    };
    ip.len() > 0 && all_digits(ip) && all_digits(fr)
}

/// The first six fraction digits, scaled to raw units.
pub open spec fn frac_raw(f: Seq<u8>) -> int {
    let m = if f.len() < 6 {
        f.len() as int
    } else {
        6
    };
    digits_val(f.subrange(0, m)) * pow10(6 - m)
}

/// The raw fixed-point value a valid scalar token denotes, before
/// saturation.
pub open spec fn fx_token_val(t: Seq<u8>) -> int {
    let neg = t.len() > 0 && t[0] == 45;
    let d = if neg {
        t.subrange(1, t.len() as int)
    } else {
        t
    };
    let p = find_dot(d, 0);
    let ip = d.subrange(0, p);
    let fr = if p == d.len() {
        Seq::<u8>::empty()
    } else {
        d.subrange(p + 1, d.len() as int)
    };
    let mag = digits_val(ip) * (FX_SCALE as int) + frac_raw(fr);
    if neg {
        -mag
    } else {
        mag
    }
}

pub open spec fn parse_fx_s(t: Seq<u8>) -> Option<int> {
    if fx_token_valid(t) {
        Option::Some(fx_clip(fx_token_val(t)))
    } else {
        Option::None
    }
}

pub proof fn lemma_digits_val_bound(t: Seq<u8>)
    requires
        all_digits(t),
    ensures
        0 <= digits_val(t),
        digits_val(t) < pow10(t.len() as int),
    decreases t.len(),
{
    if t.len() > 0 {
        assert(all_digits(t.drop_last()));
        lemma_digits_val_bound(t.drop_last());
    }
}

/// Converts a token to a saturating fixed-point scalar; `None` on any
/// malformed token.
#[verifier::rlimit(60)]
#[verifier::loop_isolation(false)]
pub fn parse_fx_e(t: &[u8]) -> (r: Option<Fx>)
    ensures
        parse_fx_s(t@) is Some ==> r is Some && r->0@ == parse_fx_s(t@)->0,
        parse_fx_s(t@) is None ==> r is None,
{
    let neg: bool = t.len() > 0 && t[0] == 45;
    let st: usize = if neg {
        1
    } else {
        0
    };
    let ghost d = if neg {
        t@.subrange(1, t@.len() as int)
    } else {
        t@
    };
    proof {
        assert(d.len() == t@.len() - st);
        assert(forall|j: int| 0 <= j < d.len() ==> d[j] == t@[j + st]);
        lemma_find_dot_bounds(d, 0);
    }
    // locate the dot
    let mut dp: usize = st;
    while dp < t.len() && t[dp] != 46
        invariant
            st <= dp <= t@.len(),
            st == if neg { 1int } else { 0int },
            d == (if neg { t@.subrange(1, t@.len() as int) } else { t@ }),
            find_dot(d, 0) == find_dot(d, dp - st),
        decreases t@.len() - dp,
    {
        dp = dp + 1;
    }
    assert(find_dot(d, dp - st) == dp - st);
    let ghost p = find_dot(d, 0);
    let ghost ip = d.subrange(0, p);
    let ghost fr = if p == d.len() {
        Seq::<u8>::empty()
    } else {
        d.subrange(p + 1, d.len() as int)
    };
    if dp == st {
        // empty integer part
        assert(ip.len() == 0);
        assert(!fx_token_valid(t@));
        return None;
    }
    // integer part
    let mut acc: u64 = 0;
    let mut k: usize = st;
    while k < dp
        invariant
            st <= k <= dp <= t@.len(),
            st == if neg { 1int } else { 0int },
            d == (if neg { t@.subrange(1, t@.len() as int) } else { t@ }),
            p == dp - st,
            p <= d.len(),
            ip == d.subrange(0, p),
            all_digits(ip.subrange(0, k - st)),
            (acc <= 1_000_000_000u64 && acc as int == digits_val(ip.subrange(0, k - st))) || (acc
                == 1_000_000_001u64 && digits_val(ip.subrange(0, k - st)) > 1_000_000_000),
        decreases dp - k,
    {
        let c = t[k];
        if c < 48 || c > 57 {
            assert(ip[k - st] == t@[k as int]);
            assert(!is_digit(ip[k - st]));
            assert(!fx_token_valid(t@));
            return None;
        }
        let ghost pre = ip.subrange(0, k - st);
        let ghost pre2 = ip.subrange(0, k + 1 - st);
        proof {
            assert(pre2.drop_last() =~= pre);
            assert(pre2.last() == t@[k as int]);
        }
        let dg: u64 = (c - 48) as u64;
        if acc <= 1_000_000_000 {
            acc = acc * 10 + dg;
            if acc > 1_000_000_000 {
                acc = 1_000_000_001;
            }
        }
        k = k + 1;
    }
    proof {
        assert(ip.subrange(0, p) =~= ip);
    }
    // fraction part: validity over all digits, value from the first six
    let mut fval: u64 = 0;
    let mut m: usize = 0;
    if dp < t.len() {
        let mut k2: usize = dp + 1;
        while k2 < t.len()
            invariant
                dp + 1 <= k2 <= t@.len(),
                dp < t@.len(),
                st == if neg { 1int } else { 0int },
                st <= dp,
                d == (if neg { t@.subrange(1, t@.len() as int) } else { t@ }),
                p == dp - st,
                p < d.len(),
                fr == d.subrange(p + 1, d.len() as int),
                fr.len() == t@.len() - dp - 1,
                forall|j: int| 0 <= j < fr.len() ==> fr[j] == t@[j + dp + 1],
                all_digits(fr.subrange(0, k2 - dp - 1)),
                m == (if k2 - dp - 1 <= 6 { k2 - dp - 1 } else { 6int }),
                fval as int == digits_val(fr.subrange(0, m as int)),
                fval < 1_000_000u64,
            decreases t@.len() - k2,
        {
            let c = t[k2];
            if c < 48 || c > 57 {
                assert(fr[k2 - dp - 1] == t@[k2 as int]);
                assert(!is_digit(fr[k2 - dp - 1]));
                assert(!fx_token_valid(t@));
                return None;
            }
            proof {
                let pre = fr.subrange(0, k2 - dp - 1);
                let pre2 = fr.subrange(0, k2 - dp);
                assert(pre2.drop_last() =~= pre);
                assert(pre2.last() == t@[k2 as int]);
                if m < 6 {
                    assert(fr.subrange(0, m + 1).drop_last() =~= fr.subrange(0, m as int));
                    assert(fr.subrange(0, m + 1).last() == fr[m as int]);
                    assert(all_digits(fr.subrange(0, m as int)));
                    lemma_digits_val_bound(fr.subrange(0, m as int));
                    lemma_pow10_values();
                }
            }
            if m < 6 {
                let dg: u64 = (c - 48) as u64;
                proof {
                    assert(digits_val(fr.subrange(0, m as int)) < pow10(m as int));
                    assert(pow10(m as int) <= pow10(5)) by {
                        lemma_pow10_mono(m as int, 5);
                    }
                }
                fval = fval * 10 + dg;
                m = m + 1;
            }
            k2 = k2 + 1;
        }
        proof {
            assert(fr.subrange(0, fr.len() as int) =~= fr);
        }
    }
    proof {
        if !(dp < t.len()) {
            assert(fr =~= Seq::<u8>::empty());
            assert(fr.subrange(0, 0) =~= fr);
        }
    }
    // scale the fraction to six digits
    let mult: u64 = pow10_small(6 - m as u64);
    proof {
        lemma_pow10_values();
        lemma_pow10_positive(6 - m);
        lemma_pow10_mono(m as int, 6);
        lemma_digits_val_bound(fr.subrange(0, m as int));
        assert(fval as int * pow10(6 - m) == frac_raw(fr));
        assert(fval as int * pow10(6 - m) < pow10(m as int) * pow10(6 - m)) by (nonlinear_arith)
            requires
                0 <= fval as int,
                (fval as int) < pow10(m as int),
                pow10(6 - m) >= 1,
        ;
        lemma_pow10_split(m as int);
        assert(fval as int * (mult as int) < 1_000_000);
    }
    let fracv: u64 = fval * mult;
    let mag: u64 = if acc > 1_000_000_000 {
        FX_MAX as u64
    } else {
        let v: u64 = acc * (FX_SCALE as u64) + fracv;
        if v > FX_MAX as u64 {
            FX_MAX as u64
        } else {
            v
        }
    };
    proof {
        if acc > 1_000_000_000u64 {
            assert(digits_val(ip) * (FX_SCALE as int) >= 1_000_000_001 * (FX_SCALE as int));
            assert(frac_raw(fr) >= 0);
            assert(fx_clip(fx_token_val(t@)) == if neg { -(FX_MAX as int) } else { FX_MAX as int });
        }
    }
    if neg {
        Some(Fx::from_raw(-(mag as i64)))
    } else {
        Some(Fx::from_raw(mag as i64))
    }
}

/// Ten to a small power.
pub fn pow10_small(e: u64) -> (r: u64)
    requires
        e <= 6,
    ensures
        r as int == pow10(e as int),
{
    proof {
        lemma_pow10_values();
    }
    if e == 0 {
        1
    } else if e == 1 {
        10
    } else if e == 2 {
        100
    } else if e == 3 {
        1_000
    } else if e == 4 {
        10_000
    } else if e == 5 {
        100_000
    } else {
        1_000_000
    }
}

pub proof fn lemma_pow10_values()
    ensures
        pow10(0) == 1,
        pow10(1) == 10,
        pow10(2) == 100,
        pow10(3) == 1000,
        pow10(4) == 10000,
        pow10(5) == 100000,
        pow10(6) == 1000000,
{
    reveal_with_fuel(pow10, 8);
}

pub proof fn lemma_pow10_mono(a: int, b: int)
    requires
        0 <= a <= b,
    ensures
        pow10(a) <= pow10(b),
    decreases b - a,
{
    if a < b {
        lemma_pow10_mono(a, b - 1);
        assert(pow10(b) == 10 * pow10(b - 1));
        assert(pow10(b - 1) >= 1) by {
            lemma_pow10_positive(b - 1);
        }
    }
}

pub proof fn lemma_pow10_positive(e: int)
    ensures
        pow10(e) >= 1,
    decreases
            if e <= 0 {
                0int
            } else {
                e
            },
{
    if e > 0 {
        lemma_pow10_positive(e - 1);
    }
}

/// `10^m * 10^(6-m) == 10^6` for `0 <= m <= 6`.
pub proof fn lemma_pow10_split(m: int)
    requires
        0 <= m <= 6,
    ensures
        pow10(m) * pow10(6 - m) == 1_000_000,
{
    lemma_pow10_values();
    if m == 0 {
    } else if m == 1 {
    } else if m == 2 {
    } else if m == 3 {
    } else if m == 4 {
    } else if m == 5 {
    } else {
    }
}

} // verus!
