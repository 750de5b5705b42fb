//! Decimal text, as exchanges write prices, amounts and fees, read into
//! fixed-point units.
use vstd::prelude::*;
use vstd::string::{StrSliceExecFns, StringExecFns};

verus! {

/// An ASCII decimal digit.
pub open spec fn is_digit(c: char) -> bool {
    '0' <= c && c <= '9'
}

/// Every character is a digit.
pub open spec fn all_digits(s: Seq<char>) -> bool {
    forall|i: int| 0 <= i < s.len() ==> is_digit(#[trigger] s[i])
}

/// The number that a string of digits writes.
pub open spec fn digits_value(s: Seq<char>) -> int
    decreases s.len(),
{
    if s.len() == 0 {
        0
    } else {
        digits_value(s.drop_last()) * 10 + (s.last() as int - '0' as int)
    }
}

/// `10` to the power `n`.
pub open spec fn pow10(n: nat) -> int
    decreases n,
{
    if n == 0 {
        1
    } else {
        10 * pow10((n - 1) as nat)
    }
}

/// Index of the first `.`, or the length when there is none.
pub open spec fn first_dot(s: Seq<char>) -> int
    decreases s.len(),
{
    if s.len() == 0 {
        0
    } else if s[0] == '.' {
        0
    } else {
        1 + first_dot(s.drop_first())
    }
}

/// Digits, then optionally `.` and more digits, with a digit on each side of
/// the point.
pub open spec fn is_decimal(s: Seq<char>) -> bool {
    let d = first_dot(s);
    &&& d > 0
    &&& all_digits(s.take(d))
    &&& d < s.len() ==> (d + 1 < s.len() && all_digits(s.skip(d + 1)))
}

/// Value of the text in units of `1 / SCALE`: the fraction keeps its first
/// eight digits (later ones are dropped, rounding down).
pub open spec fn decimal_units(s: Seq<char>) -> int {
    let d = first_dot(s);
    let frac = if d < s.len() { s.skip(d + 1) } else { Seq::<char>::empty() };
    let kept = if frac.len() > 8 { frac.take(8) } else { frac };
    digits_value(s.take(d)) * 100_000_000 + digits_value(kept) * pow10((8 - kept.len()) as nat)
}

proof fn lemma_first_dot_bounds(s: Seq<char>)
    ensures
        0 <= first_dot(s) <= s.len(),
        first_dot(s) < s.len() ==> s[first_dot(s)] == '.',
        forall|i: int| 0 <= i < first_dot(s) ==> s[i] != '.',
    decreases s.len(),
{
    if s.len() > 0 && s[0] != '.' {
        lemma_first_dot_bounds(s.drop_first());
        assert forall|i: int| 0 <= i < first_dot(s) implies s[i] != '.' by {
            if i > 0 {
                assert(s[i] == s.drop_first()[i - 1]);
            }
        }
    }
}

proof fn lemma_first_dot_unique(s: Seq<char>, d: int)
    requires
        0 <= d <= s.len(),
        d < s.len() ==> s[d] == '.',
        forall|i: int| 0 <= i < d ==> s[i] != '.',
    ensures
        first_dot(s) == d,
    decreases s.len(),
{
    if s.len() > 0 && s[0] != '.' {
        assert forall|i: int| 0 <= i < d - 1 implies s.drop_first()[i] != '.' by {
            assert(s.drop_first()[i] == s[i + 1]);
        }
        lemma_first_dot_unique(s.drop_first(), d - 1);
    }
}

/// Reads the digits `s[from..to]`; `None` on a non-digit or past `limit`.
fn read_digits(s: &str, from: usize, to: usize, limit: u64) -> (r: Option<u64>)
    requires
        from <= to <= s@.len(),
    ensures
        r is Some <==> (all_digits(s@.subrange(from as int, to as int))
            && digits_value(s@.subrange(from as int, to as int)) <= limit),
        r is Some ==> r->0 == digits_value(s@.subrange(from as int, to as int)),
{
    let mut v: u64 = 0;
    let mut i = from;
    while i < to
        invariant
            from <= i <= to <= s@.len(),
            all_digits(s@.subrange(from as int, i as int)),
            v == digits_value(s@.subrange(from as int, i as int)),
            v <= limit,
        decreases to - i,
    {
        let c = s.get_char(i);
        let ghost next = s@.subrange(from as int, i + 1);
        assert(next.drop_last() =~= s@.subrange(from as int, i as int));
        if !('0' <= c && c <= '9') {
            assert(!all_digits(s@.subrange(from as int, to as int))) by {
                assert(s@.subrange(from as int, to as int)[i - from] == c);
            }
            return None;
        }
        let d = (c as u32 - '0' as u32) as u64;
        let nv = v as u128 * 10 + d as u128;
        assert(next.last() == c);
        assert(nv == digits_value(next));
        if nv > limit as u128 {
            proof {
                let full = s@.subrange(from as int, to as int);
                assert(full.take(i + 1 - from) =~= next);
                if all_digits(full) {
                    lemma_digits_monotone(full, i + 1 - from);
                }
            }
            return None;
        }
        v = nv as u64;
        i = i + 1;
        assert(all_digits(s@.subrange(from as int, i as int))) by {
            assert forall|j: int| 0 <= j < i - from implies is_digit(#[trigger] s@.subrange(from as int, i as int)[j]) by {
                if j < i - 1 - from {
                    assert(s@.subrange(from as int, i as int)[j] == s@.subrange(from as int, i - 1)[j]);
                }
            }
        }
    }
    Some(v)
}

/// A longer run of digits is worth at least its prefix.
proof fn lemma_digits_monotone(s: Seq<char>, k: int)
    requires
        0 <= k <= s.len(),
        all_digits(s),
    ensures
        digits_value(s.take(k)) <= digits_value(s),
        0 <= digits_value(s),
    decreases s.len(),
{
    if s.len() > 0 {
        assert(all_digits(s.drop_last())) by {
            assert forall|i: int| 0 <= i < s.len() - 1 implies is_digit(#[trigger] s.drop_last()[i]) by {
                assert(s.drop_last()[i] == s[i]);
            }
        }
        assert(is_digit(s[s.len() - 1]));
        if k == s.len() {
            assert(s.take(k) =~= s);
            lemma_digits_monotone(s.drop_last(), k - 1);
        } else {
            lemma_digits_monotone(s.drop_last(), k);
            assert(s.drop_last().take(k) =~= s.take(k));
        }
    } else {
        assert(s.take(k) =~= s);
    }
}


/// Whether `s[from..to]` holds digits only.
fn digits_only(s: &str, from: usize, to: usize) -> (r: bool)
    requires
        from <= to <= s@.len(),
    ensures
        r == all_digits(s@.subrange(from as int, to as int)),
{
    let mut i = from;
    while i < to
        invariant
            from <= i <= to <= s@.len(),
            all_digits(s@.subrange(from as int, i as int)),
        decreases to - i,
    {
        let c = s.get_char(i);
        if !('0' <= c && c <= '9') {
            assert(s@.subrange(from as int, to as int)[i - from] == c);
            return false;
        }
        i = i + 1;
        assert(all_digits(s@.subrange(from as int, i as int))) by {
            assert forall|j: int| 0 <= j < i - from implies is_digit(#[trigger] s@.subrange(from as int, i as int)[j]) by {
                if j < i - 1 - from {
                    assert(s@.subrange(from as int, i as int)[j] == s@.subrange(from as int, i - 1)[j]);
                }
            }
        }
    }
    true
}

fn pow10_exec(n: usize) -> (r: u64)
    requires
        n <= 8,
    ensures
        r == pow10(n as nat),
        r <= 100_000_000,
{
    let mut r: u64 = 1;
    let mut i: usize = 0;
    proof {
        lemma_pow10_eight();
    }
    while i < n
        invariant
            i <= n <= 8,
            r == pow10(i as nat),
            pow10(8) == 100_000_000,
        decreases n - i,
    {
        proof {
            lemma_pow10_monotone(i as nat, 7);
            lemma_pow10_eight();
        }
        r = r * 10;
        i = i + 1;
    }
    proof {
        lemma_pow10_monotone(n as nat, 8);
    }
    r
}

/// `10^8` is `SCALE`.
proof fn lemma_pow10_eight()
    ensures
        pow10(7) == 10_000_000,
        pow10(8) == 100_000_000,
{
    reveal_with_fuel(pow10, 9);
}

proof fn lemma_pow10_positive(n: nat)
    ensures
        pow10(n) >= 1,
    decreases n,
{
    if n > 0 {
        lemma_pow10_positive((n - 1) as nat);
    }
}

/// Reads unsigned decimal text into units of `1 / SCALE`; `None` when the text
/// is not a decimal or its value does not fit in 64 bits.
pub fn parse_units(s: &str) -> (r: Option<u64>)
    ensures
        r is Some <==> (is_decimal(s@) && decimal_units(s@) <= u64::MAX),
        r is Some ==> r->0 == decimal_units(s@),
{
    let n = s.unicode_len();
    let mut d: usize = 0;
    while d < n && s.get_char(d) != '.'
        invariant
            d <= n == s@.len(),
            forall|i: int| 0 <= i < d ==> s@[i] != '.',
        decreases n - d,
    {
        d = d + 1;
    }
    proof {
        lemma_first_dot_unique(s@, d as int);
        assert(s@.take(d as int) =~= s@.subrange(0, d as int));
    }
    if d == 0 {
        return None;
    }
    let ghost frac = if d < n { s@.skip(d + 1) } else { Seq::<char>::empty() };
    let ghost kept = if frac.len() > 8 { frac.take(8) } else { frac };
    let whole = match read_digits(s, 0, d, u64::MAX) {
        Some(v) => v,
        None => {
            proof {
                if is_decimal(s@) {
                    assert(all_digits(kept)) by {
                        if d < n {
                            assert forall|k: int| 0 <= k < kept.len() implies is_digit(#[trigger] kept[k]) by {
                                assert(kept[k] == frac[k]);
                            }
                        }
                    }
                    lemma_digits_bound(kept);
                    lemma_pow10_positive((8 - kept.len()) as nat);
                    assert(digits_value(kept) * pow10((8 - kept.len()) as nat) >= 0) by (nonlinear_arith)
                        requires
                            digits_value(kept) >= 0,
                            pow10((8 - kept.len()) as nat) >= 1,
                    ;
                }
            }
            return None;
        },
    };
    let mut fraction: u64 = 0;
    let mut kept_len: usize = 0;
    if d < n {
        if d + 1 == n {
            return None;
        }
        let end = if n - (d + 1) > 8 { d + 9 } else { n };
        assert(frac =~= s@.subrange(d + 1, n as int));
        assert(kept =~= s@.subrange(d + 1, end as int));
        if !digits_only(s, end, n) {
            assert(!all_digits(frac)) by {
                let k = choose|k: int| 0 <= k < n - end && !is_digit(#[trigger] s@.subrange(end as int, n as int)[k]);
                assert(frac[end - (d + 1) + k] == s@.subrange(end as int, n as int)[k]);
            }
            return None;
        }
        fraction = match read_digits(s, d + 1, end, u64::MAX) {
            Some(v) => v,
            None => {
                assert(!all_digits(kept)) by {
                    if all_digits(kept) {
                        lemma_digits_bound(kept);
                        lemma_pow10_positive(kept.len());
                        assert(pow10(kept.len()) <= 100_000_000) by {
                            lemma_pow10_monotone(kept.len(), 8);
                            lemma_pow10_eight();
                        }
                    }
                }
                assert(!all_digits(frac)) by {
                    if all_digits(frac) {
                        assert forall|k: int| 0 <= k < kept.len() implies is_digit(#[trigger] kept[k]) by {
                            assert(kept[k] == frac[k]);
                        }
                    }
                }
                return None;
            },
        };
        proof {
            assert forall|k: int| 0 <= k < frac.len() implies is_digit(#[trigger] frac[k]) by {
                if k < end - (d + 1) {
                    assert(frac[k] == kept[k]);
                } else {
                    assert(frac[k] == s@.subrange(end as int, n as int)[k - (end - (d + 1))]);
                }
            }
        }
        kept_len = end - (d + 1);
    } else {
        assert(kept =~= Seq::<char>::empty());
        assert(digits_value(kept) == 0);
    }
    assert(kept.len() == kept_len);
    assert(all_digits(kept)) by {
        if d < n {
            assert forall|k: int| 0 <= k < kept.len() implies is_digit(#[trigger] kept[k]) by {
                assert(kept[k] == frac[k]);
            }
        }
    }
    assert(is_decimal(s@));
    assert(fraction == digits_value(kept));
    let scale_left = pow10_exec(8 - kept_len);
    proof {
        lemma_pow10_positive((8 - kept_len) as nat);
        lemma_pow10_positive(kept_len as nat);
        lemma_digits_bound(kept);
        lemma_pow10_monotone(kept_len as nat, 8);
        lemma_pow10_eight();
        assert(fraction < pow10(kept_len as nat));
        assert(pow10(kept_len as nat) * pow10((8 - kept_len) as nat) == 100_000_000) by {
            lemma_pow10_add(kept_len as nat, (8 - kept_len) as nat);
            lemma_pow10_eight();
        }
        assert(fraction * scale_left < 100_000_000) by (nonlinear_arith)
            requires
                fraction < pow10(kept_len as nat),
                pow10(kept_len as nat) * scale_left == 100_000_000,
                scale_left >= 1,
                fraction >= 0,
        ;
    }
    let total = whole as u128 * 100_000_000 + (fraction * scale_left) as u128;
    if total > u64::MAX as u128 {
        None
    } else {
        Some(total as u64)
    }
}

/// Decimal text with an optional leading minus sign.
pub open spec fn is_signed_decimal(s: Seq<char>) -> bool {
    if s.len() > 0 && s[0] == '-' {
        is_decimal(s.drop_first())
    } else {
        is_decimal(s)
    }
}

/// Value of signed decimal text in units of `1 / SCALE`.
pub open spec fn signed_decimal_units(s: Seq<char>) -> int {
    if s.len() > 0 && s[0] == '-' {
        -decimal_units(s.drop_first())
    } else {
        decimal_units(s)
    }
}

/// Reads decimal text with an optional minus sign into units of `1 / SCALE`;
/// `None` when it is not such text or its value does not fit in 64 bits.
pub fn parse_signed_units(s: &str) -> (r: Option<i64>)
    ensures
        r is Some <==> (is_signed_decimal(s@) && i64::MIN <= signed_decimal_units(s@) <= i64::MAX),
        r is Some ==> r->0 == signed_decimal_units(s@),
{
    let n = s.unicode_len();
    if n > 0 && s.get_char(0) == '-' {
        let rest = s.substring_char(1, n);
        assert(rest@ =~= s@.drop_first());
        match parse_units(rest) {
            Some(v) => {
                if v > 0x8000_0000_0000_0000u64 {
                    None
                } else if v == 0x8000_0000_0000_0000u64 {
                    Some(i64::MIN)
                } else {
                    Some(-(v as i64))
                }
            },
            None => None,
        }
    } else {
        match parse_units(s) {
            Some(v) => {
                if v > i64::MAX as u64 {
                    None
                } else {
                    Some(v as i64)
                }
            },
            None => None,
        }
    }
}

/// The text of one decimal digit.
fn digit_text(d: u64) -> (r: &'static str)
    requires
        d < 10,
    ensures
        r@.len() == 1,
        is_digit(r@[0]),
        r@[0] as int - '0' as int == d,
{
    match d {
        0 => {
            proof { reveal_strlit("0"); }
            "0"
        },
        1 => {
            proof { reveal_strlit("1"); }
            "1"
        },
        2 => {
            proof { reveal_strlit("2"); }
            "2"
        },
        3 => {
            proof { reveal_strlit("3"); }
            "3"
        },
        4 => {
            proof { reveal_strlit("4"); }
            "4"
        },
        5 => {
            proof { reveal_strlit("5"); }
            "5"
        },
        6 => {
            proof { reveal_strlit("6"); }
            "6"
        },
        7 => {
            proof { reveal_strlit("7"); }
            "7"
        },
        8 => {
            proof { reveal_strlit("8"); }
            "8"
        },
        _ => {
            proof { reveal_strlit("9"); }
            "9"
        },
    }
}

/// The `len` digits of `n`, with leading zeros.
fn digits_text(n: u64, len: usize) -> (r: String)
    requires
        1 <= len <= 20,
        n < pow10(len as nat),
    ensures
        r@.len() == len,
        all_digits(r@),
        digits_value(r@) == n,
{
    let mut text = String::new();
    let mut p: u128 = 1;
    let mut e: usize = 0;
    while e + 1 < len
        invariant
            e < len <= 20,
            p == pow10(e as nat),
        decreases len - e,
    {
        proof {
            lemma_pow10_monotone((e + 1) as nat, 19);
            lemma_pow10_nineteen();
        }
        p = p * 10;
        e = e + 1;
    }
    proof {
        lemma_pow10_positive(len as nat);
        vstd::arithmetic::div_mod::lemma_basic_div(n as int, pow10(len as nat));
    }
    let mut k: usize = 0;
    while k < len
        invariant
            k <= len <= 20,
            k + e == len - 1 || (k == len && e == 0),
            p == pow10(e as nat),
            k < len ==> p == pow10((len - 1 - k) as nat),
            text@.len() == k,
            all_digits(text@),
            k < len ==> digits_value(text@) == (n as int) / pow10((len - k) as nat),
            k == len ==> digits_value(text@) == n,
        decreases len - k,
    {
        let ghost pe = pow10((len - 1 - k) as nat);
        proof {
            lemma_pow10_positive((len - 1 - k) as nat);
        }
        let q = (n as u128) / p;
        let d = (q % 10) as u64;
        let piece = digit_text(d);
        let ghost before = text@;
        text = text.concat(piece);
        proof {
            assert(text@ == before + piece@);
            assert(text@.drop_last() =~= before);
            assert(text@.last() == piece@[0]);
            // n / (10 p) * 10 + (n / p) % 10 == n / p
            assert(pow10((len - k) as nat) == 10 * pe);
            vstd::arithmetic::div_mod::lemma_div_denominator(n as int, pe, 10);
            vstd::arithmetic::div_mod::lemma_fundamental_div_mod(q as int, 10);
            assert(pe * 10 == 10 * pe);
            assert forall|i: int| 0 <= i < text@.len() implies is_digit(#[trigger] text@[i]) by {
                if i < before.len() {
                    assert(text@[i] == before[i]);
                }
            }
        }
        k = k + 1;
        if e > 0 {
            p = p / 10;
            e = e - 1;
            proof {
                assert(pow10((e + 1) as nat) == 10 * pow10(e as nat));
                vstd::arithmetic::div_mod::lemma_div_multiples_vanish(pow10(e as nat), 10);
                assert(10 * pow10(e as nat) == pow10(e as nat) * 10);
            }
        } else {
            proof {
                assert(pe == 1);
                assert(n as int / 1 == n);
            }
        }
    }
    text
}

/// `10^19` fits in 64 bits, `10^20` does not.
proof fn lemma_pow10_nineteen()
    ensures
        pow10(19) == 10_000_000_000_000_000_000,
        pow10(20) == 100_000_000_000_000_000_000,
{
    reveal_with_fuel(pow10, 21);
}

/// `v` units written as decimal text: the whole part without leading zeros,
/// a point and eight fraction digits.
pub fn format_units(v: u64) -> (r: String)
    ensures
        is_decimal(r@),
        decimal_units(r@) == v,
{
    let whole = v / 100_000_000;
    let frac = v % 100_000_000;
    let mut len: usize = 1;
    let mut p: u128 = 10;
    proof {
        lemma_pow10_nineteen();
        reveal_with_fuel(pow10, 2);
    }
    while len < 20 && p <= whole as u128
        invariant
            1 <= len <= 20,
            p == pow10(len as nat),
            pow10(20) == 100_000_000_000_000_000_000,
        decreases 20 - len,
    {
        proof {
            lemma_pow10_monotone((len + 1) as nat, 20);
        }
        p = p * 10;
        len = len + 1;
    }
    proof {
        lemma_pow10_eight();
    }
    let head = digits_text(whole, len);
    let tail = digits_text(frac, 8);
    let text = head.concat(".").concat(tail.as_str());
    proof {
        reveal_strlit(".");
        let t = text@;
        assert(t == head@ + "."@ + tail@);
        assert forall|i: int| 0 <= i < len implies t[i] != '.' by {
            assert(t[i] == head@[i]);
            assert(is_digit(head@[i]));
        }
        assert(t[len as int] == '.');
        lemma_first_dot_unique(t, len as int);
        assert(t.take(len as int) =~= head@);
        assert(t.skip(len + 1) =~= tail@);
        assert(tail@.len() == 8);
        assert(pow10(0) == 1);
        assert(v == whole * 100_000_000 + frac);
    }
    text
}

/// A string of `k` digits is worth less than `10^k`.
proof fn lemma_digits_bound(s: Seq<char>)
    requires
        all_digits(s),
    ensures
        0 <= digits_value(s) < pow10(s.len()),
    decreases s.len(),
{
    if s.len() > 0 {
        assert(all_digits(s.drop_last())) by {
            assert forall|i: int| 0 <= i < s.len() - 1 implies is_digit(#[trigger] s.drop_last()[i]) by {
                assert(s.drop_last()[i] == s[i]);
            }
        }
        assert(is_digit(s[s.len() - 1]));
        lemma_digits_bound(s.drop_last());
    }
}

proof fn lemma_pow10_monotone(a: nat, b: nat)
    requires
        a <= b,
    ensures
        pow10(a) <= pow10(b),
    decreases b,
{
    lemma_pow10_positive(a);
    if a < b {
        lemma_pow10_monotone(a, (b - 1) as nat);
    }
}

proof fn lemma_pow10_add(a: nat, b: nat)
    ensures
        pow10(a) * pow10(b) == pow10(a + b),
    decreases a,
{
    if a > 0 {
        lemma_pow10_add((a - 1) as nat, b);
        assert(pow10(a) * pow10(b) == 10 * (pow10((a - 1) as nat) * pow10(b))) by (nonlinear_arith)
            requires
                pow10(a) == 10 * pow10((a - 1) as nat),
        ;
    }
}

} // verus!
