//! Decimal numbers as submitted in form values.
//!
//! A numeric value is a string of the shape
//! `[+|-] digits [. digits] [(e|E) [+|-] digits]`: an optional sign, a
//! mantissa with at least one digit and at most one point, and an optional
//! decimal exponent. Its exact rational value is compared against a
//! field's integer bounds: the comparison needs only the sign, the integer
//! part, and whether any digit falls after the point, so the value is
//! represented by those three. The integer part is carried exactly while
//! it is small and saturates above every bound a field can state, so every
//! comparison against an `i64` bound is exact. Textual float forms such as
//! `inf` or `NaN` are outside the grammar and read as invalid.

use vstd::prelude::*;

verus! {

/// The ASCII decimal point.
pub const DOT_BYTE: u8 = 0x2e;

/// The ASCII minus sign.
pub const MINUS_BYTE: u8 = 0x2d;

/// The ASCII plus sign.
pub const PLUS_BYTE: u8 = 0x2b;

/// Above this the integer part saturates; it exceeds every `i64` bound.
pub const SAT_CAP: u128 = 10_000_000_000_000_000_000;

/// Above this the exponent saturates; it dwarfs any string's length.
pub const EXP_CAP: u128 = 1_000_000_000_000_000_000_000_000_000_000;

/// True of the ASCII digits.
pub open spec fn is_digit_byte(b: u8) -> bool {
    0x30 <= b <= 0x39
}

/// True of the exponent markers `e` and `E`.
pub open spec fn is_exp_marker(b: u8) -> bool {
    b == 0x65 || b == 0x45
}

/// True when every byte is an ASCII digit.
pub open spec fn all_digit_bytes(s: Seq<u8>) -> bool {
    forall|i: int| 0 <= i < s.len() ==> is_digit_byte(#[trigger] s[i])
}

/// True when some byte is an ASCII digit.
pub open spec fn has_digit_byte(s: Seq<u8>) -> bool {
    exists|i: int| 0 <= i < s.len() && is_digit_byte(#[trigger] s[i])
}

/// The mantissa grammar: at least one digit, digits and at most one
/// decimal point, nothing else.
pub open spec fn valid_mantissa(s: Seq<u8>) -> bool {
    &&& s.len() >= 1
    &&& forall|i: int| 0 <= i < s.len() ==> is_digit_byte(#[trigger] s[i]) || s[i] == DOT_BYTE
    &&& forall|i: int, j: int|
        0 <= i < s.len() && 0 <= j < s.len() && #[trigger] s[i] == DOT_BYTE && #[trigger] s[j]
            == DOT_BYTE ==> i == j
    &&& has_digit_byte(s)
}

/// The exponent grammar: an optional sign, then at least one digit.
pub open spec fn valid_exp_part(s: Seq<u8>) -> bool {
    let ds = if s.len() > 0 && (s[0] == MINUS_BYTE || s[0] == PLUS_BYTE) {
        s.drop_first()
    } else {
        s
    };
    ds.len() >= 1 && all_digit_bytes(ds)
}

/// The signed value an exponent part spells.
pub open spec fn spec_exp_value(s: Seq<u8>) -> int {
    if s.len() > 0 && s[0] == MINUS_BYTE {
        -(digits_val(s.drop_first()) as int)
    } else if s.len() > 0 && s[0] == PLUS_BYTE {
        digits_val(s.drop_first()) as int
    } else {
        digits_val(s) as int
    }
}

/// The digits before and after the decimal point; all of `s` and nothing
/// when there is no point.
pub open spec fn mantissa_split(s: Seq<u8>) -> (Seq<u8>, Seq<u8>) {
    if exists|i: int| 0 <= i < s.len() && s[i] == DOT_BYTE {
        let i = choose|i: int| 0 <= i < s.len() && s[i] == DOT_BYTE;
        (s.take(i), s.skip(i + 1))
    } else {
        (s, Seq::empty())
    }
}

/// The natural number a digit string spells.
pub open spec fn digits_val(ds: Seq<u8>) -> nat
    decreases ds.len(),
{
    if ds.len() == 0 {
        0
    } else {
        digits_val(ds.drop_last()) * 10 + (ds.last() - 0x30) as nat
    }
}

/// True when some byte is other than the digit zero.
pub open spec fn frac_nonzero_bytes(fs: Seq<u8>) -> bool {
    exists|i: int| 0 <= i < fs.len() && fs[i] != 0x30
}

/// Ten to the `n`-th.
pub open spec fn pow10(n: nat) -> nat
    decreases n,
{
    if n == 0 {
        1
    } else {
        10 * pow10((n - 1) as nat)
    }
}

/// Powers of ten are positive.
proof fn lemma_pow10_pos(n: nat)
    ensures
        pow10(n) >= 1,
    decreases n,
{
    if n > 0 {
        lemma_pow10_pos((n - 1) as nat);
    }
}

/// Powers of ten multiply by adding exponents.
proof fn lemma_pow10_adds(a: nat, b: nat)
    ensures
        pow10(a + b) == pow10(a) * pow10(b),
    decreases a,
{
    if a == 0 {
        assert(pow10(0) == 1);
    } else {
        lemma_pow10_adds((a - 1) as nat, b);
        let x = pow10((a - 1) as nat);
        let y = pow10(b);
        assert(((a + b) - 1) as nat == (a - 1) as nat + b);
        assert(pow10(a + b) == 10 * (x * y));
        assert(10 * (x * y) == (10 * x) * y) by (nonlinear_arith);
    }
}

/// Powers of ten grow with the exponent.
proof fn lemma_pow10_mono(a: nat, b: nat)
    requires
        a <= b,
    ensures
        pow10(a) <= pow10(b),
{
    lemma_pow10_adds(a, (b - a) as nat);
    lemma_pow10_pos((b - a) as nat);
    let x = pow10(a);
    let y = pow10((b - a) as nat);
    assert(x * y >= x) by (nonlinear_arith)
        requires
            y >= 1,
    ;
}

/// Twenty decimal shifts pass the saturation cap.
proof fn lemma_pow10_cap()
    ensures
        pow10(20) >= SAT_CAP,
{
    reveal_with_fuel(pow10, 22);
    assert(pow10(20) == 100_000_000_000_000_000_000);
}

/// A saturated scaling stays saturated under further shifts.
proof fn lemma_scale_huge(v: nat, k: nat, s: nat)
    requires
        k <= s,
        v * pow10(k) >= SAT_CAP,
    ensures
        v * pow10(s) >= SAT_CAP,
{
    lemma_pow10_adds(k, (s - k) as nat);
    lemma_pow10_pos((s - k) as nat);
    let x = pow10(k);
    let y = pow10((s - k) as nat);
    assert(v * (x * y) == (v * x) * y) by (nonlinear_arith);
    assert((v * x) * y >= v * x) by (nonlinear_arith)
        requires
            y >= 1,
    ;
}

/// A digit string of zeros spells zero.
proof fn lemma_digits_val_zero(ds: Seq<u8>)
    requires
        forall|i: int| 0 <= i < ds.len() ==> #[trigger] ds[i] == 0x30,
    ensures
        digits_val(ds) == 0,
    decreases ds.len(),
{
    if ds.len() > 0 {
        lemma_digits_val_zero(ds.drop_last());
    }
}

/// A digit string with any digit other than zero spells at least one.
proof fn lemma_digits_val_nonzero(ds: Seq<u8>)
    requires
        all_digit_bytes(ds),
        exists|i: int| 0 <= i < ds.len() && #[trigger] ds[i] != 0x30,
    ensures
        digits_val(ds) >= 1,
    decreases ds.len(),
{
    let i = choose|i: int| 0 <= i < ds.len() && #[trigger] ds[i] != 0x30;
    if i == ds.len() - 1 {
        assert(is_digit_byte(ds.last()) && ds.last() != 0x30);
    } else {
        assert(ds.drop_last()[i] == ds[i]);
        lemma_digits_val_nonzero(ds.drop_last());
    }
}

/// The integer part of the digits `digits` with the decimal point standing
/// at position `p`: zero when the point is at or left of the start, a
/// digit prefix while it falls inside, the whole string shifted up once it
/// passes the end.
pub open spec fn spec_scaled_int(digits: Seq<u8>, p: int) -> nat {
    if p <= 0 {
        0
    } else if p <= digits.len() {
        digits_val(digits.take(p))
    } else {
        digits_val(digits) * pow10((p - digits.len()) as nat)
    }
}

/// Whether anything other than zero falls after the point at position `p`.
pub open spec fn spec_scaled_frac(digits: Seq<u8>, p: int) -> bool {
    if p <= 0 {
        frac_nonzero_bytes(digits)
    } else if p < digits.len() {
        frac_nonzero_bytes(digits.skip(p))
    } else {
        false
    }
}

/// What a numeric value is, as far as integer bounds can see: its sign,
/// its integer part, and whether anything follows the point.
pub ghost struct DecValue {
    pub neg: bool,
    pub int_part: nat,
    pub frac_nonzero: bool,
}

/// The value of a mantissa scaled by a decimal exponent.
pub open spec fn spec_mantissa_value(neg: bool, m: Seq<u8>, e: int) -> DecValue {
    let parts = mantissa_split(m);
    let digits = parts.0 + parts.1;
    let p = parts.0.len() + e;
    DecValue {
        neg,
        int_part: spec_scaled_int(digits, p),
        frac_nonzero: spec_scaled_frac(digits, p),
    }
}

/// The position of the first exponent marker, or the length when there is
/// none.
pub open spec fn first_marker(s: Seq<u8>) -> int
    decreases s.len(),
{
    if s.len() == 0 {
        0
    } else if is_exp_marker(s[0]) {
        0
    } else {
        1 + first_marker(s.drop_first())
    }
}

/// `first_marker` finds exactly the position a left-to-right scan finds.
proof fn lemma_first_marker_is(s: Seq<u8>, em: int)
    requires
        0 <= em <= s.len(),
        forall|j: int| 0 <= j < em ==> !is_exp_marker(#[trigger] s[j]),
        em < s.len() ==> is_exp_marker(s[em]),
        em == s.len() ==> forall|j: int| 0 <= j < s.len() ==> !is_exp_marker(#[trigger] s[j]),
    ensures
        first_marker(s) == em,
    decreases s.len(),
{
    if s.len() == 0 {
    } else if is_exp_marker(s[0]) {
        assert(em == 0);
    } else {
        assert(em >= 1);
        let t = s.drop_first();
        assert forall|j: int| 0 <= j < em - 1 implies !is_exp_marker(#[trigger] t[j]) by {
            assert(t[j] == s[j + 1]);
        }
        if em < s.len() {
            assert(t[em - 1] == s[em]);
        } else {
            assert forall|j: int| 0 <= j < t.len() implies !is_exp_marker(#[trigger] t[j]) by {
                assert(t[j] == s[j + 1]);
            }
        }
        lemma_first_marker_is(t, em - 1);
    }
}

/// The value a byte string spells under the numeric grammar, or `None`
/// when it does not conform.
pub open spec fn spec_parse_decimal(bytes: Seq<u8>) -> Option<DecValue> {
    if bytes.len() == 0 {
        None
    } else {
        let neg = bytes[0] == MINUS_BYTE;
        let rest = if bytes[0] == MINUS_BYTE || bytes[0] == PLUS_BYTE {
            bytes.drop_first()
        } else {
            bytes
        };
        let fm = first_marker(rest);
        if fm < rest.len() {
            let m = rest.take(fm);
            let ep = rest.skip(fm + 1);
            if valid_mantissa(m) && valid_exp_part(ep) {
                Some(spec_mantissa_value(neg, m, spec_exp_value(ep)))
            } else {
                None
            }
        } else if valid_mantissa(rest) {
            Some(spec_mantissa_value(neg, rest, 0))
        } else {
            None
        }
    }
}

/// A parsed numeric value, ready for exact comparison against `i64`
/// bounds.
pub struct DecNumber {
    /// The sign.
    pub neg: bool,
    /// The integer part while below `SAT_CAP`; stale once `huge`.
    pub int_sat: u128,
    /// The integer part reached `SAT_CAP`, and so exceeds every bound.
    pub huge: bool,
    /// Some digit after the point is other than zero.
    pub frac_nonzero: bool,
    /// The exact integer part.
    pub int_full: Ghost<nat>,
}

impl DecNumber {
    /// `int_sat` and `huge` faithfully represent the exact integer part.
    pub open spec fn inv(&self) -> bool {
        if self.huge {
            self.int_full@ >= SAT_CAP
        } else {
            self.int_sat == self.int_full@ && self.int_full@ < SAT_CAP
        }
    }

    /// The value this number denotes.
    pub open spec fn value(&self) -> DecValue {
        DecValue { neg: self.neg, int_part: self.int_full@, frac_nonzero: self.frac_nonzero }
    }
}

/// The position of the first decimal point, if any.
fn find_dot(s: &[u8]) -> (r: Option<usize>)
    ensures
        match r {
            Some(i) => i < s@.len() && s@[i as int] == DOT_BYTE && (forall|j: int|
                0 <= j < i ==> s@[j] != DOT_BYTE),
            None => forall|j: int| 0 <= j < s@.len() ==> s@[j] != DOT_BYTE,
        },
{
    let mut i: usize = 0;
    while i < s.len()
        invariant
            i <= s@.len(),
            forall|j: int| 0 <= j < i ==> s@[j] != DOT_BYTE,
        decreases s@.len() - i,
    {
        if s[i] == DOT_BYTE {
            return Some(i);
        }
        i = i + 1;
    }
    None
}

/// The position of the first exponent marker, if any.
fn find_marker(s: &[u8]) -> (r: Option<usize>)
    ensures
        match r {
            Some(i) => i < s@.len() && is_exp_marker(s@[i as int]) && (forall|j: int|
                0 <= j < i ==> !is_exp_marker(#[trigger] s@[j])),
            None => forall|j: int| 0 <= j < s@.len() ==> !is_exp_marker(#[trigger] s@[j]),
        },
{
    let mut i: usize = 0;
    while i < s.len()
        invariant
            i <= s@.len(),
            forall|j: int| 0 <= j < i ==> !is_exp_marker(#[trigger] s@[j]),
        decreases s@.len() - i,
    {
        let b = s[i];
        if b == 0x65 || b == 0x45 {
            return Some(i);
        }
        i = i + 1;
    }
    None
}

/// Whether every byte of a range is an ASCII digit.
fn all_digits_in(s: &[u8], from: usize, to: usize) -> (r: bool)
    requires
        from <= to <= s@.len(),
    ensures
        r == all_digit_bytes(s@.subrange(from as int, to as int)),
{
    let mut i: usize = from;
    while i < to
        invariant
            from <= i <= to <= s@.len(),
            forall|j: int| from <= j < i ==> is_digit_byte(#[trigger] s@[j]),
        decreases to - i,
    {
        let b = s[i];
        if b < 0x30 || b > 0x39 {
            proof {
                assert(s@.subrange(from as int, to as int)[i - from] == s@[i as int]);
            }
            return false;
        }
        i = i + 1;
    }
    proof {
        assert forall|j: int|
            0 <= j < s@.subrange(from as int, to as int).len() implies is_digit_byte(
            #[trigger] s@.subrange(from as int, to as int)[j],
        ) by {
            assert(s@.subrange(from as int, to as int)[j] == s@[from + j]);
        }
    }
    true
}

/// Whether any byte of a range is other than the digit zero.
fn any_nonzero_in(s: &[u8], from: usize, to: usize) -> (r: bool)
    requires
        from <= to <= s@.len(),
    ensures
        r == frac_nonzero_bytes(s@.subrange(from as int, to as int)),
{
    let mut i: usize = from;
    while i < to
        invariant
            from <= i <= to <= s@.len(),
            forall|j: int| from <= j < i ==> s@[j] == 0x30,
        decreases to - i,
    {
        if s[i] != 0x30 {
            proof {
                assert(s@.subrange(from as int, to as int)[i - from] == s@[i as int]);
            }
            return true;
        }
        i = i + 1;
    }
    proof {
        assert forall|j: int|
            0 <= j < s@.subrange(from as int, to as int).len() implies s@.subrange(
            from as int,
            to as int,
        )[j] == 0x30 by {
            assert(s@.subrange(from as int, to as int)[j] == s@[from + j]);
        }
    }
    false
}

/// Reads a digit range into a number, exactly while below `cap` and
/// saturating there.
fn accumulate_digits(s: &[u8], from: usize, to: usize, cap: u128) -> (r: (u128, bool, Ghost<nat>))
    requires
        from <= to <= s@.len(),
        all_digit_bytes(s@.subrange(from as int, to as int)),
        10 <= cap <= 10_000_000_000_000_000_000_000_000_000_000_000_000,
    ensures
        r.2@ == digits_val(s@.subrange(from as int, to as int)),
        if r.1 {
            r.2@ >= cap
        } else {
            r.0 == r.2@ && r.2@ < cap
        },
{
    let ghost whole = s@.subrange(from as int, to as int);
    let mut sat: u128 = 0;
    let mut huge: bool = false;
    let mut i: usize = from;
    while i < to
        invariant
            from <= i <= to <= s@.len(),
            all_digit_bytes(whole),
            whole == s@.subrange(from as int, to as int),
            10 <= cap <= 10_000_000_000_000_000_000_000_000_000_000_000_000,
            if huge {
                digits_val(s@.subrange(from as int, i as int)) >= cap
            } else {
                sat == digits_val(s@.subrange(from as int, i as int)) && sat < cap
            },
        decreases to - i,
    {
        let ghost pre = s@.subrange(from as int, i as int);
        let b = s[i];
        proof {
            assert(whole[i - from] == s@[i as int]);
            assert(is_digit_byte(b));
            assert(s@.subrange(from as int, i + 1) =~= pre.push(b));
            assert(pre.push(b).drop_last() =~= pre);
            assert(digits_val(pre.push(b)) == digits_val(pre) * 10 + (b - 0x30) as nat);
        }
        let d = (b - 0x30) as u128;
        if huge {
            proof {
                assert(digits_val(pre) * 10 >= cap * 10);
            }
        } else {
            let t = sat * 10 + d;
            if t >= cap {
                huge = true;
            } else {
                sat = t;
            }
        }
        i = i + 1;
    }
    (sat, huge, Ghost(digits_val(s@.subrange(from as int, to as int))))
}

/// Reads a mantissa: the indices where its integer digits end and its
/// fractional digits begin, or `None` when it does not conform.
fn parse_mantissa(s: &[u8]) -> (r: Option<(usize, usize)>)
    ensures
        match r {
            Some(pair) => {
                let parts = mantissa_split(s@);
                &&& valid_mantissa(s@)
                &&& pair.0 <= pair.1 <= s@.len()
                &&& pair.0 == parts.0.len()
                &&& parts.0 == s@.subrange(0, pair.0 as int)
                &&& parts.1 == s@.subrange(pair.1 as int, s@.len() as int)
                &&& all_digit_bytes(parts.0)
                &&& all_digit_bytes(parts.1)
            },
            None => !valid_mantissa(s@),
        },
{
    let n = s.len();
    let (dot, int_to): (Option<usize>, usize) = match find_dot(s) {
        Some(d) => (Some(d), d),
        None => (None, n),
    };
    let ghost int_digits = s@.subrange(0, int_to as int);
    let frac_from: usize = match dot {
        Some(d) => d + 1,
        None => n,
    };
    let ghost frac_digits = s@.subrange(frac_from as int, n as int);
    if !all_digits_in(s, 0, int_to) {
        proof {
            let j = choose|j: int|
                0 <= j < int_digits.len() && !is_digit_byte(#[trigger] int_digits[j]);
            assert(s@[j] == int_digits[j]);
            assert(s@[j] != DOT_BYTE);
            assert(!valid_mantissa(s@));
        }
        return None;
    }
    if !all_digits_in(s, frac_from, n) {
        proof {
            let j = choose|j: int|
                0 <= j < frac_digits.len() && !is_digit_byte(#[trigger] frac_digits[j]);
            let p = frac_from + j;
            assert(s@[p] == frac_digits[j]);
            if s@[p] == DOT_BYTE {
                let d = int_to as int;
                assert(s@[d] == DOT_BYTE && p != d);
                assert(!valid_mantissa(s@));
            } else {
                assert(!valid_mantissa(s@));
            }
        }
        return None;
    }
    let digit_count = int_to + (n - frac_from);
    if digit_count == 0 {
        proof {
            if valid_mantissa(s@) {
                let j = choose|j: int| 0 <= j < s@.len() && is_digit_byte(#[trigger] s@[j]);
                assert(s@.len() >= 1);
                assert(int_to == 0 && frac_from as int == s@.len());
                assert(dot is Some);
                assert(j == int_to as int);
                assert(s@[j] == DOT_BYTE);
                assert(false);
            }
        }
        return None;
    }
    proof {
        assert(valid_mantissa(s@)) by {
            assert(s@.len() >= 1);
            assert forall|i: int| 0 <= i < s@.len() implies is_digit_byte(#[trigger] s@[i])
                || s@[i] == DOT_BYTE by {
                if i < int_to as int {
                    assert(s@[i] == int_digits[i]);
                } else if i >= frac_from as int {
                    assert(s@[i] == frac_digits[i - frac_from]);
                }
            }
            assert forall|i: int, j: int|
                0 <= i < s@.len() && 0 <= j < s@.len() && #[trigger] s@[i] == DOT_BYTE
                    && #[trigger] s@[j] == DOT_BYTE implies i == j by {
                if i < int_to as int {
                    assert(s@[i] == int_digits[i]);
                    assert(false);
                }
                if i >= frac_from as int {
                    assert(s@[i] == frac_digits[i - frac_from]);
                    assert(false);
                }
                if j < int_to as int {
                    assert(s@[j] == int_digits[j]);
                    assert(false);
                }
                if j >= frac_from as int {
                    assert(s@[j] == frac_digits[j - frac_from]);
                    assert(false);
                }
            }
            assert(has_digit_byte(s@)) by {
                if int_to > 0 {
                    assert(s@[0] == int_digits[0]);
                    assert(is_digit_byte(s@[0]));
                } else {
                    assert((frac_from as int) < s@.len());
                    assert(s@[frac_from as int] == frac_digits[0]);
                    assert(is_digit_byte(s@[frac_from as int]));
                }
            }
        }
        let parts = mantissa_split(s@);
        assert(parts.0 =~= int_digits && parts.1 =~= frac_digits) by {
            match dot {
                Some(d) => {
                    assert(s@[d as int] == DOT_BYTE);
                    let i = choose|i: int| 0 <= i < s@.len() && s@[i] == DOT_BYTE;
                    assert(i == d as int);
                },
                None => {
                    assert forall|i: int| 0 <= i < s@.len() implies s@[i] != DOT_BYTE by {}
                    assert(parts.0 == s@ && parts.1 == Seq::<u8>::empty());
                    assert(frac_from as int == s@.len());
                },
            }
        }
    }
    Some((int_to, frac_from))
}

/// Reads an exponent part: its sign and its digits' value, exactly while
/// below `EXP_CAP` and saturating there; `None` when it does not conform.
fn parse_exp_part(s: &[u8]) -> (r: Option<(bool, u128, bool, Ghost<nat>)>)
    ensures
        match r {
            Some(q) => {
                &&& valid_exp_part(s@)
                &&& spec_exp_value(s@) == if q.0 {
                    -(q.3@ as int)
                } else {
                    q.3@ as int
                }
                &&& if q.2 {
                    q.3@ >= EXP_CAP
                } else {
                    q.1 == q.3@ && q.3@ < EXP_CAP
                }
            },
            None => !valid_exp_part(s@),
        },
{
    let n = s.len();
    let (eneg, start): (bool, usize) = if n > 0 && (s[0] == MINUS_BYTE || s[0] == PLUS_BYTE) {
        (s[0] == MINUS_BYTE, 1)
    } else {
        (false, 0)
    };
    let ghost ds = if s@.len() > 0 && (s@[0] == MINUS_BYTE || s@[0] == PLUS_BYTE) {
        s@.drop_first()
    } else {
        s@
    };
    proof {
        assert(ds =~= s@.subrange(start as int, n as int));
    }
    if n - start == 0 {
        return None;
    }
    if !all_digits_in(s, start, n) {
        return None;
    }
    let (sat, ehuge, full) = accumulate_digits(s, start, n, EXP_CAP);
    Some((eneg, sat, ehuge, full))
}

/// Scales an already-read integer part up by `shifts` decimal places,
/// saturating at `SAT_CAP`.
fn scale_up(sat0: u128, huge0: bool, full0: Ghost<nat>, shifts: i128) -> (r: (u128, bool, Ghost<
    nat,
>))
    requires
        shifts >= 0,
        if huge0 {
            full0@ >= SAT_CAP
        } else {
            sat0 == full0@ && full0@ < SAT_CAP
        },
    ensures
        r.2@ == full0@ * pow10(shifts as nat),
        if r.1 {
            r.2@ >= SAT_CAP
        } else {
            r.0 == r.2@ && r.2@ < SAT_CAP
        },
{
    let ghost target = full0@ * pow10(shifts as nat);
    proof {
        assert(pow10(0) == 1);
        assert(full0@ * pow10(0) == full0@);
    }
    if huge0 {
        proof {
            lemma_scale_huge(full0@, 0, shifts as nat);
        }
        return (sat0, true, Ghost(target));
    }
    let mut sat = sat0;
    let mut huge: bool = false;
    let mut k: i128 = 0;
    while k < shifts && !huge && sat != 0
        invariant
            0 <= k <= shifts,
            if huge {
                full0@ * pow10(k as nat) >= SAT_CAP
            } else {
                sat as nat == full0@ * pow10(k as nat) && sat < SAT_CAP
            },
        decreases shifts - k,
    {
        let ghost pk = pow10(k as nat);
        proof {
            assert(pow10((k + 1) as nat) == 10 * pk);
            assert(full0@ * (10 * pk) == (full0@ * pk) * 10) by (nonlinear_arith);
        }
        let t = sat * 10;
        if t >= SAT_CAP {
            huge = true;
        } else {
            sat = t;
        }
        k = k + 1;
    }
    proof {
        if huge {
            lemma_scale_huge(full0@, k as nat, shifts as nat);
        } else if sat == 0 {
            lemma_pow10_pos(k as nat);
            let pk = pow10(k as nat);
            assert(full0@ == 0) by (nonlinear_arith)
                requires
                    full0@ * pk == 0,
                    pk >= 1,
            ;
            assert(target == 0);
        } else {
            assert(k == shifts);
        }
    }
    (sat, huge, Ghost(target))
}

/// Builds the parsed number for a conforming mantissa and exponent.
fn scaled_number(
    m: &[u8],
    int_to: usize,
    frac_from: usize,
    neg: bool,
    eneg: bool,
    esat: u128,
    ehuge: bool,
    efull: Ghost<nat>,
) -> (r: DecNumber)
    requires
        int_to <= frac_from <= m@.len(),
        int_to == mantissa_split(m@).0.len(),
        mantissa_split(m@).0 == m@.subrange(0, int_to as int),
        mantissa_split(m@).1 == m@.subrange(frac_from as int, m@.len() as int),
        all_digit_bytes(mantissa_split(m@).0),
        all_digit_bytes(mantissa_split(m@).1),
        if ehuge {
            efull@ >= EXP_CAP
        } else {
            esat == efull@ && efull@ < EXP_CAP
        },
    ensures
        r.inv(),
        r.value() == spec_mantissa_value(
            neg,
            m@,
            if eneg {
                -(efull@ as int)
            } else {
                efull@ as int
            },
        ),
        r.neg == neg,
{
    let ghost parts = mantissa_split(m@);
    let ghost dd = parts.0 + parts.1;
    let ghost e: int = if eneg {
        -(efull@ as int)
    } else {
        efull@ as int
    };
    let ghost p: int = parts.0.len() + e;
    let mlen = m.len();
    let mut d: Vec<u8> = Vec::new();
    d.extend_from_slice(vstd::slice::slice_subrange(m, 0, int_to));
    d.extend_from_slice(vstd::slice::slice_subrange(m, frac_from, mlen));
    let dlen = d.len();
    proof {
        assert(d@ =~= dd);
        assert forall|i: int| 0 <= i < dd.len() implies is_digit_byte(#[trigger] dd[i]) by {
            if i < parts.0.len() {
                assert(dd[i] == parts.0[i]);
            } else {
                assert(dd[i] == parts.1[i - parts.0.len()]);
            }
        }
    }
    if ehuge && !eneg {
        // The point lands far past every digit: the value is the digits
        // shifted up by at least twenty places, or zero.
        let nz = any_nonzero_in(d.as_slice(), 0, dlen);
        proof {
            assert(d@.subrange(0, dlen as int) =~= dd);
            assert(p > dd.len() + 20);
            assert(spec_scaled_frac(dd, p) == false);
        }
        if nz {
            proof {
                lemma_digits_val_nonzero(dd);
                let shift = (p - dd.len()) as nat;
                lemma_pow10_cap();
                lemma_pow10_mono(20, shift);
                let v = digits_val(dd);
                let ps = pow10(shift);
                assert(v * ps >= ps) by (nonlinear_arith)
                    requires
                        v >= 1,
                        ps >= 0,
                ;
                assert(spec_scaled_int(dd, p) >= SAT_CAP);
            }
            DecNumber {
                neg,
                int_sat: 0,
                huge: true,
                frac_nonzero: false,
                int_full: Ghost(spec_scaled_int(dd, p)),
            }
        } else {
            proof {
                assert forall|i: int| 0 <= i < dd.len() implies #[trigger] dd[i] == 0x30 by {}
                lemma_digits_val_zero(dd);
                assert(spec_scaled_int(dd, p) == 0);
            }
            DecNumber {
                neg,
                int_sat: 0,
                huge: false,
                frac_nonzero: false,
                int_full: Ghost(spec_scaled_int(dd, p)),
            }
        }
    } else if ehuge && eneg {
        // The point lands far before every digit: the integer part is
        // zero, and the digits decide whether anything follows the point.
        let frac = any_nonzero_in(d.as_slice(), 0, dlen);
        proof {
            assert(d@.subrange(0, dlen as int) =~= dd);
            assert(p < 0);
            assert(spec_scaled_int(dd, p) == 0);
            assert(spec_scaled_frac(dd, p) == frac_nonzero_bytes(dd));
        }
        DecNumber { neg, int_sat: 0, huge: false, frac_nonzero: frac, int_full: Ghost(0nat) }
    } else {
        let e_i: i128 = if eneg {
            -(esat as i128)
        } else {
            esat as i128
        };
        let p_i: i128 = int_to as i128 + e_i;
        proof {
            assert(p_i == p);
        }
        if p_i <= 0 {
            let frac = any_nonzero_in(d.as_slice(), 0, dlen);
            proof {
                assert(d@.subrange(0, dlen as int) =~= dd);
                assert(spec_scaled_int(dd, p) == 0);
            }
            DecNumber { neg, int_sat: 0, huge: false, frac_nonzero: frac, int_full: Ghost(0nat) }
        } else if p_i < dlen as i128 {
            let pu = p_i as usize;
            proof {
                assert(d@.subrange(0, pu as int) =~= dd.take(p));
                assert(d@.subrange(pu as int, dlen as int) =~= dd.skip(p));
                assert(all_digit_bytes(d@.subrange(0, pu as int)));
            }
            let (sat, huge, full) = accumulate_digits(d.as_slice(), 0, pu, SAT_CAP);
            let frac = any_nonzero_in(d.as_slice(), pu, dlen);
            proof {
                assert(spec_scaled_int(dd, p) == digits_val(dd.take(p)));
                assert(spec_scaled_frac(dd, p) == frac_nonzero_bytes(dd.skip(p)));
            }
            DecNumber { neg, int_sat: sat, huge, frac_nonzero: frac, int_full: full }
        } else {
            proof {
                assert(d@.subrange(0, dlen as int) =~= dd);
            }
            let (sat0, huge0, full0) = accumulate_digits(d.as_slice(), 0, dlen, SAT_CAP);
            let shifts: i128 = p_i - dlen as i128;
            let (sat, huge, full) = scale_up(sat0, huge0, full0, shifts);
            proof {
                if p == dd.len() {
                    assert(dd.take(p) =~= dd);
                    assert(pow10(0) == 1);
                    assert(spec_scaled_int(dd, p) == digits_val(dd));
                    assert(full@ == digits_val(dd) * 1);
                } else {
                    assert(spec_scaled_int(dd, p) == digits_val(dd) * pow10((p - dd.len()) as nat));
                }
                assert(full@ == spec_scaled_int(dd, p));
                assert(spec_scaled_frac(dd, p) == false);
            }
            DecNumber { neg, int_sat: sat, huge, frac_nonzero: false, int_full: full }
        }
    }
}

/// Parses a numeric value under the grammar: an optional sign, a mantissa
/// of digits with at most one decimal point and at least one digit, and an
/// optional decimal exponent. Yields exactly what the grammar accepts.
pub fn parse_decimal(bytes: &[u8]) -> (r: Option<DecNumber>)
    ensures
        match spec_parse_decimal(bytes@) {
            Some(v) => r is Some && r->Some_0.inv() && r->Some_0.value() == v,
            None => r is None,
        },
{
    let n = bytes.len();
    if n == 0 {
        return None;
    }
    let first = bytes[0];
    let neg = first == MINUS_BYTE;
    let start: usize = if first == MINUS_BYTE || first == PLUS_BYTE {
        1
    } else {
        0
    };
    let ghost rest = if bytes@[0] == MINUS_BYTE || bytes@[0] == PLUS_BYTE {
        bytes@.drop_first()
    } else {
        bytes@
    };
    proof {
        assert(first == bytes@[0]);
        assert(rest =~= bytes@.subrange(start as int, n as int));
    }
    let rest_slice = vstd::slice::slice_subrange(bytes, start, n);
    let rest_len = rest_slice.len();
    match find_marker(rest_slice) {
        Some(em) => {
            let m_slice = vstd::slice::slice_subrange(rest_slice, 0, em);
            let ep_slice = vstd::slice::slice_subrange(rest_slice, em + 1, rest_len);
            proof {
                assert(m_slice@ =~= rest.take(em as int));
                assert(ep_slice@ =~= rest.skip(em + 1));
            }
            let mant = parse_mantissa(m_slice);
            let expp = parse_exp_part(ep_slice);
            proof {
                lemma_first_marker_is(rest, em as int);
                assert(first_marker(rest) == em as int);
            }
            match (mant, expp) {
                (Some(pair), Some(q)) => {
                    let r = scaled_number(
                        m_slice,
                        pair.0,
                        pair.1,
                        neg,
                        q.0,
                        q.1,
                        q.2,
                        q.3,
                    );
                    proof {
                        assert(spec_exp_value(ep_slice@) == if q.0 {
                            -(q.3@ as int)
                        } else {
                            q.3@ as int
                        });
                        assert(r.value() == spec_mantissa_value(
                            neg,
                            rest.take(em as int),
                            spec_exp_value(rest.skip(em + 1)),
                        ));
                        assert(valid_mantissa(rest.take(em as int)));
                        assert(valid_exp_part(rest.skip(em + 1)));
                        assert(spec_parse_decimal(bytes@) == Some(spec_mantissa_value(
                            neg,
                            rest.take(em as int),
                            spec_exp_value(rest.skip(em + 1)),
                        )));
                    }
                    Some(r)
                },
                _ => {
                    proof {
                        assert(!(valid_mantissa(rest.take(em as int)) && valid_exp_part(
                            rest.skip(em + 1),
                        )));
                        assert(spec_parse_decimal(bytes@) is None);
                    }
                    None
                },
            }
        },
        None => {
            proof {
                assert(rest_slice@ == rest);
                lemma_first_marker_is(rest, rest.len() as int);
                assert(first_marker(rest) == rest.len());
            }
            match parse_mantissa(rest_slice) {
                Some(pair) => {
                    let r = scaled_number(
                        rest_slice,
                        pair.0,
                        pair.1,
                        neg,
                        false,
                        0,
                        false,
                        Ghost(0nat),
                    );
                    proof {
                        assert(spec_parse_decimal(bytes@) == Some(spec_mantissa_value(
                            neg,
                            rest,
                            0,
                        )));
                        assert(r.value() == spec_mantissa_value(neg, rest, 0));
                    }
                    Some(r)
                },
                None => {
                    proof {
                        assert(spec_parse_decimal(bytes@) is None);
                    }
                    None
                },
            }
        },
    }
}

/// The value is strictly below the integer `k`. With the fractional part
/// in `[0, 1)`, only the three recorded facts matter.
pub open spec fn spec_dec_lt_int(d: DecValue, k: int) -> bool {
    if !d.neg {
        (d.int_part as int) < k
    } else {
        (d.int_part as int) > -k || ((d.int_part as int) == -k && d.frac_nonzero)
    }
}

/// The value is strictly above the integer `k`.
pub open spec fn spec_dec_gt_int(d: DecValue, k: int) -> bool {
    if !d.neg {
        (d.int_part as int) > k || ((d.int_part as int) == k && d.frac_nonzero)
    } else {
        (d.int_part as int) < -k
    }
}

/// Whether the value lies strictly below an `i64` bound.
pub fn dec_below(d: &DecNumber, k: i64) -> (r: bool)
    requires
        d.inv(),
    ensures
        r == spec_dec_lt_int(d.value(), k as int),
{
    if !d.neg {
        if k <= 0 {
            false
        } else if d.huge {
            false
        } else {
            d.int_sat < k as u128
        }
    } else {
        let nk: i128 = -(k as i128);
        if nk < 0 {
            true
        } else if d.huge {
            true
        } else {
            let ip = d.int_sat as i128;
            ip > nk || (ip == nk && d.frac_nonzero)
        }
    }
}

/// Whether the value lies strictly above an `i64` bound.
pub fn dec_above(d: &DecNumber, k: i64) -> (r: bool)
    requires
        d.inv(),
    ensures
        r == spec_dec_gt_int(d.value(), k as int),
{
    if !d.neg {
        if k < 0 {
            true
        } else if d.huge {
            true
        } else {
            let kb = k as u128;
            d.int_sat > kb || (d.int_sat == kb && d.frac_nonzero)
        }
    } else {
        let nk: i128 = -(k as i128);
        if nk <= 0 {
            false
        } else if d.huge {
            false
        } else {
            (d.int_sat as i128) < nk
        }
    }
}

} // verus!
