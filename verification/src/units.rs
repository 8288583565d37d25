//! Strongly-dimensioned physical quantities as integer fixed-point values.
//!
//! Lengths are held in nanometers, powers in milliwatts, velocities in
//! nanometers per minute and angular velocities in revolutions per minute.
//! Every value carries its unit as a distinct type, with explicit, checked
//! conversions; nothing in the rest of the crate handles a bare scalar.

use vstd::prelude::*;

verus! {

/// Nanometers per millimeter: the fixed-point scale of `Length`.
pub const NM_PER_MM: i64 = 1_000_000;

/// Largest magnitude, in nanometers, that a drawing coordinate may have.
pub const MAX_COORD_NM: i64 = 1_000_000_000_000;

/// A length, held exactly as a whole number of nanometers.
#[derive(Clone, Copy, PartialEq, Eq, Structural, Debug)]
pub struct Length {
    pub nm: i64,
}

/// A power, held exactly as a whole number of milliwatts.
#[derive(Clone, Copy, PartialEq, Eq, Structural, Debug)]
pub struct Power {
    pub milliwatts: i64,
}

/// A velocity, held exactly as a whole number of nanometers per minute.
#[derive(Clone, Copy, PartialEq, Eq, Structural, Debug)]
pub struct Velocity {
    pub nm_per_min: i64,
}

/// An angular velocity, held exactly as a whole number of revolutions per minute.
#[derive(Clone, Copy, PartialEq, Eq, Structural, Debug)]
pub struct AngularVelocity {
    pub rpm: i64,
}

impl Length {
    /// Builds a length from a whole number of nanometers.
    pub fn from_nanometers(nm: i64) -> (r: Length)
        ensures
            r.nm == nm,
    {
        Length { nm }
    }

    /// Builds a length from a whole number of millimeters.
    pub fn from_millimeters(mm: i64) -> (r: Length)
        requires
            -9_000_000_000_000 <= mm <= 9_000_000_000_000,
        ensures
            r.nm == mm * 1_000_000,
    {
        Length { nm: mm * NM_PER_MM }
    }
}

/// 10 raised to `n`.
pub open spec fn pow10(n: nat) -> int
    decreases n,
{
    if n == 0 {
        1
    } else {
        10 * pow10((n - 1) as nat)
    }
}

/// Whether `b` is an ASCII decimal digit.
pub open spec fn is_digit(b: u8) -> bool {
    48 <= b <= 57
}

/// Whether every byte of `s` is an ASCII decimal digit.
pub open spec fn all_digits(s: Seq<u8>) -> bool {
    forall|i: int| 0 <= i < s.len() ==> is_digit(#[trigger] s[i])
}

/// The integer denoted by a sequence of ASCII digits, most significant first.
pub open spec fn digits_val(s: Seq<u8>) -> int
    decreases s.len(),
{
    if s.len() == 0 {
        0
    } else {
        digits_val(s.drop_last()) * 10 + (s.last() - 48)
    }
}

/// `pow10` of a sum is the product of the `pow10`s.
pub proof fn lemma_pow10_adds(a: nat, b: nat)
    ensures
        pow10(a + b) == pow10(a) * pow10(b),
    decreases b,
{
    if b == 0 {
        assert(pow10(a + 0) == pow10(a) * 1);
    } else {
        lemma_pow10_adds(a, (b - 1) as nat);
        assert(pow10(a + b) == 10 * pow10((a + b - 1) as nat));
        assert(pow10(a) * pow10(b) == pow10(a) * (10 * pow10((b - 1) as nat)));
        assert(pow10(a) * (10 * pow10((b - 1) as nat)) == 10 * (pow10(a) * pow10(
            (b - 1) as nat,
        ))) by (nonlinear_arith);
    }
}

/// `pow10` is at least 1.
pub proof fn lemma_pow10_pos(n: nat)
    ensures
        pow10(n) >= 1,
    decreases n,
{
    if n > 0 {
        lemma_pow10_pos((n - 1) as nat);
    }
}

/// `pow10` grows with its argument.
pub proof fn lemma_pow10_mono(a: nat, b: nat)
    requires
        a <= b,
    ensures
        pow10(a) <= pow10(b),
    decreases b,
{
    if a < b {
        lemma_pow10_mono(a, (b - 1) as nat);
        lemma_pow10_pos((b - 1) as nat);
    }
}

/// The concrete value of `pow10(18)`, the largest power this crate scales by.
pub proof fn lemma_pow10_18()
    ensures
        pow10(18) == 1_000_000_000_000_000_000,
{
    reveal_with_fuel(pow10, 19);
}

/// A digit string's value is bounded by `pow10` of its length.
pub proof fn lemma_digits_val_bound(s: Seq<u8>)
    requires
        all_digits(s),
    ensures
        0 <= digits_val(s) < pow10(s.len()),
    decreases s.len(),
{
    if s.len() > 0 {
        lemma_digits_val_bound(s.drop_last());
        assert(is_digit(s[s.len() - 1]));
    }
}

/// The value of a digit string extended by one digit on the right.
pub proof fn lemma_digits_val_push(s: Seq<u8>, d: u8)
    ensures
        digits_val(s.push(d)) == digits_val(s) * 10 + (d - 48),
{
    assert(s.push(d).drop_last() =~= s);
    assert(s.push(d).last() == d);
}

/// Parses a non-empty run of at most 18 ASCII digits into its value.
///
/// Returns `None` exactly when the slice is empty, longer than 18 bytes, or
/// holds a non-digit byte; 18 digits always fit in an `i64`.
pub fn parse_digits(s: &[u8]) -> (r: Option<i64>)
    ensures
        (1 <= s@.len() <= 18 && all_digits(s@)) ==> r == Some(digits_val(s@) as i64),
        !(1 <= s@.len() <= 18 && all_digits(s@)) ==> r is None,
        r is Some ==> 0 <= r->0 < pow10(s@.len()) && all_digits(s@) && 1 <= s@.len() <= 18,
{
    if s.len() < 1 || s.len() > 18 {
        return None;
    }
    let mut acc: i64 = 0;
    let mut i: usize = 0;
    proof {
        assert(s@.subrange(0, 0) =~= Seq::<u8>::empty());
        lemma_pow10_mono(0, 18);
        lemma_pow10_18();
    }
    while i < s.len()
        invariant
            0 <= i <= s@.len() <= 18,
            all_digits(s@.subrange(0, i as int)),
            acc == digits_val(s@.subrange(0, i as int)),
            0 <= acc < pow10(i as nat),
            pow10(i as nat) <= pow10(18) == 1_000_000_000_000_000_000,
        decreases s@.len() - i,
    {
        let b = s[i];
        if b < 48 || b > 57 {
            return None;
        }
        proof {
            lemma_pow10_mono((i + 1) as nat, 18);
            lemma_digits_val_push(s@.subrange(0, i as int), b);
            assert(s@.subrange(0, i + 1) =~= s@.subrange(0, i as int).push(b));
            lemma_digits_val_bound(s@.subrange(0, i + 1));
        }
        acc = acc * 10 + ((b - 48) as i64);
        i = i + 1;
    }
    proof {
        assert(s@.subrange(0, s@.len() as int) =~= s@);
    }
    Some(acc)
}

/// Whether no byte of `s` is an ASCII dot.
pub open spec fn dot_free(s: Seq<u8>) -> bool {
    forall|i: int| 0 <= i < s.len() ==> #[trigger] s[i] != 46
}

/// The value, scaled by `pow10(scale)`, of a decimal split into `whole` and
/// `frac` digit strings, when the split is acceptable for that scale.
pub open spec fn split_ok(whole: Seq<u8>, frac: Seq<u8>, scale: nat) -> bool {
    &&& 1 <= whole.len()
    &&& whole.len() + scale <= 18
    &&& 1 <= frac.len() <= scale
    &&& all_digits(whole)
    &&& all_digits(frac)
}

/// The scaled integer a whole/fraction digit split denotes.
pub open spec fn split_val(whole: Seq<u8>, frac: Seq<u8>, scale: nat) -> int {
    (digits_val(whole) * pow10(frac.len()) + digits_val(frac)) * pow10((scale - frac.len()) as nat)
}

/// An acceptable split's value is bounded by `pow10(whole.len() + scale)`.
pub proof fn lemma_split_val_bound(whole: Seq<u8>, frac: Seq<u8>, scale: nat)
    requires
        split_ok(whole, frac, scale),
    ensures
        0 <= split_val(whole, frac, scale) < pow10((whole.len() + scale) as nat),
{
    lemma_digits_val_bound(whole);
    lemma_digits_val_bound(frac);
    lemma_pow10_pos(frac.len());
    lemma_pow10_pos((scale - frac.len()) as nat);
    let w = digits_val(whole);
    let f = digits_val(frac);
    let pf = pow10(frac.len());
    let ps = pow10((scale - frac.len()) as nat);
    assert(w * pf + f < pow10(whole.len()) * pf) by (nonlinear_arith)
        requires
            w <= pow10(whole.len()) - 1,
            0 <= f < pf,
            pf >= 1,
    ;
    lemma_pow10_adds(whole.len(), frac.len());
    assert((w * pf + f) * ps < pow10((whole.len() + frac.len()) as nat) * ps) by (nonlinear_arith)
        requires
            0 <= w * pf + f < pow10((whole.len() + frac.len()) as nat),
            ps >= 1,
    ;
    lemma_pow10_adds((whole.len() + frac.len()) as nat, (scale - frac.len()) as nat);
    assert(pow10((whole.len() + frac.len()) as nat) * ps == pow10((whole.len() + scale) as nat));
    assert((w * pf + f) * ps >= 0) by (nonlinear_arith)
        requires
            0 <= w * pf + f,
            ps >= 1,
    ;
}

/// Parses an unsigned decimal (digits with an optional single dot) into its
/// value scaled by `pow10(scale)`: the exact value of `"12.5"` at scale 6 is
/// `12_500_000`.
///
/// The ensures pin the result for every input: where the text is dot-free it
/// is a plain digit run, and where a first dot stands at `p` the parts before
/// and after it are the whole and fractional digit runs, the fraction no
/// longer than `scale` digits.
pub fn parse_unsigned_scaled(s: &[u8], scale: u32) -> (r: Option<i64>)
    requires
        scale <= 9,
    ensures
        dot_free(s@) ==> r == (if 1 <= s@.len() && s@.len() + scale <= 18 && all_digits(s@) {
            Some((digits_val(s@) * pow10(scale as nat)) as i64)
        } else {
            None::<i64>
        }),
        forall|p: int|
            (0 <= p < s@.len() && s@[p] == 46 && dot_free(s@.subrange(0, p))) ==> r == (if split_ok(
                s@.subrange(0, p),
                s@.subrange(p + 1, s@.len() as int),
                scale as nat,
            ) {
                Some(
                    split_val(
                        s@.subrange(0, p),
                        s@.subrange(p + 1, s@.len() as int),
                        scale as nat,
                    ) as i64,
                )
            } else {
                None::<i64>
            }),
        r is Some ==> 0 <= r->0 < pow10(18),
{
    // Find the first dot, if any.
    let mut dot: Option<usize> = None;
    let mut i: usize = 0;
    while i < s.len()
        invariant
            0 <= i <= s@.len(),
            dot is None ==> dot_free(s@.subrange(0, i as int)),
            dot is Some ==> {
                let p = dot->0 as int;
                &&& 0 <= p < s@.len()
                &&& s@[p] == 46
                &&& dot_free(s@.subrange(0, p))
            },
        decreases s@.len() - i,
    {
        if dot.is_none() && s[i] == 46 {
            dot = Some(i);
        }
        i = i + 1;
    }
    match dot {
        None => {
            proof {
                assert(s@.subrange(0, s@.len() as int) =~= s@);
            }
            let whole = parse_digits(s);
            match whole {
                None => None,
                Some(w) => {
                    if s.len() + (scale as usize) > 18 {
                        return None;
                    }
                    let m = pow10_i64(scale);
                    proof {
                        lemma_pow10_18();
                        lemma_digits_val_bound(s@);
                        lemma_pow10_adds(s@.len(), scale as nat);
                        lemma_pow10_mono(s@.len(), (s@.len() + scale) as nat);
                        lemma_pow10_mono((s@.len() + scale) as nat, 18);
                        assert(w == digits_val(s@));
                        assert(w * m < pow10(s@.len()) * m) by (nonlinear_arith)
                            requires
                                w < pow10(s@.len()),
                                m >= 1,
                        ;
                        assert(w * m >= 0) by (nonlinear_arith)
                            requires
                                w >= 0,
                                m >= 1,
                        ;
                        assert(pow10(s@.len()) * m == pow10((s@.len() + scale) as nat));
                    }
                    Some(w * m)
                },
            }
        },
        Some(p) => {
            let ghost wseq = s@.subrange(0, p as int);
            let ghost fseq = s@.subrange(p as int + 1, s@.len() as int);
            proof {
                // The first dot is unique, so the quantified clause speaks of p alone.
                assert forall|q: int|
                    0 <= q < s@.len() && s@[q] == 46 && dot_free(
                        s@.subrange(0, q),
                    ) implies q == p as int by {
                    if q < p as int {
                        assert(s@.subrange(0, p as int)[q] == 46);
                    }
                    if q > p as int {
                        assert(s@.subrange(0, q)[p as int] == 46);
                    }
                }
            }
            let whole = parse_digits(slice_range(s, 0, p));
            let frac_len = s.len() - p - 1;
            if frac_len > scale as usize || frac_len == 0 {
                return None;
            }
            let frac = parse_digits(slice_range(s, p + 1, s.len()));
            match (whole, frac) {
                (Some(w), Some(f)) => {
                    if p + (scale as usize) > 18 {
                        return None;
                    }
                    let pf = pow10_i64(frac_len as u32);
                    let ps = pow10_i64(scale - frac_len as u32);
                    proof {
                        lemma_pow10_18();
                        lemma_split_val_bound(wseq, fseq, scale as nat);
                        lemma_digits_val_bound(wseq);
                        lemma_digits_val_bound(fseq);
                        lemma_pow10_mono(wseq.len(), 18);
                        lemma_pow10_mono(fseq.len(), 18);
                        lemma_pow10_mono((wseq.len() + scale) as nat, 18);
                        lemma_pow10_adds(wseq.len(), fseq.len());
                        lemma_pow10_mono((wseq.len() + fseq.len()) as nat, 18);
                        assert(w == digits_val(wseq));
                        assert(f == digits_val(fseq));
                        assert(pf == pow10(fseq.len()));
                        assert(ps == pow10((scale - fseq.len()) as nat));
                        assert(w * pf + f < pow10(wseq.len()) * pf) by (nonlinear_arith)
                            requires
                                0 <= w <= pow10(wseq.len()) - 1,
                                0 <= f < pf,
                                pf >= 1,
                        ;
                        assert(w * pf >= 0) by (nonlinear_arith)
                            requires
                                w >= 0,
                                pf >= 1,
                        ;
                        assert(pow10(wseq.len()) * pf == pow10((wseq.len() + fseq.len()) as nat));
                    }
                    let base = w * pf + f;
                    proof {
                        assert(base == digits_val(wseq) * pow10(fseq.len()) + digits_val(fseq));
                        assert(base * ps == split_val(wseq, fseq, scale as nat));
                    }
                    Some(base * ps)
                },
                _ => None,
            }
        },
    }
}

/// Parses a signed decimal: an optional leading minus sign followed by an
/// unsigned decimal, scaled by `pow10(scale)`.
///
/// The ensures mirror `parse_unsigned_scaled` on the part after the sign,
/// negated when the sign is present.
pub fn parse_scaled(s: &[u8], scale: u32) -> (r: Option<i64>)
    requires
        scale <= 9,
    ensures
        s@.len() == 0 ==> r is None,
        (s@.len() > 0 && s@[0] != 45 && dot_free(s@)) ==> r == (if 1 <= s@.len() && s@.len()
            + scale <= 18 && all_digits(s@) {
            Some((digits_val(s@) * pow10(scale as nat)) as i64)
        } else {
            None::<i64>
        }),
        (s@.len() > 0 && s@[0] != 45) ==> forall|p: int|
            (0 <= p < s@.len() && s@[p] == 46 && dot_free(s@.subrange(0, p))) ==> r == (if split_ok(
                s@.subrange(0, p),
                s@.subrange(p + 1, s@.len() as int),
                scale as nat,
            ) {
                Some(
                    split_val(
                        s@.subrange(0, p),
                        s@.subrange(p + 1, s@.len() as int),
                        scale as nat,
                    ) as i64,
                )
            } else {
                None::<i64>
            }),
        (s@.len() > 0 && s@[0] == 45 && dot_free(s@.subrange(1, s@.len() as int))) ==> r == (if 1
            <= s@.len() - 1 && s@.len() - 1 + scale <= 18 && all_digits(
            s@.subrange(1, s@.len() as int),
        ) {
            Some((-digits_val(s@.subrange(1, s@.len() as int)) * pow10(scale as nat)) as i64)
        } else {
            None::<i64>
        }),
        (s@.len() > 0 && s@[0] == 45) ==> forall|p: int|
            (0 <= p < s@.len() - 1 && #[trigger] s@.subrange(1, s@.len() as int)[p] == 46
                && dot_free(s@.subrange(1, s@.len() as int).subrange(0, p))) ==> r == (if split_ok(
                s@.subrange(1, s@.len() as int).subrange(0, p),
                s@.subrange(1, s@.len() as int).subrange(p + 1, s@.len() - 1),
                scale as nat,
            ) {
                Some(
                    (-split_val(
                        s@.subrange(1, s@.len() as int).subrange(0, p),
                        s@.subrange(1, s@.len() as int).subrange(p + 1, s@.len() - 1),
                        scale as nat,
                    )) as i64,
                )
            } else {
                None::<i64>
            }),
        r is Some ==> -pow10(18) < r->0 < pow10(18),
{
    if s.len() == 0 {
        return None;
    }
    if s[0] == 45 {
        let body = slice_range(s, 1, s.len());
        let inner = parse_unsigned_scaled(body, scale);
        proof {
            lemma_pow10_18();
            let bseq = s@.subrange(1, s@.len() as int);
            if dot_free(bseq) && 1 <= bseq.len() && bseq.len() + scale <= 18 && all_digits(bseq) {
                lemma_digits_val_bound(bseq);
                lemma_pow10_pos(scale as nat);
                lemma_pow10_adds(bseq.len(), scale as nat);
                lemma_pow10_mono((bseq.len() + scale) as nat, 18);
                assert(0 <= digits_val(bseq) * pow10(scale as nat) < pow10(bseq.len()) * pow10(
                    scale as nat,
                )) by (nonlinear_arith)
                    requires
                        0 <= digits_val(bseq) < pow10(bseq.len()),
                        pow10(scale as nat) >= 1,
                ;
                assert((-digits_val(bseq)) * pow10(scale as nat) == -(digits_val(bseq) * pow10(
                    scale as nat,
                ))) by (nonlinear_arith);
            }
            assert forall|p: int|
                0 <= p < bseq.len() && #[trigger] bseq[p] == 46 && dot_free(
                    bseq.subrange(0, p),
                ) && split_ok(
                bseq.subrange(0, p),
                bseq.subrange(p + 1, bseq.len() as int),
                scale as nat,
            ) implies 0 <= split_val(
                bseq.subrange(0, p),
                bseq.subrange(p + 1, bseq.len() as int),
                scale as nat,
            ) < pow10(18) by {
                lemma_split_val_bound(
                    bseq.subrange(0, p),
                    bseq.subrange(p + 1, bseq.len() as int),
                    scale as nat,
                );
                lemma_pow10_mono((bseq.subrange(0, p).len() + scale) as nat, 18);
            }
        }
        match inner {
            Some(v) => Some(-v),
            None => None,
        }
    } else {
        parse_unsigned_scaled(s, scale)
    }
}

/// 10 raised to `n`, as an `i64`; `n` is at most 18.
pub fn pow10_i64(n: u32) -> (r: i64)
    requires
        n <= 18,
    ensures
        r == pow10(n as nat),
        r >= 1,
{
    let mut r: i64 = 1;
    let mut k: u32 = 0;
    proof {
        lemma_pow10_mono(0, 18);
        lemma_pow10_18();
    }
    while k < n
        invariant
            0 <= k <= n <= 18,
            r == pow10(k as nat),
            1 <= r <= pow10(18) == 1_000_000_000_000_000_000,
        decreases n - k,
    {
        proof {
            lemma_pow10_mono((k + 1) as nat, 18);
        }
        r = r * 10;
        k = k + 1;
    }
    r
}

/// Converts a raw drawing coordinate into nanometers, given the scale of one
/// coordinate unit in nanometers (from the drawing's unit/format header).
///
/// Returns `None` exactly when the converted value falls outside the
/// supported coordinate range.
pub fn coordinate_to_nanometers(raw: i64, unit_scale: i64) -> (r: Option<Length>)
    requires
        1 <= unit_scale <= 1_000_000_000,
    ensures
        -MAX_COORD_NM <= raw * unit_scale <= MAX_COORD_NM ==> r == Some(
            Length { nm: (raw * unit_scale) as i64 },
        ),
        !(-MAX_COORD_NM <= raw * unit_scale <= MAX_COORD_NM) ==> r is None,
{
    proof {
        assert(-9_223_372_036_854_775_808_000_000_000 <= raw * unit_scale
            <= 9_223_372_036_854_775_807_000_000_000) by (nonlinear_arith)
            requires
                -9_223_372_036_854_775_808 <= raw <= 9_223_372_036_854_775_807,
                1 <= unit_scale <= 1_000_000_000,
        ;
    }
    let wide: i128 = (raw as i128) * (unit_scale as i128);
    if wide < -(MAX_COORD_NM as i128) || wide > MAX_COORD_NM as i128 {
        None
    } else {
        Some(Length { nm: wide as i64 })
    }
}

/// Converts a length back to a raw drawing coordinate at the given unit
/// scale; the length must be a whole multiple of the scale.
pub fn nanometers_to_coordinate(l: Length, unit_scale: i64) -> (r: i64)
    requires
        1 <= unit_scale <= 1_000_000_000,
        -MAX_COORD_NM <= l.nm <= MAX_COORD_NM,
        exists|raw: int| l.nm == #[trigger] (raw * unit_scale),
    ensures
        r * unit_scale == l.nm,
{
    let ghost raw = choose|raw: int| l.nm == #[trigger] (raw * unit_scale);
    proof {
        vstd::arithmetic::div_mod::lemma_div_multiples_vanish(raw, unit_scale as int);
        vstd::arithmetic::div_mod::lemma_div_multiples_vanish(-raw, unit_scale as int);
        assert(unit_scale * raw == raw * unit_scale) by (nonlinear_arith);
        assert(unit_scale * -raw == -(raw * unit_scale)) by (nonlinear_arith);
        assert(-1_000_000_000_000 <= raw <= 1_000_000_000_000) by (nonlinear_arith)
            requires
                -1_000_000_000_000 <= raw * unit_scale <= 1_000_000_000_000,
                1 <= unit_scale,
        ;
    }
    if l.nm >= 0 {
        let q = l.nm / unit_scale;
        proof {
            assert(q == raw);
        }
        q
    } else {
        let q = (-l.nm) / unit_scale;
        proof {
            assert(q == -raw);
        }
        -q
    }
}

/// Round trip of the unit system: converting a drawing coordinate into
/// nanometers and re-emitting it at the same unit scale reproduces the
/// original coordinate exactly.
pub proof fn lemma_coordinate_round_trip(raw: int, unit_scale: int)
    requires
        1 <= unit_scale,
    ensures
        (raw * unit_scale) / unit_scale == raw,
{
    vstd::arithmetic::div_mod::lemma_div_multiples_vanish(raw, unit_scale);
    assert(unit_scale * raw == raw * unit_scale) by (nonlinear_arith);
}

/// A subslice `s[from..to]`, with its view pinned to the matching subrange.
pub fn slice_range(s: &[u8], from: usize, to: usize) -> (r: &[u8])
    requires
        0 <= from <= to <= s@.len(),
    ensures
        r@ == s@.subrange(from as int, to as int),
{
    &s[from..to]
}

} // verus!
