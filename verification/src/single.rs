//! Decimal numbers rounded to single precision (24 significant bits, ties to even), in integer
//! arithmetic.
use vstd::arithmetic::div_mod::*;
use vstd::arithmetic::power::*;
use vstd::arithmetic::power2::*;
use vstd::prelude::*;

use crate::text;

verus! {

/// The integer nearest to `a / b`, the even one of two equally near.
pub open spec fn nearest(a: nat, b: nat) -> nat {
    let q = a / b;
    let r = a % b;
    if 2 * r < b {
        q
    } else if 2 * r > b {
        q + 1
    } else {
        q + q % 2
    }
}

/// The exponent of the leading bit of `w`; -1 for 0.
pub open spec fn exponent(w: nat) -> int
    decreases w,
{
    if w == 0 {
        -1
    } else {
        exponent(w / 2) + 1
    }
}

/// The whole part of the single-precision number nearest to `n / d`.
pub open spec fn single_whole(n: nat, d: nat) -> nat {
    let e = exponent(n / d);
    if e < 23 {
        let s = pow2((23 - e) as nat);
        nearest(n * s, d) / s
    } else {
        let t = pow2((e - 23) as nat);
        nearest(n, d * t) * t
    }
}

/// A decimal literal: digits, then at most one point with digits behind it.
pub open spec fn is_decimal(s: Seq<char>) -> bool {
    match text::find(s, seq!['.']) {
        Some(i) => 0 < i < s.len() - 1 && text::all_digits(s.take(i)) && text::all_digits(
            s.skip(i + 1),
        ),
        None => s.len() > 0 && text::all_digits(s),
    }
}

/// The digits of a decimal literal before the point.
pub open spec fn whole_digits(s: Seq<char>) -> Seq<char> {
    match text::find(s, seq!['.']) {
        Some(i) => s.take(i),
        None => s,
    }
}

/// The digits of a decimal literal behind the point.
pub open spec fn fraction_digits(s: Seq<char>) -> Seq<char> {
    match text::find(s, seq!['.']) {
        Some(i) => s.skip(i + 1),
        None => seq![],
    }
}

/// The whole part of a decimal literal once rounded to single precision, at most `u32::MAX`.
pub open spec fn decimal_whole(s: Seq<char>) -> u32 {
    let frac = fraction_digits(s);
    let n = text::value_of(whole_digits(s) + frac);
    let r = single_whole(n, pow(10, frac.len()) as nat);
    if r > u32::MAX {
        u32::MAX
    } else {
        r as u32
    }
}

// ── Computing it ──

/// Ten to the power 25: the scale at which fractions are held.
const SCALE: u128 = 10_000_000_000_000_000_000_000_000;

/// Five to the power 25.
const FIVES: u128 = 298_023_223_876_953_125;

/// Two to the power `k`.
fn two_to(k: u32) -> (r: u128)
    requires
        k <= 32,
    ensures
        r == pow2(k as nat),
        r <= 4_294_967_296,
{
    let mut r: u128 = 1;
    let mut i: u32 = 0;
    proof {
        lemma2_to64();
    }
    while i < k
        invariant
            i <= k <= 32,
            r == pow2(i as nat),
            r <= pow2(32),
            pow2(32) == 4_294_967_296,
        decreases k - i,
    {
        proof {
            lemma_pow2_unfold((i + 1) as nat);
            lemma_pow2_adds((i + 1) as nat, (32 - i - 1) as nat);
            lemma_pow2_pos((32 - i - 1) as nat);
            let a = pow2((i + 1) as nat);
            let b = pow2((32 - i - 1) as nat);
            assert(a <= a * b) by (nonlinear_arith)
                requires
                    b >= 1,
            ;
        }
        r = r * 2;
        i = i + 1;
    }
    r
}

/// The number of bits of `w`.
fn bit_count(w: u128) -> (r: u32)
    requires
        w <= u32::MAX,
    ensures
        r == exponent(w as nat) + 1,
        r <= 32,
{
    let mut r: u32 = 0;
    let mut rest: u128 = w;
    proof {
        lemma2_to64();
    }
    while rest > 0
        invariant
            r + exponent(rest as nat) + 1 == exponent(w as nat) + 1,
            r <= 32,
            rest < pow2((32 - r) as nat),
            pow2(0) == 1,
        decreases rest,
    {
        proof {
            lemma_pow2_unfold((32 - r) as nat);
        }
        rest = rest / 2;
        r = r + 1;
    }
    r
}

/// The leading bit of a number stands where `exponent` says.
proof fn lemma_exponent(w: nat)
    requires
        w > 0,
    ensures
        exponent(w) >= 0,
        pow2(exponent(w) as nat) <= w < pow2((exponent(w) + 1) as nat),
    decreases w,
{
    if w == 1 {
        assert(exponent(0) == -1);
        assert(exponent(1) == 0);
        lemma2_to64();
    } else {
        lemma_exponent(w / 2);
        lemma_pow2_unfold(exponent(w) as nat);
        lemma_pow2_unfold((exponent(w) + 1) as nat);
    }
}

/// Scaling both numbers leaves the nearest integer of their quotient as it is.
proof fn lemma_nearest_scaled(a: nat, b: nat, k: nat)
    requires
        b > 0,
        k > 0,
    ensures
        b * k > 0,
        nearest(a * k, b * k) == nearest(a, b),
{
    let q = a / b;
    let r = a % b;
    lemma_fundamental_div_mod(a as int, b as int);
    assert(b * k > 0) by (nonlinear_arith)
        requires
            b > 0,
            k > 0,
    ;
    assert(a * k == q * (b * k) + r * k) by (nonlinear_arith)
        requires
            a == b * q + r,
    ;
    assert(0 <= r * k < b * k) by (nonlinear_arith)
        requires
            0 <= r < b,
            k > 0,
    ;
    lemma_fundamental_div_mod_converse((a * k) as int, (b * k) as int, q as int, (r * k) as int);
    assert((2 * r < b) == (2 * (r * k) < b * k)) by (nonlinear_arith)
        requires
            k > 0,
    ;
    assert((2 * r > b) == (2 * (r * k) > b * k)) by (nonlinear_arith)
        requires
            k > 0,
    ;
}

/// The nearest integer to a quotient, from the quotient of a truncated numerator and the news
/// whether anything was cut off.
proof fn lemma_nearest_sticky(a: nat, x: nat, d: nat, rem: nat, unit: nat)
    requires
        d > 0,
        unit > 0,
        unit % 2 == 0,
        a == x * d + rem,
        rem < d,
    ensures
        d * unit > 0,
        nearest(a, d * unit) == rounded(x, unit, rem > 0),
{
    let q = x / unit;
    let r = x % unit;
    lemma_fundamental_div_mod(x as int, unit as int);
    assert(d * unit > 0) by (nonlinear_arith)
        requires
            d > 0,
            unit > 0,
    ;
    assert(a == q * (d * unit) + (r * d + rem)) by (nonlinear_arith)
        requires
            a == x * d + rem,
            x == unit * q + r,
    ;
    assert(r * d + rem < d * unit) by (nonlinear_arith)
        requires
            r <= unit - 1,
            rem < d,
    ;
    assert(r * d >= 0) by (nonlinear_arith)
        requires
            r >= 0,
            d > 0,
    ;
    lemma_fundamental_div_mod_converse(
        a as int,
        (d * unit) as int,
        q as int,
        (r * d + rem) as int,
    );
    if 2 * r < unit {
        assert(2 * (r * d + rem) < d * unit) by (nonlinear_arith)
            requires
                2 * r <= unit - 2,
                rem < d,
                d > 0,
        ;
    } else if 2 * r > unit {
        assert(2 * (r * d + rem) > d * unit) by (nonlinear_arith)
            requires
                2 * r > unit,
                d > 0,
                rem >= 0,
        ;
    } else {
        assert(2 * (r * d + rem) == d * unit + 2 * rem) by (nonlinear_arith)
            requires
                2 * r == unit,
        ;
    }
}

/// The integer nearest to `(x + ε) / unit` for a positive `ε` below 1, or for 0 where nothing
/// was cut off.
spec fn rounded(x: nat, unit: nat, cut: bool) -> nat {
    let q = x / unit;
    let r = x % unit;
    if 2 * r < unit {
        q
    } else if 2 * r > unit || cut {
        q + 1
    } else {
        q + q % 2
    }
}

fn round(x: u128, unit: u128, cut: bool) -> (r: u128)
    requires
        unit > 0,
        unit <= 0xffff_ffff_ffff_ffff_ffff_ffff_ffff_ff,
        x <= 0xffff_ffff_ffff_ffff_ffff_ffff_ffff_ff,
    ensures
        r == rounded(x as nat, unit as nat, cut),
{
    let q: u128 = x / unit;
    let rest: u128 = x % unit;
    assert(q <= x) by (nonlinear_arith)
        requires
            unit > 0,
            q == x / unit,
    ;
    if 2 * rest < unit {
        q
    } else if 2 * rest > unit || cut {
        q + 1
    } else {
        q + q % 2
    }
}

/// Rounds a scaled number, of which a part below the scale may have been cut off.
fn single_scaled(x: u128, cut: bool, Ghost(n): Ghost<nat>, Ghost(d): Ghost<nat>, Ghost(rem): Ghost<nat>) -> (r:
    u128)
    requires
        d > 0,
        x < SCALE * 4_294_967_296,
        n * SCALE == x * d + rem,
        rem < d,
        cut == (rem > 0),
    ensures
        r == single_whole(n, d),
{
    let w: u128 = x / SCALE;
    proof {
        let rx = (x % SCALE) as nat;
        assert(x == SCALE * w + rx);
        assert(n * SCALE == (w * d) * SCALE + (rx * d + rem)) by (nonlinear_arith)
            requires
                n * SCALE == x * d + rem,
                x == SCALE * w + rx,
        ;
        assert(rx * d + rem < SCALE * d) by (nonlinear_arith)
            requires
                rx <= SCALE - 1,
                rem < d,
        ;
        assert(rx * d >= 0) by (nonlinear_arith)
            requires
                rx >= 0,
                d > 0,
        ;
        let over = n - w * d;
        assert(over * SCALE == n * SCALE - (w * d) * SCALE) by (nonlinear_arith)
            requires
                over == n - w * d,
        ;
        assert(0 <= over < d) by (nonlinear_arith)
            requires
                0 <= over * SCALE < SCALE * d,
                SCALE > 0,
        ;
        assert(n == w * d + over);
        lemma_fundamental_div_mod_converse(n as int, d as int, w as int, over);
        lemma2_to64();
    }
    let bits: u32 = bit_count(w);
    if bits <= 23 {
        let s: u32 = 24 - bits;
        let places: u128 = two_to(s);
        let tens: u128 = two_to(25 - s);
        proof {
            lemma_pow2_adds(s as nat, (25 - s) as nat);
            lemma_pow2_unfold((25 - s) as nat);
            lemma_pow2_pos((24 - s) as nat);
            assert(places * tens == 33_554_432);
        }
        assert(FIVES * tens <= FIVES * 4_294_967_296) by (nonlinear_arith)
            requires
                tens <= 4_294_967_296,
        ;
        let unit: u128 = FIVES * tens;
        proof {
            assert(places * unit == SCALE) by (nonlinear_arith)
                requires
                    unit == FIVES * tens,
                    places * tens == 33_554_432,
                    FIVES * 33_554_432 == SCALE,
            ;
            assert(unit % 2 == 0) by (nonlinear_arith)
                requires
                    unit == FIVES * tens,
                    tens % 2 == 0,
            ;
            assert(unit > 0) by (nonlinear_arith)
                requires
                    unit == FIVES * tens,
                    tens > 0,
            ;
            lemma_nearest_sticky(n * SCALE as nat, x as nat, d, rem, unit as nat);
            lemma_nearest_scaled(n * places as nat, d, unit as nat);
            assert((n * places as nat) * unit as nat == n * SCALE as nat) by (nonlinear_arith)
                requires
                    places * unit == SCALE,
            ;
            lemma_pow2_pos(s as nat);
        }
        let m: u128 = round(x, unit, cut);
        m / places
    } else {
        let t: u32 = bits - 24;
        let step: u128 = two_to(t);
        proof {
            lemma_pow2_adds(t as nat, (8 - t) as nat);
            lemma_pow2_pos((8 - t) as nat);
            lemma_pow2_pos(t as nat);
            let rest = pow2((8 - t) as nat);
            assert(step <= 256) by (nonlinear_arith)
                requires
                    step * rest == 256,
                    rest >= 1,
            ;
        }
        let unit: u128 = SCALE * step;
        proof {
            assert(unit % 2 == 0) by (nonlinear_arith)
                requires
                    unit == SCALE * step,
                    SCALE % 2 == 0,
            ;
            lemma_nearest_sticky(n * SCALE as nat, x as nat, d, rem, unit as nat);
            assert(d * step as nat > 0) by (nonlinear_arith)
                requires
                    d > 0,
                    step > 0,
            ;
            lemma_nearest_scaled(n, d * step as nat, SCALE as nat);
            assert((d * step as nat) * SCALE as nat == d * unit as nat) by (nonlinear_arith)
                requires
                    unit == SCALE * step,
            ;
        }
        let m: u128 = round(x, unit, cut);
        assert(m <= 4_294_967_297) by (nonlinear_arith)
            requires
                x < SCALE * 4_294_967_296,
                unit >= SCALE,
                m <= x / unit + 1,
                unit > 0,
        ;
        assert(m * step <= 4_294_967_297 * 256) by (nonlinear_arith)
            requires
                m <= 4_294_967_297,
                step <= 256,
        ;
        m * step
    }
}

/// The value of digits followed by digits.
proof fn lemma_value_concat(a: Seq<char>, b: Seq<char>)
    ensures
        text::value_of(a + b) == text::value_of(a) * pow(10, b.len()) + text::value_of(b),
    decreases b.len(),
{
    if b.len() == 0 {
        assert(a + b =~= a);
        lemma_pow0(10);
    } else {
        let init = b.drop_last();
        lemma_value_concat(a, init);
        assert((a + b).drop_last() =~= a + init);
        lemma_pow_adds(10, init.len(), 1);
        lemma_pow1(10);
        let va = text::value_of(a) as int;
        let p = pow(10, init.len());
        assert((va * p) * 10 == va * (p * 10)) by (nonlinear_arith);
    }
}

/// A quotient of at least 2 to the power 32 stays that large once rounded.
proof fn lemma_single_large(n: nat, d: nat)
    requires
        d > 0,
        n / d >= 4_294_967_296,
    ensures
        single_whole(n, d) >= 4_294_967_296,
{
    let w = n / d;
    let e = exponent(w);
    lemma_exponent(w);
    lemma2_to64();
    if e + 1 < 33 {
        if e + 1 < 32 {
            lemma_pow2_strictly_increases((e + 1) as nat, 32);
        }
    }
    let t = pow2((e - 23) as nat);
    lemma_pow2_pos((e - 23) as nat);
    lemma_pow2_adds(23, (e - 23) as nat);
    let top = pow2(23);
    lemma_fundamental_div_mod(n as int, d as int);
    assert(n >= w * d) by (nonlinear_arith)
        requires
            n == d * w + n % d,
            n % d >= 0,
    ;
    assert(n >= top * (d * t)) by (nonlinear_arith)
        requires
            n >= w * d,
            w >= top * t,
            d > 0,
    ;
    assert(d * t > 0) by (nonlinear_arith)
        requires
            d > 0,
            t > 0,
    ;
    lemma_fundamental_div_mod(n as int, (d * t) as int);
    let q = n / (d * t);
    assert(q >= top) by (nonlinear_arith)
        requires
            n >= top * (d * t),
            n == (d * t) * q + n % (d * t),
            n % (d * t) < d * t,
            d * t > 0,
    ;
    let m = nearest(n, d * t);
    assert(m * t >= top * t) by (nonlinear_arith)
        requires
            m >= top,
            t > 0,
    ;
    if e > 32 {
        lemma_pow2_strictly_increases(32, e as nat);
    }
}

/// The value of the digits before the point; `None` above `u32::MAX`.
fn whole_value(digits: &Vec<char>, upto: usize) -> (r: Option<u128>)
    requires
        upto <= digits@.len(),
        text::all_digits(digits@.take(upto as int)),
    ensures
        match r {
            Some(v) => v == text::value_of(digits@.take(upto as int)) && v <= u32::MAX,
            None => text::value_of(digits@.take(upto as int)) > u32::MAX,
        },
{
    let ghost all = digits@.take(upto as int);
    let mut value: u128 = 0;
    let mut i: usize = 0;
    while i < upto
        invariant
            i <= upto <= digits@.len(),
            all == digits@.take(upto as int),
            text::all_digits(all),
            value == text::value_of(digits@.take(i as int)),
            value <= u32::MAX,
        decreases upto - i,
    {
        assert(text::is_digit(all[i as int]));
        proof {
            assert(digits@.take(i + 1).drop_last() =~= digits@.take(i as int));
            assert(all.take(i + 1) =~= digits@.take(i + 1));
            text::lemma_value_of_prefix(all, i + 1);
        }
        let c: char = digits[i];
        value = value * 10 + (c as u32 - 48) as u128;
        if value > 4_294_967_295 {
            return None;
        }
        i = i + 1;
    }
    Some(value)
}

/// The whole part of the single-precision number nearest to a decimal literal, at most
/// `u32::MAX`.
pub fn single_from_decimal(s: &str) -> (r: u32)
    requires
        is_decimal(s@),
    ensures
        r == decimal_whole(s@),
{
    let chars = text::chars_of(s);
    let mut point: Vec<char> = Vec::new();
    point.push('.');
    assert(point@ =~= seq!['.']);
    let found = text::find_chars(&chars, &point);
    let len: usize = chars.len();
    let upto: usize = match found {
        Some(i) => i,
        None => len,
    };
    let from: usize = match found {
        Some(i) => i + 1,
        None => len,
    };
    let ghost whole = whole_digits(s@);
    let ghost frac = fraction_digits(s@);
    let ghost d = pow(10, frac.len()) as nat;
    let ghost n = text::value_of(whole + frac);
    proof {
        assert(chars@.take(upto as int) =~= whole);
        assert(chars@.skip(from as int) =~= frac);
        lemma_pow_positive(10, frac.len());
        lemma_value_concat(whole, frac);
    }
    let w: u128 = match whole_value(&chars, upto) {
        Some(v) => v,
        None => {
            proof {
                let v = text::value_of(whole);
                lemma_fundamental_div_mod(n as int, d as int);
                assert(n / d >= v) by (nonlinear_arith)
                    requires
                        n == d * (n / d) + n % d,
                        n >= v * d,
                        n % d < d,
                        d > 0,
                ;
                lemma_single_large(n, d);
            }
            return u32::MAX;
        },
    };
    let mut x: u128 = w * SCALE;
    let mut place: u128 = SCALE / 10;
    let mut cut = false;
    let mut i: usize = from;
    let ghost mut rem: nat = 0;
    proof {
        assert(frac.take(0) =~= Seq::<char>::empty());
        assert(whole + frac.take(0) =~= whole);
        lemma_pow0(10);
        assert(place == pow(10, 24)) by {
            reveal_with_fuel(pow, 26);
        }
        assert(SCALE == pow(10, 25)) by {
            reveal_with_fuel(pow, 27);
        }
    }
    while i < chars.len()
        invariant
            from <= i <= chars@.len(),
            frac == chars@.skip(from as int),
            text::all_digits(frac),
            SCALE == pow(10, 25),
            i - from < 25 ==> place == pow(10, (24 - (i - from)) as nat),
            i - from >= 25 ==> place == 0,
            i - from <= 25 ==> rem == 0,
            i - from >= 25 ==> rem + SCALE <= pow(10, (i - from) as nat),
            rem < pow(10, (i - from) as nat),
            cut == (rem > 0),
            text::value_of(whole + frac.take(i - from)) * SCALE == x * pow(10, (i - from) as nat)
                + rem,
            x < SCALE * 4_294_967_296,
            place > 0 ==> x + 10 * place <= SCALE * 4_294_967_296,
        decreases chars@.len() - i,
    {
        let c: char = chars[i];
        assert(frac[i - from] == c);
        assert(text::is_digit(frac[i - from]));
        let digit: u128 = (c as u32 - 48) as u128;
        let ghost k = (i - from) as nat;
        let ghost v = text::value_of(whole + frac.take(k as int));
        proof {
            assert((whole + frac.take(k as int + 1)).drop_last() =~= whole + frac.take(k as int));
            assert(text::value_of(whole + frac.take(k as int + 1)) == v * 10 + digit);
            lemma_pow_adds(10, k, 1);
            lemma_pow1(10);
        }
        let ghost p = pow(10, k);
        proof {
            if k < 25 {
                lemma_pow_positive(10, (24 - k) as nat);
            }
        }
        if place > 0 {
            proof {
                lemma_pow_adds(10, (24 - k) as nat, (k + 1) as nat);
                assert((v * 10 + digit) * SCALE == (x + digit * place) * (p * 10)) by (
                nonlinear_arith)
                    requires
                        v * SCALE == x * p,
                        place * (p * 10) == SCALE,
                ;
                if k < 24 {
                    lemma_pow_adds(10, (23 - k) as nat, 1);
                    lemma_pow_positive(10, (23 - k) as nat);
                    assert(((23 - k) as nat + 1) as nat == (24 - k) as nat);
                    assert(place == pow(10, (23 - k) as nat) * 10);
                } else {
                    lemma_pow0(10);
                    assert(place == 1);
                    assert(pow(10, (k + 1) as nat) == SCALE);
                }
                assert(digit * place <= 9 * place) by (nonlinear_arith)
                    requires
                        digit <= 9,
                ;
                lemma_pow_positive(10, (k + 1) as nat);
            }
            x = x + digit * place;
            place = place / 10;
        } else {
            proof {
                assert((v * 10 + digit) * SCALE == x * (p * 10) + (rem * 10 + digit * SCALE)) by (
                nonlinear_arith)
                    requires
                        v * SCALE == x * p + rem,
                ;
                assert(digit * SCALE <= 9 * SCALE);
                rem = rem * 10 + digit as nat * SCALE as nat;
            }
            if digit > 0 {
                cut = true;
            }
        }
        i = i + 1;
    }
    proof {
        assert(frac.take(frac.len() as int) =~= frac);
        assert(i - from == frac.len());
    }
    let r: u128 = single_scaled(x, cut, Ghost(n), Ghost(d), Ghost(rem));
    if r > 4_294_967_295 {
        u32::MAX
    } else {
        r as u32
    }
}

/// A number in digits alone is read exactly below 2 to the power 24: its whole part is the number
/// itself.
pub proof fn law_small_whole_numbers_are_exact(digits: Seq<char>)
    requires
        digits.len() > 0,
        text::all_digits(digits),
        text::value_of(digits) < 16_777_216,
    ensures
        is_decimal(digits),
        decimal_whole(digits) == text::value_of(digits),
{
    let n = text::value_of(digits);
    text::lemma_find_from(digits, seq!['.'], 0);
    if let Some(i) = text::find(digits, seq!['.']) {
        assert(digits.subrange(i, i + 1)[0] == '.');
        assert(text::is_digit(digits[i]));
    }
    assert(whole_digits(digits) + fraction_digits(digits) =~= digits);
    lemma_pow0(10);
    assert(n / 1 == n);
    let e = exponent(n);
    lemma2_to64();
    if n > 0 {
        lemma_exponent(n);
        if e > 23 {
            lemma_pow2_strictly_increases(24, e as nat);
            if e > 24 {
                lemma_pow2_strictly_increases(24, e as nat);
            }
        }
    }
    if e < 23 {
        let s = pow2((23 - e) as nat);
        lemma_pow2_pos((23 - e) as nat);
        assert((n * s) % 1 == 0 && (n * s) / 1 == n * s);
        lemma_div_multiples_vanish(n as int, s as int);
        assert(n * s == s * n) by (nonlinear_arith);
    } else {
        let t = pow2((e - 23) as nat);
        assert(t == 1);
        assert(n % 1 == 0);
    }
}

} // verus!
