//! Conversion of single-precision numbers to device coordinates, in integer
//! arithmetic on the bit patterns.

use vstd::prelude::*;

use vstd::arithmetic::power2::pow2;

use crate::protocol::packets::Single;

verus! {

impl Single {
    /// Whether the sign bit is set.
    pub open spec fn negative(self) -> bool {
        self.bits >= 0x8000_0000
    }

    /// The biased exponent.
    pub open spec fn exponent(self) -> nat {
        (self.bits as nat / 0x80_0000) % 256
    }

    /// The stored part of the significand.
    pub open spec fn fraction(self) -> nat {
        self.bits as nat % 0x80_0000
    }

    /// Whether the pattern stands for no number.
    pub open spec fn is_nan(self) -> bool {
        self.exponent() == 255 && self.fraction() != 0
    }

    /// Whether the pattern stands for an infinity.
    pub open spec fn is_infinite(self) -> bool {
        self.exponent() == 255 && self.fraction() == 0
    }

    /// A finite number's magnitude is `significand * 2^scale`.
    pub open spec fn significand(self) -> nat {
        if self.exponent() == 0 {
            self.fraction()
        } else {
            self.fraction() + 0x80_0000
        }
    }

    /// A finite number's magnitude is `significand * 2^scale`.
    pub open spec fn scale(self) -> int {
        if self.exponent() == 0 {
            -149
        } else {
            self.exponent() - 150
        }
    }

    /// A finite number's magnitude as a multiple of `2^-149`, the least
    /// positive number.
    pub open spec fn units(self) -> nat {
        self.significand() * pow2((self.scale() + 149) as nat)
    }

    /// A finite number as a multiple of `2^-149`.
    pub open spec fn amount(self) -> int {
        if self.negative() {
            -self.units()
        } else {
            self.units() as int
        }
    }

    /// Whether a number is at most another one. Infinities are numbers here.
    pub open spec fn at_most(self, other: Single) -> bool {
        if self.is_infinite() {
            self.negative() || (other.is_infinite() && !other.negative())
        } else if other.is_infinite() {
            !other.negative()
        } else {
            self.amount() <= other.amount()
        }
    }

    /// The whole part of a finite number's magnitude.
    pub open spec fn whole(self) -> nat {
        if self.scale() >= 0 {
            self.significand() * pow2(self.scale() as nat)
        } else {
            self.significand() / pow2((-self.scale()) as nat)
        }
    }
}

/// The spacing of single-precision numbers at the magnitude of `n`, for an
/// integer `n`: the least power of two that leaves 24 bits of it.
pub open spec fn spacing(n: nat) -> nat
    decreases n,
{
    if n < 0x100_0000 {
        1
    } else {
        2 * spacing(n / 2)
    }
}

/// `n` rounded to a multiple of its spacing: the nearest one, and the even
/// one of two that are equally near.
pub open spec fn rounded(n: nat) -> nat {
    let step = spacing(n);
    let below = n / step;
    let excess = n % step;
    if 2 * excess < step || (2 * excess == step && below % 2 == 0) {
        below * step
    } else {
        (below + 1) * step
    }
}

/// The magnitude of an integer.
pub open spec fn magnitude(n: int) -> nat {
    if n < 0 {
        (-n) as nat
    } else {
        n as nat
    }
}

/// `n`, or the bound of the 32-bit integers that it lies beyond.
pub open spec fn saturated(n: int) -> i32 {
    if n > i32::MAX {
        i32::MAX
    } else if n < i32::MIN {
        i32::MIN
    } else {
        n as i32
    }
}

/// The magnitude of `value`, limited to 1, times `max`: both factors and the
/// product in single precision, the product cut to a whole number.
pub open spec fn scaled_magnitude(value: Single, max: nat) -> nat {
    if value.is_infinite() || value.whole() >= 1 {
        rounded(max)
    } else {
        rounded(value.significand() * rounded(max)) / pow2((-value.scale()) as nat)
    }
}

/// `value` limited to the range from 0 to 1, scaled to `max`.
pub open spec fn normalized(value: Single, max: i32) -> i32 {
    if value.is_nan() || value.negative() {
        0
    } else {
        let size = scaled_magnitude(value, magnitude(max as int));
        saturated(if max < 0 { -size } else { size as int })
    }
}

/// `degrees` limited to the range from `-limit` to `limit`, cut to a whole
/// number.
pub open spec fn limited(degrees: Single, limit: nat) -> int {
    if degrees.is_nan() {
        0
    } else {
        let size = if degrees.is_infinite() || degrees.whole() >= limit {
            limit
        } else {
            degrees.whole()
        };
        if degrees.negative() {
            -size
        } else {
            size as int
        }
    }
}

/// The spacing of an integer leaves it 24 bits and no fewer.
proof fn lemma_spacing(n: nat)
    ensures
        spacing(n) >= 1,
        n >= 0x100_0000 ==> spacing(n) * 0x80_0000 <= n,
    decreases n,
{
    if n >= 0x100_0000 {
        lemma_spacing(n / 2);
        if n / 2 < 0x100_0000 {
            assert(spacing(n / 2) == 1);
        }
    }
}

/// Rounding moves an integer by at most half its spacing.
proof fn lemma_rounded(n: nat)
    ensures
        n < 0x100_0000 ==> rounded(n) == n,
        2 * rounded(n) <= 2 * n + spacing(n),
        n >= 0x100_0000 ==> 0x100_0000 * rounded(n) <= 0x100_0001 * n,
{
    lemma_spacing(n);
    let step = spacing(n);
    let below = n / step;
    let excess = n % step;
    assert(n == below * step + excess && excess < step) by (nonlinear_arith)
        requires
            step >= 1,
            below == n / step,
            excess == n % step,
    ;
    assert((below + 1) * step == below * step + step) by (nonlinear_arith);
    if n < 0x100_0000 {
        assert(step == 1);
        assert(below * 1 == n);
    }
}

/// Scaling to a limit that single precision holds exactly stays within it.
proof fn lemma_scaled_within(value: Single, max: nat)
    requires
        max <= 0x100_0000,
        !value.is_nan(),
    ensures
        scaled_magnitude(value, max) <= max,
{
    if max < 0x100_0000 {
        lemma_rounded(max);
    } else {
        assert(spacing(0x100_0000) == 2) by {
            assert(spacing(0x80_0000) == 1);
        }
        assert(rounded(0x100_0000) == 0x100_0000);
    }
    assert(rounded(max) == max);
    if !(value.is_infinite() || value.whole() >= 1) {
        let m = value.significand();
        if value.scale() >= 0 {
            vstd::arithmetic::power2::lemma_pow2_pos(value.scale() as nat);
            assert(m >= 1);
            assert(m * pow2(value.scale() as nat) >= 1) by (nonlinear_arith)
                requires
                    m >= 1,
                    pow2(value.scale() as nat) >= 1,
            ;
            assert(false);
        }
        let unit = pow2((-value.scale()) as nat);
        vstd::arithmetic::power2::lemma_pow2_pos((-value.scale()) as nat);
        assert(m < unit) by (nonlinear_arith)
            requires
                m / unit < 1,
                unit > 0,
        ;
        let product = m * max;
        lemma_rounded(product);
        assert(product <= (unit - 1) * max) by (nonlinear_arith)
            requires
                product == m * max,
                m <= unit - 1,
        ;
        if product >= 0x100_0000 {
            assert(rounded(product) < (max + 1) * unit) by (nonlinear_arith)
                requires
                    0x100_0000 * rounded(product) <= 0x100_0001 * product,
                    product <= (unit - 1) * max,
                    max <= 0x100_0000,
                    unit > 0,
            ;
        } else {
            assert(rounded(product) < (max + 1) * unit) by (nonlinear_arith)
                requires
                    rounded(product) == product,
                    product <= (unit - 1) * max,
                    unit > 0,
            ;
        }
        assert(rounded(product) / unit <= max) by (nonlinear_arith)
            requires
                rounded(product) < (max + 1) * unit,
                unit > 0,
        ;
    }
}

/// A coordinate scaled to a limit that single precision holds exactly lies
/// between 0 and that limit.
pub proof fn normalized_in_range(value: Single, max: i32)
    requires
        0 <= max <= 0x100_0000,
    ensures
        0 <= normalized(value, max) <= max,
{
    if !value.is_nan() {
        lemma_scaled_within(value, max as nat);
    }
}

/// Spacings grow with the numbers, and double where they grow.
proof fn lemma_spacing_grows(n: nat, m: nat)
    requires
        n <= m,
    ensures
        spacing(n) == spacing(m) || 2 * spacing(n) <= spacing(m),
        n < 0x100_0000 * spacing(n),
    decreases m,
{
    lemma_spacing(m);
    if n >= 0x100_0000 {
        lemma_spacing_grows(n / 2, m / 2);
    } else if m >= 0x100_0000 {
        lemma_spacing(m / 2);
    }
}

/// Rounding keeps the order of numbers.
proof fn lemma_rounded_ordered(n: nat, m: nat)
    requires
        n <= m,
    ensures
        rounded(n) <= rounded(m),
{
    lemma_spacing(n);
    lemma_spacing(m);
    lemma_spacing_grows(n, m);
    let (s, t) = (spacing(n), spacing(m));
    let (b, c) = (n / s, m / t);
    assert(n == b * s + n % s && n % s < s) by (nonlinear_arith)
        requires
            s >= 1,
            b == n / s,
    ;
    assert(m == c * t + m % t && m % t < t) by (nonlinear_arith)
        requires
            t >= 1,
            c == m / t,
    ;
    assert((b + 1) * s == b * s + s) by (nonlinear_arith);
    assert((c + 1) * t == c * t + t) by (nonlinear_arith);
    if s == t {
        assert(b <= c) by (nonlinear_arith)
            requires
                b == n / s,
                c == m / s,
                n <= m,
                s >= 1,
        ;
        if b < c {
            assert((b + 1) * s <= c * s) by (nonlinear_arith)
                requires
                    b + 1 <= c,
            ;
        } else {
            assert(n % s <= m % s);
        }
    } else {
        assert(b + 1 <= 0x100_0000) by (nonlinear_arith)
            requires
                n < 0x100_0000 * s,
                b == n / s,
                s >= 1,
        ;
        assert((b + 1) * s <= 0x100_0000 * s) by (nonlinear_arith)
            requires
                b + 1 <= 0x100_0000,
        ;
        assert(m >= 0x100_0000);
        assert(c >= 0x80_0000) by (nonlinear_arith)
            requires
                t * 0x80_0000 <= m,
                c == m / t,
                t >= 1,
        ;
        assert(c * t >= 0x80_0000 * t) by (nonlinear_arith)
            requires
                c >= 0x80_0000,
        ;
    }
}

/// Rounding commutes with doubling.
proof fn lemma_rounded_doubled(n: nat)
    ensures
        rounded(2 * n) == 2 * rounded(n),
{
    lemma_spacing(n);
    let s = spacing(n);
    if n >= 0x80_0000 {
        assert(spacing(2 * n) == 2 * s);
        let b = n / s;
        let e = n % s;
        assert(n == b * s + e && e < s) by (nonlinear_arith)
            requires
                s >= 1,
                b == n / s,
                e == n % s,
        ;
        assert(2 * n == b * (2 * s) + 2 * e) by (nonlinear_arith)
            requires
                n == b * s + e,
        ;
        vstd::arithmetic::div_mod::lemma_fundamental_div_mod_converse(
            (2 * n) as int,
            (2 * s) as int,
            b as int,
            (2 * e) as int,
        );
        assert(b * (2 * s) == 2 * (b * s)) by (nonlinear_arith);
        assert((b + 1) * (2 * s) == 2 * ((b + 1) * s)) by (nonlinear_arith);
    } else {
        lemma_rounded(n);
        lemma_rounded(2 * n);
    }
}

/// Rounding commutes with scaling by a power of two.
proof fn lemma_rounded_scaled(n: nat, power: nat)
    ensures
        rounded(n * pow2(power)) == rounded(n) * pow2(power),
    decreases power,
{
    if power == 0 {
        vstd::arithmetic::power2::lemma2_to64();
        assert(n * pow2(0) == n && rounded(n) * pow2(0) == rounded(n)) by (nonlinear_arith)
            requires
                pow2(0) == 1,
        ;
    } else {
        let less = (power - 1) as nat;
        lemma_rounded_scaled(n, less);
        lemma_rounded_doubled(n * pow2(less));
        vstd::arithmetic::power2::lemma_pow2_unfold(power);
        assert(n * pow2(power) == 2 * (n * pow2(less))) by (nonlinear_arith)
            requires
                pow2(power) == 2 * pow2(less),
        ;
        assert(rounded(n) * pow2(power) == 2 * (rounded(n) * pow2(less))) by (nonlinear_arith)
            requires
                pow2(power) == 2 * pow2(less),
        ;
    }
}

/// The scaled magnitude of a number below 1, on the common scale.
proof fn lemma_scaled_units(value: Single, max: nat)
    requires
        value.scale() < 0,
    ensures
        rounded(value.significand() * max) / pow2((-value.scale()) as nat) == rounded(
            value.units() * max,
        ) / pow2(149),
{
    let m = value.significand();
    let down = (-value.scale()) as nat;
    let up = (149 - down) as nat;
    let unit = pow2(up);
    lemma_rounded_scaled(m * max, up);
    assert((m * max) * unit == (m * unit) * max) by (nonlinear_arith);
    vstd::arithmetic::power2::lemma_pow2_adds(down, up);
    vstd::arithmetic::power2::lemma_pow2_pos(down);
    vstd::arithmetic::power2::lemma_pow2_pos(up);
    let r = rounded(m * max);
    vstd::arithmetic::div_mod::lemma_div_denominator(
        (r * unit) as int,
        unit as int,
        pow2(down) as int,
    );
    assert(unit * pow2(down) == pow2(down) * unit) by (nonlinear_arith);
    assert((r * unit) / unit == r) by {
        vstd::arithmetic::div_mod::lemma_div_multiples_vanish(r as int, unit as int);
        assert(r * unit == unit * r) by (nonlinear_arith);
    }
}

/// A finite number is at least 1 exactly if it has a whole part.
proof fn lemma_whole_units(value: Single)
    requires
        value.exponent() < 255,
    ensures
        value.whole() >= 1 <==> value.units() >= pow2(149),
{
    let m = value.significand();
    if value.scale() >= 0 {
        let up = value.scale() as nat;
        vstd::arithmetic::power2::lemma_pow2_pos(up);
        vstd::arithmetic::power2::lemma_pow2_pos(149);
        vstd::arithmetic::power2::lemma_pow2_adds(up, 149);
        assert(m * pow2(up) >= 1) by (nonlinear_arith)
            requires
                m >= 1,
                pow2(up) >= 1,
        ;
        assert(m * (pow2(up) * pow2(149)) >= pow2(149)) by (nonlinear_arith)
            requires
                m >= 1,
                pow2(up) >= 1,
                pow2(149) >= 1,
        ;
    } else {
        let down = (-value.scale()) as nat;
        let up = (149 - down) as nat;
        vstd::arithmetic::power2::lemma_pow2_pos(down);
        vstd::arithmetic::power2::lemma_pow2_pos(up);
        vstd::arithmetic::power2::lemma_pow2_adds(down, up);
        let (d, u) = (pow2(down), pow2(up));
        assert(m / d >= 1 <==> m >= d) by (nonlinear_arith)
            requires
                d > 0,
        ;
        assert(m >= d <==> m * u >= d * u) by (nonlinear_arith)
            requires
                u > 0,
        ;
    }
}

/// A larger number never gives a smaller coordinate.
pub proof fn normalized_keeps_order(a: Single, b: Single, max: i32)
    requires
        0 <= max <= 65535,
        !a.is_nan(),
        !b.is_nan(),
        a.at_most(b),
    ensures
        0 <= normalized(a, max) <= normalized(b, max) <= max,
{
    normalized_in_range(a, max);
    normalized_in_range(b, max);
    lemma_rounded(max as nat);
    if !a.negative() {
        lemma_scaled_within(a, max as nat);
        if b.negative() {
            // Only two zeros are ordered this way.
            vstd::arithmetic::power2::lemma_pow2_pos((a.scale() + 149) as nat);
            assert(a.units() == 0);
            lemma_zero_units(a, max);
        } else if !(b.is_infinite() || b.whole() >= 1) {
            lemma_whole_units(b);
            lemma_whole_units(a);
            lemma_small_scale(a);
            lemma_small_scale(b);
            lemma_scaled_units(a, max as nat);
            lemma_scaled_units(b, max as nat);
            let (x, y) = (a.units() * max as nat, b.units() * max as nat);
            assert(x <= y) by (nonlinear_arith)
                requires
                    x == a.units() * max as nat,
                    y == b.units() * max as nat,
                    a.units() <= b.units(),
            ;
            lemma_rounded_ordered(x, y);
            vstd::arithmetic::power2::lemma_pow2_pos(149);
            vstd::arithmetic::div_mod::lemma_div_is_ordered(
                rounded(x) as int,
                rounded(y) as int,
                pow2(149) as int,
            );
        }
    }
}

/// A finite number without a whole part has a negative scale.
proof fn lemma_small_scale(value: Single)
    requires
        value.exponent() < 255,
        value.whole() < 1,
    ensures
        value.scale() < 0,
{
    if value.scale() >= 0 {
        vstd::arithmetic::power2::lemma_pow2_pos(value.scale() as nat);
        assert(value.significand() * pow2(value.scale() as nat) >= 1) by (nonlinear_arith)
            requires
                value.significand() >= 1,
                pow2(value.scale() as nat) >= 1,
        ;
    }
}

/// Nothing of a coordinate is left of a number without units.
proof fn lemma_zero_units(value: Single, max: i32)
    requires
        !value.is_nan(),
        !value.is_infinite(),
        value.units() == 0,
        0 <= max <= 65535,
    ensures
        normalized(value, max) == 0,
{
    lemma_rounded(max as nat);
    vstd::arithmetic::power2::lemma_pow2_pos(149);
    lemma_whole_units(value);
    lemma_small_scale(value);
    lemma_scaled_units(value, max as nat);
    assert(value.units() * max as nat == 0) by (nonlinear_arith)
        requires
            value.units() == 0,
    ;
    lemma_rounded(0);
    assert(0nat / pow2(149) == 0) by (nonlinear_arith)
        requires
            pow2(149) > 0,
    ;
}

/// Zero.
pub open spec fn zero() -> Single {
    Single { bits: 0 }
}

/// One.
pub open spec fn one() -> Single {
    Single { bits: 0x3f80_0000 }
}

/// What is not above zero gives 0, and what is not below one gives the limit.
pub proof fn normalized_at_ends(value: Single, max: i32)
    requires
        0 <= max <= 65535,
        !value.is_nan(),
    ensures
        value.at_most(zero()) ==> normalized(value, max) == 0,
        one().at_most(value) ==> normalized(value, max) == max,
{
    lemma_rounded(max as nat);
    vstd::arithmetic::power2::lemma_pow2_pos(149);
    assert(zero().units() == 0) by (nonlinear_arith)
        requires
            zero().units() == 0 * pow2(0),
    ;
    assert(zero().exponent() == 0 && zero().fraction() == 0);
    assert(one().exponent() == 127 && one().fraction() == 0);
    assert(one().units() == pow2(149)) by {
        vstd::arithmetic::power2::lemma_pow2_adds(23, 126);
        vstd::arithmetic::power2::lemma2_to64();
    }
    if value.at_most(zero()) && !value.negative() {
        lemma_zero_units(value, max);
    }
    if one().at_most(value) && !value.is_infinite() {
        if value.negative() {
            assert(value.amount() <= 0);
        } else {
            lemma_whole_units(value);
        }
    }
}

/// A limited angle lies between the limits.
pub proof fn limited_in_range(degrees: Single, limit: nat)
    ensures
        -limit <= limited(degrees, limit) <= limit,
{
}

/// The spacing of an integer is a power of two that leaves 24 bits of it, all of
/// which the integer needs.
proof fn lemma_spacing_exact(n: nat) -> (power: nat)
    ensures
        spacing(n) == pow2(power),
        n < 0x100_0000 * spacing(n),
        spacing(n) == 1 || n >= 0x80_0000 * spacing(n),
    decreases n,
{
    if n < 0x100_0000 {
        vstd::arithmetic::power2::lemma2_to64();
        0
    } else {
        let less = lemma_spacing_exact(n / 2);
        vstd::arithmetic::power2::lemma_pow2_unfold(less + 1);
        less + 1
    }
}

/// A coordinate is the product of the number and the limit, in single precision,
/// cut to a whole number. In units of the least number, the product is rounded to
/// `count` steps of `2^power`: the step leaves 24 bits of it, the rounded product
/// is nearest to it, and of two that are equally near it is the even one.
pub proof fn coordinate_is_rounded_product(value: Single, max: i32) -> (rounding: (nat, nat))
    requires
        0 <= max <= 65535,
        !value.is_nan(),
        !value.is_infinite(),
        !value.negative(),
        value.units() < pow2(149),
    ensures
        ({
            let (power, count) = rounding;
            let product = value.units() * max;
            let step = pow2(power);
            &&& product < 0x100_0000 * step
            &&& power == 0 || product >= 0x80_0000 * step
            &&& 2 * (count * step) <= 2 * product + step
            &&& 2 * product <= 2 * (count * step) + step
            &&& 2 * (count * step) == 2 * product + step ==> count % 2 == 0
            &&& 2 * product == 2 * (count * step) + step ==> count % 2 == 0
            &&& normalized(value, max) == (count * step) as int / pow2(149) as int
        }),
{
    let product = value.units() * max as nat;
    let power = lemma_spacing_exact(product);
    let step = spacing(product);
    lemma_rounded(max as nat);
    lemma_spacing(product);
    vstd::arithmetic::power2::lemma_pow2_pos(149);
    lemma_whole_units(value);
    lemma_small_scale(value);
    lemma_scaled_units(value, max as nat);
    lemma_scaled_within(value, max as nat);
    let below = product / step;
    let excess = product % step;
    assert(product == below * step + excess && excess < step) by (nonlinear_arith)
        requires
            step >= 1,
            below == product / step,
            excess == product % step,
    ;
    assert((below + 1) * step == below * step + step) by (nonlinear_arith);
    let count = if 2 * excess < step || (2 * excess == step && below % 2 == 0) {
        below
    } else {
        below + 1
    };
    assert(rounded(product) == count * step);
    if power > 0 {
        vstd::arithmetic::power2::lemma_pow2_strictly_increases(0, power);
        vstd::arithmetic::power2::lemma2_to64();
    }
    (power, count)
}

/// An integer is rounded to single precision: to `count` steps of `2^power`, of
/// which the step leaves 24 bits, the result is nearest, and of two that are
/// equally near it is the even one.
pub proof fn rounding_is_nearest(n: nat) -> (rounding: (nat, nat))
    ensures
        ({
            let (power, count) = rounding;
            let step = pow2(power);
            &&& rounded(n) == count * step
            &&& n < 0x100_0000 * step
            &&& power == 0 || n >= 0x80_0000 * step
            &&& 2 * (count * step) <= 2 * n + step
            &&& 2 * n <= 2 * (count * step) + step
            &&& 2 * (count * step) == 2 * n + step ==> count % 2 == 0
            &&& 2 * n == 2 * (count * step) + step ==> count % 2 == 0
        }),
{
    let power = lemma_spacing_exact(n);
    let step = spacing(n);
    lemma_spacing(n);
    let below = n / step;
    let excess = n % step;
    assert(n == below * step + excess && excess < step) by (nonlinear_arith)
        requires
            step >= 1,
            below == n / step,
            excess == n % step,
    ;
    assert((below + 1) * step == below * step + step) by (nonlinear_arith);
    let count = if 2 * excess < step || (2 * excess == step && below % 2 == 0) {
        below
    } else {
        below + 1
    };
    if power > 0 {
        vstd::arithmetic::power2::lemma_pow2_strictly_increases(0, power);
        vstd::arithmetic::power2::lemma2_to64();
    }
    (power, count)
}

/// Whatever the limit, a coordinate is 0 for what is no number or below zero; it
/// is the limit, rounded to single precision, for one and more; and between them
/// it is the product of the number and that limit, rounded again and cut to a
/// whole number. It has the sign of the limit, and is not beyond 32 bits.
pub proof fn coordinate_follows_limit(value: Single, max: i32)
    ensures
        ({
            let factor = rounded(magnitude(max as int));
            let size: int = if value.is_infinite() || value.units() >= pow2(149) {
                factor as int
            } else {
                rounded(value.units() * factor) as int / pow2(149) as int
            };
            let signed = if max < 0 {
                -size
            } else {
                size
            };
            &&& value.is_nan() || value.negative() ==> normalized(value, max) == 0
            &&& !value.is_nan() && !value.negative() && i32::MIN <= signed <= i32::MAX
                ==> normalized(value, max) == signed
            &&& !value.is_nan() && !value.negative() && signed > i32::MAX ==> normalized(value, max)
                == i32::MAX
            &&& !value.is_nan() && !value.negative() && signed < i32::MIN ==> normalized(value, max)
                == i32::MIN
        }),
{
    if !value.is_nan() && !value.negative() && !value.is_infinite() {
        lemma_whole_units(value);
        if value.whole() < 1 {
            lemma_small_scale(value);
            lemma_scaled_units(value, rounded(magnitude(max as int)));
        }
    }
}

/// A coordinate is the number times the limit, cut to a whole number, up to what
/// single precision cannot hold: one part in sixteen million.
pub proof fn coordinate_is_accurate(value: Single, max: i32)
    requires
        0 <= max <= 65535,
        !value.is_nan(),
        !value.is_infinite(),
        !value.negative(),
        value.units() < pow2(149),
    ensures
        0x100_0000 * (normalized(value, max) * pow2(149)) <= 0x100_0001 * (value.units() * max),
        0x100_0000 * ((normalized(value, max) + 1) * pow2(149)) > 0xff_ffff * (value.units() * max),
{
    let (power, count) = coordinate_is_rounded_product(value, max);
    let product = value.units() * max;
    let step = pow2(power);
    let near = count * step;
    let unit = pow2(149);
    vstd::arithmetic::power2::lemma_pow2_pos(149);
    vstd::arithmetic::power2::lemma2_to64();
    let whole = normalized(value, max) as int;
    assert(whole * unit <= near < (whole + 1) * unit) by (nonlinear_arith)
        requires
            whole == near as int / unit as int,
            unit > 0,
    ;
    if power == 0 {
        assert(step == 1);
        assert(near == count) by (nonlinear_arith)
            requires
                near == count * step,
                step == 1,
        ;
        assert(near == product);
    }
    assert(product >= 0) by (nonlinear_arith)
        requires
            product == value.units() * max,
            max >= 0,
    ;
}

/// The whole part of a finite number, on the common scale.
proof fn lemma_whole_exact(value: Single)
    requires
        value.exponent() < 255,
    ensures
        value.whole() * pow2(149) <= value.units() < (value.whole() + 1) * pow2(149),
{
    let m = value.significand();
    vstd::arithmetic::power2::lemma_pow2_pos(149);
    if value.scale() >= 0 {
        let up = value.scale() as nat;
        vstd::arithmetic::power2::lemma_pow2_adds(up, 149);
        assert((m * pow2(up)) * pow2(149) == m * (pow2(up) * pow2(149))) by (nonlinear_arith);
        assert((m * pow2(up) + 1) * pow2(149) == (m * pow2(up)) * pow2(149) + pow2(149))
            by (nonlinear_arith);
    } else {
        let down = (-value.scale()) as nat;
        let up = (149 - down) as nat;
        vstd::arithmetic::power2::lemma_pow2_pos(down);
        vstd::arithmetic::power2::lemma_pow2_pos(up);
        vstd::arithmetic::power2::lemma_pow2_adds(down, up);
        let (d, u) = (pow2(down), pow2(up));
        let whole = m / d;
        let rest = m % d;
        assert(m == whole * d + rest && rest < d) by (nonlinear_arith)
            requires
                d > 0,
                whole == m / d,
                rest == m % d,
        ;
        assert(m * u == whole * (d * u) + rest * u) by (nonlinear_arith)
            requires
                m == whole * d + rest,
        ;
        assert(0 <= rest * u < d * u) by (nonlinear_arith)
            requires
                0 <= rest < d,
                u > 0,
        ;
        assert((whole + 1) * (d * u) == whole * (d * u) + d * u) by (nonlinear_arith);
    }
}

/// A limited angle is the whole part of the angle, with its sign, where that is
/// not beyond the limit, and the limit otherwise; what is no number is no angle.
pub proof fn angle_is_whole_part(degrees: Single, limit: nat)
    ensures
        ({
            let angle = limited(degrees, limit);
            let size = if degrees.negative() {
                -angle
            } else {
                angle
            };
            &&& degrees.is_nan() ==> angle == 0
            &&& degrees.is_infinite() ==> size == limit
            &&& !degrees.is_nan() && !degrees.is_infinite() ==> {
                &&& 0 <= size <= limit
                &&& degrees.units() >= limit * pow2(149) ==> size == limit
                &&& degrees.units() < limit * pow2(149) ==> size * pow2(149) <= degrees.units() < (
                size + 1) * pow2(149)
            }
        }),
{
    if !degrees.is_nan() && !degrees.is_infinite() {
        lemma_whole_exact(degrees);
        vstd::arithmetic::power2::lemma_pow2_pos(149);
        let whole = degrees.whole();
        let unit = pow2(149);
        let units = degrees.units();
        if units >= limit * unit {
            assert(whole >= limit) by (nonlinear_arith)
                requires
                    limit * unit <= units < (whole + 1) * unit,
                    unit > 0,
            ;
        } else {
            assert(whole < limit) by (nonlinear_arith)
                requires
                    whole * unit <= units < limit * unit,
                    unit > 0,
            ;
        }
    }
}

/// Rounds an integer to single precision.
fn round_to_single(n: u64) -> (r: u64)
    requires
        n < 0x100_0000_0000_0000,
    ensures
        r == rounded(n as nat),
        r < 0x200_0000_0000_0000,
{
    let mut rest: u64 = n;
    let mut step: u64 = 1;
    assert(1 * spacing(rest as nat) == spacing(n as nat));
    while rest >= 0x100_0000
        invariant
            n < 0x100_0000_0000_0000,
            step >= 1,
            step * rest <= n,
            step * spacing(rest as nat) == spacing(n as nat),
        decreases rest,
    {
        assert(step <= n / 0x100_0000) by (nonlinear_arith)
            requires
                step * rest <= n,
                rest >= 0x100_0000,
        ;
        assert((step * 2) * (rest / 2) <= n) by (nonlinear_arith)
            requires
                step * rest <= n,
                step >= 1,
        ;
        assert((step * 2) * spacing(rest as nat / 2) == step * spacing(rest as nat))
            by (nonlinear_arith)
            requires
                spacing(rest as nat) == 2 * spacing(rest as nat / 2),
        ;
        rest = rest / 2;
        step = step * 2;
    }
    assert(step == spacing(n as nat)) by (nonlinear_arith)
        requires
            step * spacing(rest as nat) == spacing(n as nat),
            spacing(rest as nat) == 1,
    ;
    proof {
        lemma_spacing(n as nat);
        lemma_rounded(n as nat);
    }
    let below: u64 = n / step;
    let excess: u64 = n % step;
    assert(below * step <= n) by (nonlinear_arith)
        requires
            below == n / step,
            step >= 1,
    ;
    assert((below + 1) * step == below * step + step) by (nonlinear_arith);
    if 2 * excess < step || (2 * excess == step && below % 2 == 0) {
        below * step
    } else {
        (below + 1) * step
    }
}

/// The parts of a bit pattern: sign, exponent, fraction.
fn parts(value: Single) -> (p: (bool, u32, u32))
    ensures
        p.0 == value.negative(),
        p.1 == value.exponent(),
        p.2 == value.fraction(),
        p.1 <= 255,
        p.2 < 0x80_0000,
{
    (value.bits >= 0x8000_0000, (value.bits / 0x80_0000) % 256, value.bits % 0x80_0000)
}

/// `n` divided by a power of two.
fn divide_by_power(n: u64, power: u32) -> (q: u64)
    ensures
        q == n as nat / pow2(power as nat),
{
    if power < 64 {
        let shift: u64 = power as u64;
        proof {
            vstd::bits::lemma_u64_shr_is_div(n, shift);
        }
        n >> shift
    } else {
        proof {
            assert(n < pow2(power as nat)) by {
                vstd::arithmetic::power2::lemma2_to64();
                vstd::arithmetic::power2::lemma2_to64_rest();
                if power > 64 {
                    vstd::arithmetic::power2::lemma_pow2_strictly_increases(64, power as nat);
                }
            }
            assert(n as nat / pow2(power as nat) == 0) by (nonlinear_arith)
                requires
                    n < pow2(power as nat),
            ;
        }
        0
    }
}

/// The whole part of a finite number's magnitude, or `cap` if that is less.
fn whole_up_to(value: Single, cap: u32) -> (n: u32)
    requires
        !value.is_nan(),
        !value.is_infinite(),
        cap <= 0x80_0000,
    ensures
        n == if value.whole() < cap {
            value.whole()
        } else {
            cap as nat
        },
{
    let (_, exponent, fraction) = parts(value);
    if exponent >= 150 {
        proof {
            let unit = pow2(value.scale() as nat);
            vstd::arithmetic::power2::lemma_pow2_pos(value.scale() as nat);
            assert(value.significand() * unit >= 0x80_0000) by (nonlinear_arith)
                requires
                    value.significand() >= 0x80_0000,
                    unit >= 1,
            ;
        }
        return cap;
    }
    let significand: u64 = if exponent == 0 {
        fraction as u64
    } else {
        fraction as u64 + 0x80_0000
    };
    let power: u32 = if exponent == 0 {
        149
    } else {
        150 - exponent
    };
    let whole: u64 = divide_by_power(significand, power);
    if whole < cap as u64 {
        whole as u32
    } else {
        cap
    }
}

/// Scales `value`, limited to the range from 0 to 1, to `max`.
pub fn scale_to(value: Single, max: i32) -> (scaled: i32)
    ensures
        scaled == normalized(value, max),
{
    let (negative, exponent, fraction) = parts(value);
    if negative || (exponent == 255 && fraction != 0) {
        return 0;
    }
    let limit: u64 = if max < 0 {
        (-(max as i64)) as u64
    } else {
        max as u64
    };
    let factor: u64 = round_to_single(limit);
    proof {
        lemma_rounded(limit as nat);
        lemma_spacing(limit as nat);
    }
    let size: u64 = if exponent == 255 || whole_up_to(value, 1) >= 1 {
        factor
    } else {
        let significand: u64 = if exponent == 0 {
            fraction as u64
        } else {
            fraction as u64 + 0x80_0000
        };
        assert(exponent < 150) by {
            if exponent >= 150 {
                let unit = pow2(value.scale() as nat);
                vstd::arithmetic::power2::lemma_pow2_pos(value.scale() as nat);
                assert(value.significand() * unit >= 1) by (nonlinear_arith)
                    requires
                        value.significand() >= 0x80_0000,
                        unit >= 1,
                ;
            }
        }
        let power: u32 = if exponent == 0 {
            149
        } else {
            150 - exponent
        };
        assert(significand * factor < 0x100_0000_0000_0000) by (nonlinear_arith)
            requires
                significand < 0x100_0000,
                factor <= 0x1_0000_0000,
        ;
        divide_by_power(round_to_single(significand * factor), power)
    };
    if max < 0 {
        if size > 0x8000_0000 {
            i32::MIN
        } else {
            (-(size as i64)) as i32
        }
    } else if size > 0x7fff_ffff {
        i32::MAX
    } else {
        size as i32
    }
}

/// Limits `degrees` to the range from `-limit` to `limit` and cuts it to a
/// whole number.
pub fn limit_to(degrees: Single, limit: u32) -> (whole: i32)
    requires
        limit <= 0x80_0000,
    ensures
        whole == limited(degrees, limit as nat),
{
    let (negative, exponent, fraction) = parts(degrees);
    if exponent == 255 && fraction != 0 {
        return 0;
    }
    let size: u32 = if exponent == 255 {
        limit
    } else {
        whole_up_to(degrees, limit)
    };
    if negative {
        -(size as i32)
    } else {
        size as i32
    }
}

} // verus!
