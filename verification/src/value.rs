//! The values that the machine computes with.
//!
//! A floating-point value is held as the bit pattern of an IEEE 754
//! binary64 number (what `f64::to_bits` gives). The machine decides on
//! such values through the facts that the bit pattern states directly:
//! whether it is a NaN, whether it is a zero, how two values compare, and
//! how integers convert to and from it. Arithmetic on floats, and their
//! decimal text, are left to the host.
use vstd::prelude::*;

use crate::text::{i32_text, int_text, string_of};

verus! {

/// A value on the stack or in a variable.
#[derive(Clone, Debug)]
pub enum Value {
    Int(i32),
    /// The bits of an `f64`.
    Float(u64),
    String(String),
    Bool(bool),
}

/// The mathematical model of a [`Value`]: strings become their characters.
pub enum ValueView {
    Int(i32),
    Float(u64),
    Str(Seq<char>),
    Bool(bool),
}

impl View for Value {
    type V = ValueView;

    open spec fn view(&self) -> ValueView {
        match self {
            Value::Int(i) => ValueView::Int(*i),
            Value::Float(f) => ValueView::Float(*f),
            Value::String(s) => ValueView::Str(s@),
            Value::Bool(b) => ValueView::Bool(*b),
        }
    }
}

impl Value {
    /// A copy of this value.
    pub fn duplicate(&self) -> (r: Value)
        ensures
            r@ == self@,
    {
        match self {
            Value::Int(i) => Value::Int(*i),
            Value::Float(f) => Value::Float(*f),
            Value::String(s) => Value::String(s.clone()),
            Value::Bool(b) => Value::Bool(*b),
        }
    }

    /// The string value of the given text.
    pub fn text(s: &str) -> (r: Value)
        ensures
            r@ == ValueView::Str(s@),
    {
        Value::String(String::from_str(s))
    }
}

/// How a value is written when printed (its `Display`), for all but
/// floats, whose decimal text is the host's work.
pub open spec fn display_text(v: ValueView) -> Option<Seq<char>> {
    match v {
        ValueView::Int(i) => Some(int_text(i as int)),
        ValueView::Float(_) => None,
        ValueView::Str(s) => Some(s),
        ValueView::Bool(b) => Some(
            if b {
                "true"@
            } else {
                "false"@
            },
        ),
    }
}

impl Value {
    /// How the value is written when printed; `None` for a float.
    pub fn text_of(&self) -> (r: Option<String>)
        ensures
            match r {
                Some(t) => display_text(self@) == Some(t@),
                None => display_text(self@) is None,
            },
    {
        match self {
            Value::Int(i) => {
                let t = i32_text(*i);
                Some(string_of(t.as_slice()))
            },
            Value::Float(_) => None,
            Value::String(s) => Some(s.clone()),
            Value::Bool(b) => Some(
                if *b {
                    String::from_str("true")
                } else {
                    String::from_str("false")
                },
            ),
        }
    }
}

/// The views of a sequence of values.
pub open spec fn views(s: Seq<Value>) -> Seq<ValueView> {
    s.map_values(|v: Value| v@)
}

// ---------------------------------------------------------------------
// Facts about binary64 bit patterns
// ---------------------------------------------------------------------

/// The sign bit.
pub open spec fn float_negative(b: u64) -> bool {
    b >= 0x8000_0000_0000_0000
}

/// The bits below the sign bit: exponent and fraction.
pub open spec fn float_magnitude(b: u64) -> int {
    (b % 0x8000_0000_0000_0000) as int
}

/// A NaN: all exponent bits set and a non-zero fraction, that is a
/// magnitude above that of infinity.
pub open spec fn float_is_nan(b: u64) -> bool {
    float_magnitude(b) > 0x7ff0_0000_0000_0000
}

/// Positive or negative zero.
pub open spec fn float_is_zero(b: u64) -> bool {
    float_magnitude(b) == 0
}

/// For values that are not NaN, an integer that orders them as their
/// numbers are ordered: the magnitude bits grow with the number, and
/// both zeros meet at 0.
pub open spec fn float_rank(b: u64) -> int {
    if float_negative(b) {
        -float_magnitude(b)
    } else {
        float_magnitude(b)
    }
}

/// `x == y` on `f64`.
pub open spec fn float_eq(x: u64, y: u64) -> bool {
    !float_is_nan(x) && !float_is_nan(y) && float_rank(x) == float_rank(y)
}

/// `x < y` on `f64`.
pub open spec fn float_lt(x: u64, y: u64) -> bool {
    !float_is_nan(x) && !float_is_nan(y) && float_rank(x) < float_rank(y)
}

/// `x <= y` on `f64`.
pub open spec fn float_le(x: u64, y: u64) -> bool {
    !float_is_nan(x) && !float_is_nan(y) && float_rank(x) <= float_rank(y)
}

/// The bits of `1.0`.
pub open spec fn float_one() -> u64 {
    0x3ff0_0000_0000_0000
}

pub fn is_nan_bits(b: u64) -> (r: bool)
    ensures
        r == float_is_nan(b),
{
    b % 0x8000_0000_0000_0000 > 0x7ff0_0000_0000_0000
}

pub fn is_zero_bits(b: u64) -> (r: bool)
    ensures
        r == float_is_zero(b),
{
    b % 0x8000_0000_0000_0000 == 0
}

fn rank_bits(b: u64) -> (r: i128)
    ensures
        r == float_rank(b),
{
    let m = (b % 0x8000_0000_0000_0000) as i128;
    if b >= 0x8000_0000_0000_0000 {
        -m
    } else {
        m
    }
}

pub fn float_equal(x: u64, y: u64) -> (r: bool)
    ensures
        r == float_eq(x, y),
{
    !is_nan_bits(x) && !is_nan_bits(y) && rank_bits(x) == rank_bits(y)
}

pub fn float_less(x: u64, y: u64) -> (r: bool)
    ensures
        r == float_lt(x, y),
{
    !is_nan_bits(x) && !is_nan_bits(y) && rank_bits(x) < rank_bits(y)
}

pub fn float_less_eq(x: u64, y: u64) -> (r: bool)
    ensures
        r == float_le(x, y),
{
    !is_nan_bits(x) && !is_nan_bits(y) && rank_bits(x) <= rank_bits(y)
}


// ---------------------------------------------------------------------
// Integers and binary64
// ---------------------------------------------------------------------

/// `2` to the power `n`.
pub open spec fn two_to(n: nat) -> nat
    decreases n,
{
    if n == 0 {
        1
    } else {
        2 * two_to((n - 1) as nat)
    }
}

/// The `2^52` that separates the fraction bits from the exponent bits.
pub open spec fn fraction_unit() -> int {
    0x10_0000_0000_0000
}

/// The biased exponent: the 11 bits above the fraction.
pub open spec fn float_exponent(b: u64) -> int {
    (b as int / fraction_unit()) % 2048
}

/// The 52 fraction bits.
pub open spec fn float_fraction(b: u64) -> int {
    b as int % fraction_unit()
}

/// Whether `b` is the binary64 number whose value is the integer `x`
/// (`+0.0` for zero): for `x != 0`, a normal number with the sign of `x`
/// whose significand `2^52 + fraction`, scaled by `2^(exponent - 1075)`,
/// is `|x|`. Only integers of magnitude below `2^53` have such bits.
pub open spec fn float_denotes_int(b: u64, x: int) -> bool {
    if x == 0 {
        b == 0
    } else {
        &&& float_negative(b) == (x < 0)
        &&& 1 <= float_exponent(b) <= 1075
        &&& two_to(52) + float_fraction(b) == (if x < 0 {
            -x
        } else {
            x
        }) * two_to((1075 - float_exponent(b)) as nat)
    }
}

/// `x as f64`, which is exact for `i32` values.
pub open spec fn int_as_float(x: i32) -> u64 {
    choose|b: u64| float_denotes_int(b, x as int)
}

pub proof fn lemma_two_to_adds(a: nat, b: nat)
    ensures
        two_to(a + b) == two_to(a) * two_to(b),
    decreases b,
{
    if b > 0 {
        let c = (b - 1) as nat;
        lemma_two_to_adds(a, c);
        let x = two_to(a);
        let y = two_to(c);
        assert((a + b - 1) as nat == a + c);
        assert(two_to(a + b) == 2 * two_to(a + c));
        assert(two_to(b) == 2 * y);
        assert(2 * (x * y) == x * (2 * y)) by (nonlinear_arith);
    } else {
        assert(a + b == a);
        assert(two_to(a) * 1 == two_to(a));
    }
}

pub proof fn lemma_two_to_positive(a: nat)
    ensures
        two_to(a) >= 1,
    decreases a,
{
    if a > 0 {
        lemma_two_to_positive((a - 1) as nat);
    }
}

pub proof fn lemma_two_to_monotone(a: nat, b: nat)
    requires
        a <= b,
    ensures
        two_to(a) <= two_to(b),
    decreases b,
{
    if a < b {
        lemma_two_to_monotone(a, (b - 1) as nat);
        lemma_two_to_positive((b - 1) as nat);
    }
}

proof fn lemma_two_to_52()
    ensures
        two_to(52) == fraction_unit(),
        two_to(31) == 0x8000_0000,
        two_to(21) == 0x20_0000,
        two_to(22) == 0x40_0000,
        two_to(53) == 0x20_0000_0000_0000,
{
    reveal_with_fuel(two_to, 54);
}

/// A bit pattern is its sign, exponent and fraction.
proof fn lemma_float_parts(b: u64)
    ensures
        0 <= float_exponent(b) < 2048,
        0 <= float_fraction(b) < fraction_unit(),
        b as int == (if float_negative(b) {
            0x8000_0000_0000_0000int
        } else {
            0
        }) + float_exponent(b) * fraction_unit() + float_fraction(b),
{
    let q = b as int / fraction_unit();
    let f = b as int % fraction_unit();
    vstd::arithmetic::div_mod::lemma_fundamental_div_mod(b as int, fraction_unit());
    assert(0 <= q < 4096);
    let s = q / 2048;
    let e = q % 2048;
    vstd::arithmetic::div_mod::lemma_fundamental_div_mod(q, 2048);
    assert(b as int == (2048 * s + e) * fraction_unit() + f);
    assert(s == 0 || s == 1);
}

/// Builds a bit pattern from its sign, exponent and fraction.
proof fn lemma_float_build(b: u64, negative: bool, e: int, f: int)
    requires
        0 <= e < 2048,
        0 <= f < fraction_unit(),
        b as int == (if negative {
            0x8000_0000_0000_0000int
        } else {
            0
        }) + e * fraction_unit() + f,
    ensures
        float_negative(b) == negative,
        float_exponent(b) == e,
        float_fraction(b) == f,
{
    let s: int = if negative {
        1
    } else {
        0
    };
    assert(b as int == (2048 * s + e) * fraction_unit() + f);
    vstd::arithmetic::div_mod::lemma_fundamental_div_mod_converse(
        b as int,
        fraction_unit(),
        2048 * s + e,
        f,
    );
    vstd::arithmetic::div_mod::lemma_fundamental_div_mod_converse(2048 * s + e, 2048, s, e);
}

/// Only one bit pattern stands for a given integer.
pub proof fn lemma_float_denotes_unique(b1: u64, b2: u64, x: int)
    requires
        float_denotes_int(b1, x),
        float_denotes_int(b2, x),
    ensures
        b1 == b2,
{
    if x != 0 {
        let a = if x < 0 {
            -x
        } else {
            x
        };
        let e1 = float_exponent(b1);
        let e2 = float_exponent(b2);
        lemma_float_parts(b1);
        lemma_float_parts(b2);
        lemma_two_to_52();
        lemma_exponent_order(a, e1, e2, float_fraction(b1), float_fraction(b2));
        lemma_exponent_order(a, e2, e1, float_fraction(b2), float_fraction(b1));
        assert(e1 == e2);
    }
}

/// The significand pins the exponent down: a larger exponent would need
/// a significand of `2^53` or more.
proof fn lemma_exponent_order(a: int, e1: int, e2: int, f1: int, f2: int)
    requires
        1 <= e1 <= 1075,
        1 <= e2 <= 1075,
        0 <= f1 < fraction_unit(),
        0 <= f2 < fraction_unit(),
        two_to(52) == fraction_unit(),
        two_to(52) + f1 == a * two_to((1075 - e1) as nat),
        two_to(52) + f2 == a * two_to((1075 - e2) as nat),
    ensures
        e1 >= e2,
{
    if e1 >= e2 {
        return;
    }
    let k1 = (1075 - e1) as nat;
    let k2 = (1075 - e2) as nat;
    let d = (e2 - e1) as nat;
    lemma_two_to_adds(k2, d);
    assert(k2 + d == k1);
    lemma_two_to_monotone(1, d);
    reveal_with_fuel(two_to, 2);
    assert(two_to(1) == 2);
    let m2 = a * two_to(k2);
    assert(a * two_to(k1) == m2 * two_to(d)) by (nonlinear_arith)
        requires
            two_to(k1) == two_to(k2) * two_to(d),
            m2 == a * two_to(k2),
    ;
    assert(m2 * two_to(d) >= 2 * m2) by (nonlinear_arith)
        requires
            two_to(d) >= 2,
            m2 >= 0,
    ;
}

/// `x as f64`.
pub fn int_to_float(x: i32) -> (b: u64)
    ensures
        float_denotes_int(b, x as int),
        b == int_as_float(x),
{
    if x == 0 {
        proof {
            assert(float_denotes_int(0, 0));
            lemma_float_denotes_unique(0, int_as_float(0), 0);
        }
        return 0;
    }
    let negative = x < 0;
    let a: u64 = if negative {
        (0i64 - x as i64) as u64
    } else {
        x as u64
    };
    proof {
        lemma_two_to_52();
    }
    // The highest power of two not above `a`.
    let mut pw: u64 = 1;
    let mut p: u64 = 0;
    while pw <= a / 2
        invariant
            1 <= a <= 0x8000_0000,
            pw == two_to(p as nat),
            1 <= pw <= a,
            p <= 31,
            two_to(31) == 0x8000_0000,
        decreases a - pw,
    {
        proof {
            if p == 31 {
                assert(false);
            }
        }
        pw = pw * 2;
        p = p + 1;
        proof {
            if p == 32 {
                lemma_two_to_monotone(31, p as nat);
            }
        }
    }
    assert(a < 2 * pw);
    // `2^(52 - p)`.
    let mut scale: u64 = 1;
    let mut k: u64 = 0;
    while k < 52 - p
        invariant
            p <= 31,
            k <= 52 - p,
            scale == two_to(k as nat),
            two_to(52) == fraction_unit(),
        decreases 52 - p - k,
    {
        proof {
            lemma_two_to_monotone((k + 1) as nat, 52);
        }
        scale = scale * 2;
        k = k + 1;
    }
    proof {
        lemma_two_to_positive(k as nat);
        lemma_two_to_adds(p as nat, (52 - p) as nat);
        assert(pw * scale == fraction_unit());
        assert((a - pw) * scale < pw * scale) by (nonlinear_arith)
            requires
                a - pw < pw,
                scale >= 1,
        ;
    }
    let frac: u64 = (a - pw) * scale;
    let e: u64 = 1023 + p;
    let sign: u64 = if negative {
        0x8000_0000_0000_0000
    } else {
        0
    };
    let b: u64 = sign + e * 0x10_0000_0000_0000 + frac;
    proof {
        lemma_float_build(b, negative, e as int, frac as int);
        assert(1075 - e == 52 - p);
        assert(pw * scale + (a - pw) * scale == a * scale) by (nonlinear_arith);
        assert(float_denotes_int(b, x as int));
        lemma_float_denotes_unique(b, int_as_float(x), x as int);
    }
    b
}


/// The significand of a finite number: the fraction, with the hidden bit
/// of normal numbers.
pub open spec fn float_significand(b: u64) -> int {
    if float_exponent(b) == 0 {
        float_fraction(b)
    } else {
        two_to(52) + float_fraction(b)
    }
}

/// The magnitude of a finite number rounded toward zero: the significand
/// scaled by `2^(e - 1075)`, where `e` is the exponent (1 for subnormals).
pub open spec fn float_trunc_magnitude(b: u64) -> int {
    let e = if float_exponent(b) == 0 {
        1
    } else {
        float_exponent(b)
    };
    let m = float_significand(b);
    if e >= 1075 {
        m * two_to((e - 1075) as nat)
    } else {
        m / (two_to((1075 - e) as nat) as int)
    }
}

/// The `i32` nearest to `x` (`x` itself when it fits).
pub open spec fn clamp_i32(x: int) -> i32 {
    if x < i32::MIN {
        i32::MIN
    } else if x > i32::MAX {
        i32::MAX
    } else {
        x as i32
    }
}

/// `f as i32`: a NaN gives 0, infinities and numbers out of range give
/// the nearest bound, other numbers are rounded toward zero.
pub open spec fn float_as_int(b: u64) -> i32 {
    if float_is_nan(b) {
        0
    } else if float_exponent(b) == 2047 {
        if float_negative(b) {
            i32::MIN
        } else {
            i32::MAX
        }
    } else {
        let t = float_trunc_magnitude(b);
        clamp_i32(
            if float_negative(b) {
                -t
            } else {
                t
            },
        )
    }
}

/// `f as i32`.
pub fn float_to_int(b: u64) -> (r: i32)
    ensures
        r == float_as_int(b),
{
    proof {
        lemma_float_parts(b);
        lemma_two_to_52();
        lemma_float_build(b, float_negative(b), float_exponent(b), float_fraction(b));
    }
    if is_nan_bits(b) {
        return 0;
    }
    let e: u64 = (b / 0x10_0000_0000_0000) % 2048;
    let f: u64 = b % 0x10_0000_0000_0000;
    let negative = b >= 0x8000_0000_0000_0000;
    assert(e == float_exponent(b) && f == float_fraction(b));
    if e == 2047 {
        return if negative {
            i32::MIN
        } else {
            i32::MAX
        };
    }
    let ghost m = float_significand(b);
    if e < 1023 {
        proof {
            let k: nat = if e == 0 {
                1074
            } else {
                (1075 - e) as nat
            };
            lemma_two_to_monotone(53, k);
            vstd::arithmetic::div_mod::lemma_basic_div(m, two_to(k) as int);
        }
        return 0;
    }
    if e >= 1054 {
        proof {
            if e >= 1075 {
                lemma_two_to_positive((e - 1075) as nat);
                assert(m * two_to((e - 1075) as nat) >= m) by (nonlinear_arith)
                    requires
                        m >= 0,
                        two_to((e - 1075) as nat) >= 1,
                ;
            } else {
                let k = (1075 - e) as nat;
                lemma_two_to_monotone(k, 21);
                lemma_two_to_positive(k);
                vstd::arithmetic::div_mod::lemma_div_is_ordered_by_denominator(
                    m,
                    two_to(k) as int,
                    two_to(21) as int,
                );
                vstd::arithmetic::div_mod::lemma_div_is_ordered(
                    two_to(52) as int,
                    m,
                    two_to(21) as int,
                );
            }
        }
        return if negative {
            i32::MIN
        } else {
            i32::MAX
        };
    }
    let m_exec: u64 = 0x10_0000_0000_0000 + f;
    let mut d: u64 = 1;
    let mut k: u64 = 0;
    while k < 1075 - e
        invariant
            1023 <= e <= 1053,
            k <= 1075 - e,
            d == two_to(k as nat),
            two_to(53) == 0x20_0000_0000_0000,
        decreases 1075 - e - k,
    {
        proof {
            lemma_two_to_monotone((k + 1) as nat, 53);
        }
        d = d * 2;
        k = k + 1;
    }
    proof {
        lemma_two_to_monotone(22, k as nat);
        vstd::arithmetic::div_mod::lemma_div_is_ordered_by_denominator(
            m,
            two_to(22) as int,
            d as int,
        );
        vstd::arithmetic::div_mod::lemma_div_is_ordered(
            m,
            0x20_0000_0000_0000 - 1,
            two_to(22) as int,
        );
    }
    let mag: u64 = m_exec / d;
    assert(mag < 0x8000_0000);
    if negative {
        (0i64 - mag as i64) as i32
    } else {
        mag as i32
    }
}


/// The order of floats, NaN aside: of two floats one is less than the
/// other or they are equal, and only one of these; `<=` is `<` or `==`;
/// equality is reflexive and symmetric, and `<` transitive.
pub proof fn law_float_order(x: u64, y: u64, z: u64)
    requires
        !float_is_nan(x),
        !float_is_nan(y),
    ensures
        float_lt(x, y) || float_eq(x, y) || float_lt(y, x),
        !(float_lt(x, y) && float_eq(x, y)),
        !(float_lt(x, y) && float_lt(y, x)),
        float_le(x, y) == (float_lt(x, y) || float_eq(x, y)),
        float_eq(x, x),
        float_eq(x, y) == float_eq(y, x),
        float_lt(x, y) && float_lt(y, z) ==> float_lt(x, z),
{
}

/// Floats are ordered by their bits: two without the sign bit as their
/// bits are, two with it the other way round, and one with the sign bit
/// before one without, save the two zeros (bits equal to 0 below the sign
/// bit), which are equal.
pub proof fn law_float_order_follows_the_bits(x: u64, y: u64)
    requires
        !float_is_nan(x),
        !float_is_nan(y),
    ensures
        x < 0x8000_0000_0000_0000 && y < 0x8000_0000_0000_0000 ==> (float_lt(x, y) <==> x < y)
            && (float_eq(x, y) <==> x == y),
        x >= 0x8000_0000_0000_0000 && y >= 0x8000_0000_0000_0000 ==> (float_lt(x, y) <==> y < x)
            && (float_eq(x, y) <==> x == y),
        x >= 0x8000_0000_0000_0000 && y < 0x8000_0000_0000_0000 ==> (float_lt(x, y) <==> !(x
            == 0x8000_0000_0000_0000 && y == 0)),
        x % 0x8000_0000_0000_0000 == 0 && y % 0x8000_0000_0000_0000 == 0 ==> float_eq(x, y),
{
}

/// `f as i32` on the special values and small numbers: a NaN gives 0,
/// infinity `i32::MAX` and minus infinity `i32::MIN`; a number of
/// magnitude below 1.0 (bits below those of 1.0 under the sign bit) is
/// rounded toward zero, to 0.
pub proof fn law_float_to_int_edges(b: u64)
    ensures
        float_is_nan(b) ==> float_as_int(b) == 0,
        b == 0x7ff0_0000_0000_0000 ==> float_as_int(b) == i32::MAX,
        b == 0xfff0_0000_0000_0000 ==> float_as_int(b) == i32::MIN,
        b % 0x8000_0000_0000_0000 < 0x3ff0_0000_0000_0000 ==> float_as_int(b) == 0,
{
    lemma_float_parts(b);
    if b % 0x8000_0000_0000_0000 < 0x3ff0_0000_0000_0000 {
        let e = float_exponent(b);
        let f = float_fraction(b);
        assert(b % 0x8000_0000_0000_0000 == e * fraction_unit() + f);
        assert(e < 1023) by (nonlinear_arith)
            requires
                e * fraction_unit() + f < 0x3ff0_0000_0000_0000,
                f >= 0,
                fraction_unit() == 0x10_0000_0000_0000,
        ;
        lemma_two_to_52();
        let e1 = if e == 0 {
            1
        } else {
            e
        };
        let k = (1075 - e1) as nat;
        lemma_two_to_monotone(53, k);
        let m = float_significand(b);
        assert(0 <= m < two_to(k));
        assert(m / (two_to(k) as int) == 0) by (nonlinear_arith)
            requires
                0 <= m < two_to(k),
        ;
        assert(float_trunc_magnitude(b) == 0);
    }
}

/// `f as i32` saturates: a number of magnitude `2^31` or more (bits from
/// those of `2^31` up under the sign bit, NaNs aside) gives `i32::MAX`
/// when positive and `i32::MIN` when negative.
pub proof fn law_float_to_int_saturates(b: u64)
    requires
        !float_is_nan(b),
        b % 0x8000_0000_0000_0000 >= 0x41e0_0000_0000_0000,
    ensures
        float_as_int(b) == if b < 0x8000_0000_0000_0000 {
            i32::MAX
        } else {
            i32::MIN
        },
{
    lemma_float_parts(b);
    lemma_two_to_52();
    let e = float_exponent(b);
    let f = float_fraction(b);
    assert(b % 0x8000_0000_0000_0000 == e * fraction_unit() + f);
    assert(e >= 1054) by (nonlinear_arith)
        requires
            e * fraction_unit() + f >= 0x41e0_0000_0000_0000,
            f < fraction_unit(),
            fraction_unit() == 0x10_0000_0000_0000,
    ;
    if e != 2047 {
        let m = float_significand(b);
        assert(m >= 0x10_0000_0000_0000);
        if e >= 1075 {
            let k = (e - 1075) as nat;
            lemma_two_to_positive(k);
            assert(m * two_to(k) >= m) by (nonlinear_arith)
                requires
                    m >= 0,
                    two_to(k) >= 1,
            ;
        } else {
            let k = (1075 - e) as nat;
            lemma_two_to_monotone(k, 21);
            lemma_two_to_positive(k);
            let d = two_to(k) as int;
            vstd::arithmetic::div_mod::lemma_div_is_ordered(0x10_0000_0000_0000, m, d);
            vstd::arithmetic::div_mod::lemma_div_is_ordered_by_denominator(
                0x10_0000_0000_0000,
                d,
                0x20_0000,
            );
            assert(0x10_0000_0000_0000int / 0x20_0000int == 0x8000_0000);
        }
        assert(float_trunc_magnitude(b) >= 0x8000_0000);
    }
}

/// Converting an integer to `f64` and back gives the integer: for every
/// `i32` `x`, `(x as f64) as i32 == x`.
pub proof fn law_int_float_round_trip(x: i32)
    ensures
        float_as_int(int_as_float(x)) == x,
{
    let b = int_to_float_spec_witness(x);
    if x != 0 {
        let a: int = if x < 0 {
            -(x as int)
        } else {
            x as int
        };
        let e = float_exponent(b);
        let f = float_fraction(b);
        let k = (1075 - e) as nat;
        lemma_two_to_52();
        lemma_float_parts(b);
        assert(two_to(52) + f == a * two_to(k));
        if k >= 53 {
            lemma_two_to_monotone(53, k);
            assert(a * two_to(k) >= two_to(k)) by (nonlinear_arith)
                requires
                    a >= 1,
                    two_to(k) >= 0,
            ;
        }
        assert(e >= 1023);
        if k == 0 {
            assert(two_to(k) == 1);
            assert(a * two_to(k) == a * 1);
        }
        assert(e < 1075);
        assert(float_magnitude(b) == e * fraction_unit() + f);
        lemma_two_to_positive(k);
        vstd::arithmetic::div_mod::lemma_div_multiples_vanish(a, two_to(k) as int);
        assert((two_to(k) * a) / (two_to(k) as int) == a);
        assert(a * two_to(k) == two_to(k) * a) by (nonlinear_arith);
        assert(float_significand(b) == two_to(52) + f);
        assert(float_trunc_magnitude(b) == a);
    } else {
        assert(b == 0);
        lemma_two_to_positive(1074);
        assert(float_exponent(b) == 0);
        assert(float_fraction(b) == 0);
        assert(float_trunc_magnitude(b) == 0);
    }
}

/// An integer converted to `f64` is not a NaN.
pub proof fn lemma_int_float_not_nan(x: i32)
    ensures
        !float_is_nan(int_as_float(x)),
{
    let b = int_to_float_spec_witness(x);
    lemma_float_parts(b);
    if x != 0 {
        assert(float_magnitude(b) == float_exponent(b) * fraction_unit() + float_fraction(b));
    }
}

/// The bits of an integer converted to `f64` exist and are `int_as_float`.
proof fn int_to_float_spec_witness(x: i32) -> (b: u64)
    ensures
        b == int_as_float(x),
        float_denotes_int(b, x as int),
{
    let b = choose|b: u64| float_denotes_int(b, x as int);
    if !float_denotes_int(b, x as int) {
        lemma_int_has_float(x);
    }
    b
}


/// The exponent of the highest power of two not above `a` (for `a >= 1`).
pub open spec fn top_power(a: nat) -> nat
    decreases a,
{
    if a < 2 {
        0
    } else {
        1 + top_power(a / 2)
    }
}

proof fn lemma_top_power(a: nat)
    requires
        a >= 1,
    ensures
        two_to(top_power(a)) <= a < 2 * two_to(top_power(a)),
    decreases a,
{
    if a >= 2 {
        lemma_top_power(a / 2);
    }
}

/// Every `i32` has bits as an `f64`.
proof fn lemma_int_has_float(x: i32)
    ensures
        exists|b: u64| float_denotes_int(b, x as int),
{
    if x == 0 {
        assert(float_denotes_int(0, 0));
    } else {
        let a: nat = if x < 0 {
            (-(x as int)) as nat
        } else {
            x as nat
        };
        let p = top_power(a);
        lemma_top_power(a);
        lemma_two_to_52();
        if p > 31 {
            lemma_two_to_monotone(32, p);
            reveal_with_fuel(two_to, 33);
        }
        assert(p <= 31);
        let pw = two_to(p);
        let scale = two_to((52 - p) as nat);
        lemma_two_to_adds(p, (52 - p) as nat);
        lemma_two_to_positive((52 - p) as nat);
        assert(pw * scale == fraction_unit());
        let frac = (a - pw) * scale;
        assert(0 <= frac < pw * scale) by (nonlinear_arith)
            requires
                0 <= a - pw < pw,
                scale >= 1,
                frac == (a - pw) * scale,
        ;
        let e = 1023 + p;
        let negative = x < 0;
        let bits: int = (if negative {
            0x8000_0000_0000_0000int
        } else {
            0
        }) + e * fraction_unit() + frac;
        assert(0 <= bits <= u64::MAX);
        let b = bits as u64;
        lemma_float_build(b, negative, e as int, frac);
        assert(pw * scale + (a - pw) * scale == a * scale) by (nonlinear_arith);
        assert((1075 - e) as nat == (52 - p) as nat);
        assert(float_denotes_int(b, x as int));
    }
}

} // verus!
