//! What each operation of the machine computes, stated in terms of its
//! operands: which of the two values is the left operand, what value is
//! pushed, what the host is asked for, and when the jump of `jumpif` is
//! taken.
use vstd::prelude::*;

use crate::error::VmErrorView;
use crate::instruction::{InstrView, keyword};
use crate::text::{
    int_text, is_space, law_i32_text_parses_back, law_trim_strips_padding, lemma_int_text_shape,
    remove_all, text_lt, trimmed,
};
use crate::value::{
    ValueView, display_text, float_eq, float_is_nan, float_is_zero, float_le, float_lt,
    int_as_float,
};
use crate::vm::{
    ActionView, ArithOp, CmpOp, Effect, MachineView, ReplyView, abs, add_effect, answers,
    as_float_bits, binary_effect, float_pair, is_binary, is_unary, is_zero_divisor,
    compare_effect, div_effect, fits_i32, jump_matches, mul_effect, overflows, quotient,
    resume_spec, step_spec, sub_effect, unary_effect,
};

verus! {

// ---------------------------------------------------------------------
// Shapes of a step
// ---------------------------------------------------------------------

/// Whether `a` and `b` are the two values on top of the stack, `b` on top.
pub open spec fn operands(m: MachineView, a: ValueView, b: ValueView) -> bool {
    &&& m.stack.len() >= 2
    &&& m.stack[m.stack.len() - 2] == a
    &&& m.stack.last() == b
}

/// The machine after an instruction that took the top `k` values and
/// pushed `v` in their place: at the next instruction, its variables
/// untouched.
pub open spec fn replaced(m: MachineView, k: int, v: ValueView) -> MachineView {
    MachineView { stack: m.stack.take(m.stack.len() - k).push(v), vars: m.vars, ip: m.ip + 1 }
}

/// Whether the step replaces the top `k` values by `v` and goes on.
pub open spec fn step_pushes(m: MachineView, prog: Seq<InstrView>, k: int, v: ValueView) -> bool {
    step_spec(m, prog) == (replaced(m, k, v), Ok::<ActionView, VmErrorView>(ActionView::Continue))
}

/// Whether the step leaves the machine as it is and asks the host for `a`.
pub open spec fn step_asks(m: MachineView, prog: Seq<InstrView>, a: ActionView) -> bool {
    step_spec(m, prog) == (m, Ok::<ActionView, VmErrorView>(a))
}

// ---------------------------------------------------------------------
// Comparisons
// ---------------------------------------------------------------------

/// Comparing two integers pushes whether the lower one, `x`, stands in
/// the relation to the upper one, `y`: `gt` pushes whether `x > y`, so
/// `false` on two equal integers, and `le` whether `x <= y`, so `true`
/// on them.
pub proof fn law_integer_comparisons(x: i32, y: i32, ip: usize)
    ensures
        compare_effect(CmpOp::Eq, ValueView::Int(x), ValueView::Int(y), ip) == Effect::Push(
            ValueView::Bool(x == y),
        ),
        compare_effect(CmpOp::Ne, ValueView::Int(x), ValueView::Int(y), ip) == Effect::Push(
            ValueView::Bool(x != y),
        ),
        compare_effect(CmpOp::Gt, ValueView::Int(x), ValueView::Int(y), ip) == Effect::Push(
            ValueView::Bool(x > y),
        ),
        compare_effect(CmpOp::Lt, ValueView::Int(x), ValueView::Int(y), ip) == Effect::Push(
            ValueView::Bool(x < y),
        ),
        compare_effect(CmpOp::Ge, ValueView::Int(x), ValueView::Int(y), ip) == Effect::Push(
            ValueView::Bool(x >= y),
        ),
        compare_effect(CmpOp::Le, ValueView::Int(x), ValueView::Int(y), ip) == Effect::Push(
            ValueView::Bool(x <= y),
        ),
        compare_effect(CmpOp::Gt, ValueView::Int(x), ValueView::Int(x), ip) == Effect::Push(
            ValueView::Bool(false),
        ),
        compare_effect(CmpOp::Le, ValueView::Int(x), ValueView::Int(x), ip) == Effect::Push(
            ValueView::Bool(true),
        ),
{
}

/// On a machine whose two top values are the integers `x` below `y`, each
/// comparison instruction replaces them by the truth of `x` compared with
/// `y`, and the machine goes on with the next instruction.
pub proof fn law_integer_comparison_steps(m: MachineView, prog: Seq<InstrView>, x: i32, y: i32)
    requires
        0 <= m.ip < prog.len(),
        operands(m, ValueView::Int(x), ValueView::Int(y)),
    ensures
        prog[m.ip] == InstrView::Eq ==> step_pushes(m, prog, 2, ValueView::Bool(x == y)),
        prog[m.ip] == InstrView::Ne ==> step_pushes(m, prog, 2, ValueView::Bool(x != y)),
        prog[m.ip] == InstrView::Gt ==> step_pushes(m, prog, 2, ValueView::Bool(x > y)),
        prog[m.ip] == InstrView::Lt ==> step_pushes(m, prog, 2, ValueView::Bool(x < y)),
        prog[m.ip] == InstrView::Ge ==> step_pushes(m, prog, 2, ValueView::Bool(x >= y)),
        prog[m.ip] == InstrView::Le ==> step_pushes(m, prog, 2, ValueView::Bool(x <= y)),
{
}

/// Strings compare in the order of texts, the lower string on the left:
/// `eq` and `ne` push whether they are the same, `lt` whether the lower
/// comes before the upper, `gt` whether it comes after, and `le` and `ge`
/// the negations of `gt` and `lt`.
pub proof fn law_string_comparisons(x: Seq<char>, y: Seq<char>, ip: usize)
    ensures
        compare_effect(CmpOp::Eq, ValueView::Str(x), ValueView::Str(y), ip) == Effect::Push(
            ValueView::Bool(x == y),
        ),
        compare_effect(CmpOp::Ne, ValueView::Str(x), ValueView::Str(y), ip) == Effect::Push(
            ValueView::Bool(x != y),
        ),
        compare_effect(CmpOp::Lt, ValueView::Str(x), ValueView::Str(y), ip) == Effect::Push(
            ValueView::Bool(text_lt(x, y)),
        ),
        compare_effect(CmpOp::Gt, ValueView::Str(x), ValueView::Str(y), ip) == Effect::Push(
            ValueView::Bool(text_lt(y, x)),
        ),
        compare_effect(CmpOp::Le, ValueView::Str(x), ValueView::Str(y), ip) == Effect::Push(
            ValueView::Bool(!text_lt(y, x)),
        ),
        compare_effect(CmpOp::Ge, ValueView::Str(x), ValueView::Str(y), ip) == Effect::Push(
            ValueView::Bool(!text_lt(x, y)),
        ),
{
}

/// A text comes before every longer text that starts with it.
pub proof fn law_prefix_comes_first(p: Seq<char>, z: Seq<char>)
    requires
        z.len() > 0,
    ensures
        text_lt(p, p + z),
        !text_lt(p + z, p),
    decreases p.len(),
{
    if p.len() > 0 {
        assert((p + z).drop_first() =~= p.drop_first() + z);
        assert((p + z)[0] == p[0]);
        law_prefix_comes_first(p.drop_first(), z);
    }
}

/// Of two texts that agree up to a point and then differ, the one with
/// the smaller character there comes first, whatever follows.
pub proof fn law_first_difference_decides(
    p: Seq<char>,
    c: char,
    d: char,
    s: Seq<char>,
    t: Seq<char>,
)
    requires
        c != d,
    ensures
        text_lt(p + seq![c] + s, p + seq![d] + t) == ((c as u32) < (d as u32)),
    decreases p.len(),
{
    let a = p + seq![c] + s;
    let b = p + seq![d] + t;
    if p.len() > 0 {
        assert(a.drop_first() =~= p.drop_first() + seq![c] + s);
        assert(b.drop_first() =~= p.drop_first() + seq![d] + t);
        assert(a[0] == p[0]);
        assert(b[0] == p[0]);
        law_first_difference_decides(p.drop_first(), c, d, s, t);
    } else {
        assert(a[0] == c);
        assert(b[0] == d);
    }
}

/// Booleans compare for equality only: `eq` and `ne` push whether they
/// are the same or differ; an ordering fails with a type mismatch that
/// names the operation and both operands.
pub proof fn law_boolean_comparisons(x: bool, y: bool, ip: usize)
    ensures
        compare_effect(CmpOp::Eq, ValueView::Bool(x), ValueView::Bool(y), ip) == Effect::Push(
            ValueView::Bool(x == y),
        ),
        compare_effect(CmpOp::Ne, ValueView::Bool(x), ValueView::Bool(y), ip) == Effect::Push(
            ValueView::Bool(x != y),
        ),
        compare_effect(CmpOp::Gt, ValueView::Bool(x), ValueView::Bool(y), ip) == Effect::Fail(
            VmErrorView::TypeMismatch {
                operation: "gt"@,
                left: ValueView::Bool(x),
                right: ValueView::Bool(y),
                ip,
            },
        ),
        compare_effect(CmpOp::Lt, ValueView::Bool(x), ValueView::Bool(y), ip) == Effect::Fail(
            VmErrorView::TypeMismatch {
                operation: "lt"@,
                left: ValueView::Bool(x),
                right: ValueView::Bool(y),
                ip,
            },
        ),
        compare_effect(CmpOp::Ge, ValueView::Bool(x), ValueView::Bool(y), ip) == Effect::Fail(
            VmErrorView::TypeMismatch {
                operation: "ge"@,
                left: ValueView::Bool(x),
                right: ValueView::Bool(y),
                ip,
            },
        ),
        compare_effect(CmpOp::Le, ValueView::Bool(x), ValueView::Bool(y), ip) == Effect::Fail(
            VmErrorView::TypeMismatch {
                operation: "le"@,
                left: ValueView::Bool(x),
                right: ValueView::Bool(y),
                ip,
            },
        ),
{
}

/// Two floats compare as `f64` values, the lower one on the left; an
/// integer compared with a float is converted to `f64` first, on its own
/// side.
pub proof fn law_float_comparisons(fa: u64, fb: u64, x: i32, ip: usize)
    ensures
        compare_effect(CmpOp::Eq, ValueView::Float(fa), ValueView::Float(fb), ip) == Effect::Push(
            ValueView::Bool(float_eq(fa, fb)),
        ),
        compare_effect(CmpOp::Ne, ValueView::Float(fa), ValueView::Float(fb), ip) == Effect::Push(
            ValueView::Bool(!float_eq(fa, fb)),
        ),
        compare_effect(CmpOp::Lt, ValueView::Float(fa), ValueView::Float(fb), ip) == Effect::Push(
            ValueView::Bool(float_lt(fa, fb)),
        ),
        compare_effect(CmpOp::Gt, ValueView::Float(fa), ValueView::Float(fb), ip) == Effect::Push(
            ValueView::Bool(float_lt(fb, fa)),
        ),
        compare_effect(CmpOp::Le, ValueView::Float(fa), ValueView::Float(fb), ip) == Effect::Push(
            ValueView::Bool(float_le(fa, fb)),
        ),
        compare_effect(CmpOp::Ge, ValueView::Float(fa), ValueView::Float(fb), ip) == Effect::Push(
            ValueView::Bool(float_le(fb, fa)),
        ),
        compare_effect(CmpOp::Lt, ValueView::Int(x), ValueView::Float(fb), ip) == Effect::Push(
            ValueView::Bool(float_lt(int_as_float(x), fb)),
        ),
        compare_effect(CmpOp::Lt, ValueView::Float(fa), ValueView::Int(x), ip) == Effect::Push(
            ValueView::Bool(float_lt(fa, int_as_float(x))),
        ),
        compare_effect(CmpOp::Eq, ValueView::Int(x), ValueView::Float(fb), ip) == Effect::Push(
            ValueView::Bool(float_eq(int_as_float(x), fb)),
        ),
{
}

/// A NaN makes every comparison false but `ne`, which is true.
pub proof fn law_nan_compares_false(fa: u64, fb: u64, ip: usize)
    requires
        float_is_nan(fa) || float_is_nan(fb),
    ensures
        compare_effect(CmpOp::Eq, ValueView::Float(fa), ValueView::Float(fb), ip) == Effect::Push(
            ValueView::Bool(false),
        ),
        compare_effect(CmpOp::Ne, ValueView::Float(fa), ValueView::Float(fb), ip) == Effect::Push(
            ValueView::Bool(true),
        ),
        compare_effect(CmpOp::Lt, ValueView::Float(fa), ValueView::Float(fb), ip) == Effect::Push(
            ValueView::Bool(false),
        ),
        compare_effect(CmpOp::Gt, ValueView::Float(fa), ValueView::Float(fb), ip) == Effect::Push(
            ValueView::Bool(false),
        ),
        compare_effect(CmpOp::Le, ValueView::Float(fa), ValueView::Float(fb), ip) == Effect::Push(
            ValueView::Bool(false),
        ),
        compare_effect(CmpOp::Ge, ValueView::Float(fa), ValueView::Float(fb), ip) == Effect::Push(
            ValueView::Bool(false),
        ),
{
}

/// Exchanging the operands exchanges `gt` with `lt` and `ge` with `le`,
/// and changes neither `eq` nor `ne`: on two integers, two strings, or
/// numbers among which a float.
pub proof fn law_comparisons_swap(a: ValueView, b: ValueView, ip: usize)
    requires
        (a is Int && b is Int) || (a is Str && b is Str) || ((a is Int || a is Float) && (
        b is Int || b is Float) && (a is Float || b is Float)),
    ensures
        compare_effect(CmpOp::Gt, a, b, ip) == compare_effect(CmpOp::Lt, b, a, ip),
        compare_effect(CmpOp::Ge, a, b, ip) == compare_effect(CmpOp::Le, b, a, ip),
        compare_effect(CmpOp::Eq, a, b, ip) == compare_effect(CmpOp::Eq, b, a, ip),
        compare_effect(CmpOp::Ne, a, b, ip) == compare_effect(CmpOp::Ne, b, a, ip),
{
}

// ---------------------------------------------------------------------
// Arithmetic
// ---------------------------------------------------------------------

/// Integer division rounds toward zero: the remainder is smaller than the
/// divisor, has the sign of the dividend (or is zero), and the quotient
/// is no larger than the dividend.
proof fn lemma_truncated_division(x: int, y: int)
    requires
        y != 0,
    ensures
        abs(x - quotient(x, y) * y) < abs(y),
        x - quotient(x, y) * y == 0 || (x - quotient(x, y) * y < 0) == (x < 0),
        abs(quotient(x, y)) <= abs(x),
{
    let a = abs(x);
    let b = abs(y);
    let q = a / b;
    let r = a % b;
    vstd::arithmetic::div_mod::lemma_fundamental_div_mod(a, b);
    vstd::arithmetic::div_mod::lemma_mod_pos_bound(a, b);
    vstd::arithmetic::div_mod::lemma_div_pos_is_pos(a, b);
    assert(q <= a) by (nonlinear_arith)
        requires
            a == b * q + r,
            b >= 1,
            0 <= r,
            q >= 0,
    ;
    assert(x - quotient(x, y) * y == if x < 0 {
        -r
    } else {
        r
    }) by (nonlinear_arith)
        requires
            a == b * q + r,
            a == abs(x),
            b == abs(y),
            quotient(x, y) == if (x < 0) == (y < 0) {
                q
            } else {
                -q
            },
    ;
}

/// Integer arithmetic takes the lower integer `x` as its left operand:
/// `add` pushes the sum, `sub` the difference `x - y`, `mul` the product
/// and `div` the quotient rounded toward zero (`-7 / 2` is `-3`); a zero
/// divisor fails. Results that do not fit in `i32` are left out: the
/// machine is not stepped there.
pub proof fn law_integer_arithmetic(x: i32, y: i32, ip: usize)
    ensures
        i32::MIN <= x + y <= i32::MAX ==> (add_effect(ValueView::Int(x), ValueView::Int(y), ip)
            matches Effect::Push(ValueView::Int(r)) && r == x + y),
        i32::MIN <= x - y <= i32::MAX ==> (sub_effect(ValueView::Int(x), ValueView::Int(y), ip)
            matches Effect::Push(ValueView::Int(r)) && r == x - y),
        i32::MIN <= x * y <= i32::MAX ==> (mul_effect(ValueView::Int(x), ValueView::Int(y), ip)
            matches Effect::Push(ValueView::Int(r)) && r == x * y),
        y != 0 && !(x == i32::MIN && y == -1) ==> (div_effect(
            ValueView::Int(x),
            ValueView::Int(y),
            ip,
        ) matches Effect::Push(ValueView::Int(q)) && {
            &&& abs(x - q * y) < abs(y as int)
            &&& (x - q * y == 0 || (x - q * y < 0) == (x < 0))
        }),
        y == 0 ==> div_effect(ValueView::Int(x), ValueView::Int(y), ip) == Effect::Fail(
            VmErrorView::DivisionByZero { ip },
        ),
{
    if y != 0 {
        lemma_truncated_division(x as int, y as int);
        let q = quotient(x as int, y as int);
        if !(x == i32::MIN && y == -1) {
            assert(i32::MIN <= q <= i32::MAX) by (nonlinear_arith)
                requires
                    abs(q) <= abs(x as int),
                    abs(x as int - q * y) < abs(y as int),
                    i32::MIN <= x <= i32::MAX,
                    y != 0,
                    !(x == i32::MIN && y == -1),
            ;
        }
    }
}

/// Strings: `add` joins the lower string and then the upper one; `sub`
/// removes the upper string from the lower one, so that removing the
/// empty string changes nothing and a string less itself is empty.
pub proof fn law_string_arithmetic(x: Seq<char>, y: Seq<char>, ip: usize)
    ensures
        add_effect(ValueView::Str(x), ValueView::Str(y), ip) == Effect::Push(ValueView::Str(x + y)),
        sub_effect(ValueView::Str(x), ValueView::Str(y), ip) == Effect::Push(
            ValueView::Str(remove_all(x, y)),
        ),
        sub_effect(ValueView::Str(x), ValueView::Str(Seq::empty()), ip) == Effect::Push(
            ValueView::Str(x),
        ),
        sub_effect(ValueView::Str(x), ValueView::Str(x), ip) == Effect::Push(
            ValueView::Str(Seq::empty()),
        ),
{
    if x.len() > 0 {
        assert(x.take(x.len() as int) =~= x);
        assert(x.skip(x.len() as int) =~= Seq::<char>::empty());
        assert(remove_all(x.skip(x.len() as int), x) == Seq::<char>::empty());
        assert(remove_all(x, x) == Seq::<char>::empty());
    } else {
        assert(x =~= Seq::<char>::empty());
    }
}

/// Arithmetic on numbers among which a float is the host's work: the
/// step leaves the machine as it is and asks for `left op right` on the
/// two values as `f64`, the lower value on the left and an integer
/// converted (so `sub` on 5.5 below 2.0 asks for 5.5 - 2.0). Division by
/// a zero, integer or float, fails instead.
pub proof fn law_float_arithmetic(fa: u64, fb: u64, x: i32, ip: usize)
    ensures
        add_effect(ValueView::Float(fa), ValueView::Float(fb), ip) == Effect::Ask(
            ActionView::Arith(ArithOp::Add, fa, fb),
        ),
        sub_effect(ValueView::Float(fa), ValueView::Float(fb), ip) == Effect::Ask(
            ActionView::Arith(ArithOp::Sub, fa, fb),
        ),
        mul_effect(ValueView::Float(fa), ValueView::Float(fb), ip) == Effect::Ask(
            ActionView::Arith(ArithOp::Mul, fa, fb),
        ),
        !float_is_zero(fb) ==> div_effect(ValueView::Float(fa), ValueView::Float(fb), ip)
            == Effect::Ask(ActionView::Arith(ArithOp::Div, fa, fb)),
        float_is_zero(fb) ==> div_effect(ValueView::Float(fa), ValueView::Float(fb), ip)
            == Effect::Fail(VmErrorView::DivisionByZero { ip }),
        add_effect(ValueView::Int(x), ValueView::Float(fb), ip) == Effect::Ask(
            ActionView::Arith(ArithOp::Add, int_as_float(x), fb),
        ),
        add_effect(ValueView::Float(fa), ValueView::Int(x), ip) == Effect::Ask(
            ActionView::Arith(ArithOp::Add, fa, int_as_float(x)),
        ),
        sub_effect(ValueView::Int(x), ValueView::Float(fb), ip) == Effect::Ask(
            ActionView::Arith(ArithOp::Sub, int_as_float(x), fb),
        ),
        sub_effect(ValueView::Float(fa), ValueView::Int(x), ip) == Effect::Ask(
            ActionView::Arith(ArithOp::Sub, fa, int_as_float(x)),
        ),
        mul_effect(ValueView::Int(x), ValueView::Float(fb), ip) == Effect::Ask(
            ActionView::Arith(ArithOp::Mul, int_as_float(x), fb),
        ),
        mul_effect(ValueView::Float(fa), ValueView::Int(x), ip) == Effect::Ask(
            ActionView::Arith(ArithOp::Mul, fa, int_as_float(x)),
        ),
        !float_is_zero(fb) ==> div_effect(ValueView::Int(x), ValueView::Float(fb), ip)
            == Effect::Ask(ActionView::Arith(ArithOp::Div, int_as_float(x), fb)),
        x != 0 ==> div_effect(ValueView::Float(fa), ValueView::Int(x), ip) == Effect::Ask(
            ActionView::Arith(ArithOp::Div, fa, int_as_float(x)),
        ),
        x == 0 ==> div_effect(ValueView::Float(fa), ValueView::Int(x), ip) == Effect::Fail(
            VmErrorView::DivisionByZero { ip },
        ),
{
}

/// The same for any two numbers among which a float, `a` below `b`: the
/// host is asked for `a op b`, each as `f64`, in that order for all four
/// operations.
pub proof fn law_float_operand_order(a: ValueView, b: ValueView, ip: usize)
    requires
        float_pair(a, b),
    ensures
        add_effect(a, b, ip) == Effect::Ask(
            ActionView::Arith(ArithOp::Add, as_float_bits(a), as_float_bits(b)),
        ),
        sub_effect(a, b, ip) == Effect::Ask(
            ActionView::Arith(ArithOp::Sub, as_float_bits(a), as_float_bits(b)),
        ),
        mul_effect(a, b, ip) == Effect::Ask(
            ActionView::Arith(ArithOp::Mul, as_float_bits(a), as_float_bits(b)),
        ),
        !is_zero_divisor(b) ==> div_effect(a, b, ip) == Effect::Ask(
            ActionView::Arith(ArithOp::Div, as_float_bits(a), as_float_bits(b)),
        ),
        a matches ValueView::Float(fa) ==> as_float_bits(a) == fa,
        a matches ValueView::Int(x) ==> as_float_bits(a) == int_as_float(x),
        b matches ValueView::Float(fb) ==> as_float_bits(b) == fb,
        b matches ValueView::Int(y) ==> as_float_bits(b) == int_as_float(y),
{
}

/// On a machine whose two top values are the floats `fa` below `fb`,
/// `add`, `sub`, `mul` and `div` (by a non-zero) ask the host for `fa op
/// fb` and leave the machine as it is; the host's result `r` then takes
/// the place of the two operands, and the machine goes on.
pub proof fn law_float_arithmetic_steps(
    m: MachineView,
    prog: Seq<InstrView>,
    fa: u64,
    fb: u64,
    r: u64,
)
    requires
        0 <= m.ip < prog.len(),
        operands(m, ValueView::Float(fa), ValueView::Float(fb)),
    ensures
        prog[m.ip] == InstrView::Add ==> step_asks(
            m,
            prog,
            ActionView::Arith(ArithOp::Add, fa, fb),
        ),
        prog[m.ip] == InstrView::Sub ==> step_asks(
            m,
            prog,
            ActionView::Arith(ArithOp::Sub, fa, fb),
        ),
        prog[m.ip] == InstrView::Mul ==> step_asks(
            m,
            prog,
            ActionView::Arith(ArithOp::Mul, fa, fb),
        ),
        prog[m.ip] == InstrView::Div && !float_is_zero(fb) ==> step_asks(
            m,
            prog,
            ActionView::Arith(ArithOp::Div, fa, fb),
        ),
        (prog[m.ip] == InstrView::Add || prog[m.ip] == InstrView::Sub || prog[m.ip]
            == InstrView::Mul || prog[m.ip] == InstrView::Div) ==> resume_spec(
            m,
            prog,
            ReplyView::Value(ValueView::Float(r)),
        ) == (replaced(m, 2, ValueView::Float(r)), Ok::<(), VmErrorView>(())),
{
}

// ---------------------------------------------------------------------
// Conversions
// ---------------------------------------------------------------------

/// The conversions between kinds of values: an integer is true when it is
/// not zero (a negative one too), a float when it is not a zero (either
/// sign); `true` is the integer 1, the float 1.0 and the text "true",
/// `false` is 0, 0.0 and "false"; `not` negates a boolean; an integer is
/// written in decimal; `inc` and `dec` add and take one.
pub proof fn law_conversions(x: i32, b: bool, f: u64, ip: usize)
    ensures
        unary_effect(InstrView::ItoB, ValueView::Int(x), ip) == Effect::Push(
            ValueView::Bool(x != 0),
        ),
        x < 0 ==> unary_effect(InstrView::ItoB, ValueView::Int(x), ip) == Effect::Push(
            ValueView::Bool(true),
        ),
        unary_effect(InstrView::FtoB, ValueView::Float(f), ip) == Effect::Push(
            ValueView::Bool(f % 0x8000_0000_0000_0000 != 0),
        ),
        unary_effect(InstrView::BtoI, ValueView::Bool(b), ip) == Effect::Push(
            ValueView::Int(
                if b {
                    1i32
                } else {
                    0i32
                },
            ),
        ),
        unary_effect(InstrView::BtoF, ValueView::Bool(b), ip) == Effect::Push(
            ValueView::Float(
                if b {
                    0x3ff0_0000_0000_0000u64
                } else {
                    0u64
                },
            ),
        ),
        unary_effect(InstrView::BtoS, ValueView::Bool(b), ip) == Effect::Push(
            ValueView::Str(
                if b {
                    "true"@
                } else {
                    "false"@
                },
            ),
        ),
        unary_effect(InstrView::Not, ValueView::Bool(b), ip) == Effect::Push(ValueView::Bool(!b)),
        unary_effect(InstrView::ItoS, ValueView::Int(x), ip) == Effect::Push(
            ValueView::Str(int_text(x as int)),
        ),
        x < i32::MAX ==> (unary_effect(InstrView::Inc, ValueView::Int(x), ip) matches Effect::Push(
            ValueView::Int(r),
        ) && r == x + 1),
        x > i32::MIN ==> (unary_effect(InstrView::Dec, ValueView::Int(x), ip) matches Effect::Push(
            ValueView::Int(r),
        ) && r == x - 1),
{
}

/// A conversion of a value of another kind than the one it converts
/// fails with a type mismatch that names the conversion and the value
/// (and the empty string as the other operand).
pub proof fn law_conversions_check_the_kind(v: ValueView, ip: usize)
    ensures
        !(v is Int) ==> unary_effect(InstrView::ItoB, v, ip) == Effect::Fail(
            VmErrorView::TypeMismatch {
                operation: "itob"@,
                left: v,
                right: ValueView::Str(Seq::empty()),
                ip,
            },
        ),
        !(v is Int) ==> unary_effect(InstrView::ItoS, v, ip) == Effect::Fail(
            VmErrorView::TypeMismatch {
                operation: "itos"@,
                left: v,
                right: ValueView::Str(Seq::empty()),
                ip,
            },
        ),
        !(v is Int) ==> unary_effect(InstrView::ItoF, v, ip) == Effect::Fail(
            VmErrorView::TypeMismatch {
                operation: "itof"@,
                left: v,
                right: ValueView::Str(Seq::empty()),
                ip,
            },
        ),
        !(v is Float) ==> unary_effect(InstrView::FtoB, v, ip) == Effect::Fail(
            VmErrorView::TypeMismatch {
                operation: "ftob"@,
                left: v,
                right: ValueView::Str(Seq::empty()),
                ip,
            },
        ),
        !(v is Float) ==> unary_effect(InstrView::FtoI, v, ip) == Effect::Fail(
            VmErrorView::TypeMismatch {
                operation: "ftoi"@,
                left: v,
                right: ValueView::Str(Seq::empty()),
                ip,
            },
        ),
        !(v is Float) ==> unary_effect(InstrView::FtoS, v, ip) == Effect::Fail(
            VmErrorView::TypeMismatch {
                operation: "ftos"@,
                left: v,
                right: ValueView::Str(Seq::empty()),
                ip,
            },
        ),
        !(v is Bool) ==> unary_effect(InstrView::BtoI, v, ip) == Effect::Fail(
            VmErrorView::TypeMismatch {
                operation: "btoi"@,
                left: v,
                right: ValueView::Str(Seq::empty()),
                ip,
            },
        ),
        !(v is Bool) ==> unary_effect(InstrView::BtoF, v, ip) == Effect::Fail(
            VmErrorView::TypeMismatch {
                operation: "btof"@,
                left: v,
                right: ValueView::Str(Seq::empty()),
                ip,
            },
        ),
        !(v is Bool) ==> unary_effect(InstrView::BtoS, v, ip) == Effect::Fail(
            VmErrorView::TypeMismatch {
                operation: "btos"@,
                left: v,
                right: ValueView::Str(Seq::empty()),
                ip,
            },
        ),
        !(v is Str) ==> unary_effect(InstrView::StoI, v, ip) == Effect::Fail(
            VmErrorView::TypeMismatch {
                operation: "stoi"@,
                left: v,
                right: ValueView::Str(Seq::empty()),
                ip,
            },
        ),
        !(v is Str) ==> unary_effect(InstrView::StoF, v, ip) == Effect::Fail(
            VmErrorView::TypeMismatch {
                operation: "stof"@,
                left: v,
                right: ValueView::Str(Seq::empty()),
                ip,
            },
        ),
        !(v is Str) ==> unary_effect(InstrView::StoB, v, ip) == Effect::Fail(
            VmErrorView::TypeMismatch {
                operation: "stob"@,
                left: v,
                right: ValueView::Str(Seq::empty()),
                ip,
            },
        ),
{
}

/// The conversions from text ignore whitespace around it: `stoi` reads
/// the text of an integer with spaces around it as that integer, `stob`
/// reads `true` and `false` so, and `stof` hands the text without the
/// spaces to the host.
pub proof fn law_text_conversions_trim(
    x: i32,
    b: bool,
    p: Seq<char>,
    t: Seq<char>,
    q: Seq<char>,
    ip: usize,
)
    requires
        forall|j: int| 0 <= j < p.len() ==> is_space(#[trigger] p[j]),
        forall|j: int| 0 <= j < q.len() ==> is_space(#[trigger] q[j]),
    ensures
        unary_effect(InstrView::StoI, ValueView::Str(p + int_text(x as int) + q), ip)
            == Effect::Push(ValueView::Int(x)),
        unary_effect(
            InstrView::StoB,
            ValueView::Str(
                p + (if b {
                    "true"@
                } else {
                    "false"@
                }) + q,
            ),
            ip,
        ) == Effect::Push(ValueView::Bool(b)),
        t.len() > 0 && !is_space(t[0]) && !is_space(t.last()) ==> unary_effect(
            InstrView::StoF,
            ValueView::Str(p + t + q),
            ip,
        ) == Effect::Ask(ActionView::TextToFloat(t)),
{
    lemma_int_text_shape(x as int);
    law_trim_strips_padding(p, int_text(x as int), q);
    law_i32_text_parses_back(x);
    reveal_strlit("true");
    reveal_strlit("false");
    let w = if b {
        "true"@
    } else {
        "false"@
    };
    assert(!is_space(w[0]) && !is_space(w.last()));
    law_trim_strips_padding(p, w, q);
    if t.len() > 0 && !is_space(t[0]) && !is_space(t.last()) {
        law_trim_strips_padding(p, t, q);
    }
}

/// On a machine whose top value is the integer `x`, the boolean `b` or the
/// float `f`, a conversion replaces it by the converted value and the
/// machine goes on.
pub proof fn law_conversion_steps(m: MachineView, prog: Seq<InstrView>, x: i32, b: bool, f: u64)
    requires
        0 <= m.ip < prog.len(),
        m.stack.len() >= 1,
    ensures
        prog[m.ip] == InstrView::ItoB && m.stack.last() == ValueView::Int(x) ==> step_pushes(
            m,
            prog,
            1,
            ValueView::Bool(x != 0),
        ),
        prog[m.ip] == InstrView::BtoI && m.stack.last() == ValueView::Bool(b) ==> step_pushes(
            m,
            prog,
            1,
            ValueView::Int(
                if b {
                    1i32
                } else {
                    0i32
                },
            ),
        ),
        prog[m.ip] == InstrView::FtoB && m.stack.last() == ValueView::Float(f) ==> step_pushes(
            m,
            prog,
            1,
            ValueView::Bool(f % 0x8000_0000_0000_0000 != 0),
        ),
        prog[m.ip] == InstrView::BtoF && m.stack.last() == ValueView::Bool(b) ==> step_pushes(
            m,
            prog,
            1,
            ValueView::Float(
                if b {
                    0x3ff0_0000_0000_0000u64
                } else {
                    0u64
                },
            ),
        ),
        prog[m.ip] == InstrView::Not && m.stack.last() == ValueView::Bool(b) ==> step_pushes(
            m,
            prog,
            1,
            ValueView::Bool(!b),
        ),
{
}

// ---------------------------------------------------------------------
// Conditional jumps
// ---------------------------------------------------------------------

/// `jumpif` compares like for like: integers, strings and booleans match
/// when they are the same, floats when they are equal as `f64`; values
/// of different kinds never match.
pub proof fn law_jump_matches(top: ValueView, v: ValueView)
    ensures
        (top, v) matches (ValueView::Int(t), ValueView::Int(w)) ==> (jump_matches(top, v) <==> t
            == w),
        (top, v) matches (ValueView::Str(t), ValueView::Str(w)) ==> (jump_matches(top, v) <==> t
            == w),
        (top, v) matches (ValueView::Bool(t), ValueView::Bool(w)) ==> (jump_matches(top, v) <==> t
            == w),
        (top, v) matches (ValueView::Float(t), ValueView::Float(w)) ==> (jump_matches(top, v)
            <==> float_eq(t, w)),
        !((top is Int && v is Int) || (top is Str && v is Str) || (top is Bool && v is Bool) || (
        top is Float && v is Float)) ==> !jump_matches(top, v),
{
}

/// `jumpif v a` goes to `a` when the top of the stack matches `v` and to
/// the next instruction otherwise (so `jumpif 3 10` on a 7 goes on with
/// the next one); it leaves the stack and the variables as they are.
pub proof fn law_jumpif(m: MachineView, prog: Seq<InstrView>, v: ValueView, a: usize)
    requires
        0 <= m.ip < prog.len(),
        prog[m.ip] == InstrView::JumpIf(v, a),
        m.stack.len() > 0,
    ensures
        step_spec(m, prog).1 == Ok::<ActionView, VmErrorView>(ActionView::Continue),
        step_spec(m, prog).0.stack == m.stack,
        step_spec(m, prog).0.vars == m.vars,
        (m.stack.last(), v) matches (ValueView::Int(t), ValueView::Int(w)) ==> step_spec(
            m,
            prog,
        ).0.ip == if t == w {
            a as int
        } else {
            m.ip + 1
        },
        (m.stack.last(), v) matches (ValueView::Str(t), ValueView::Str(w)) ==> step_spec(
            m,
            prog,
        ).0.ip == if t == w {
            a as int
        } else {
            m.ip + 1
        },
        (m.stack.last(), v) matches (ValueView::Bool(t), ValueView::Bool(w)) ==> step_spec(
            m,
            prog,
        ).0.ip == if t == w {
            a as int
        } else {
            m.ip + 1
        },
        (m.stack.last(), v) matches (ValueView::Float(t), ValueView::Float(w)) ==> step_spec(
            m,
            prog,
        ).0.ip == if float_eq(t, w) {
            a as int
        } else {
            m.ip + 1
        },
        !((m.stack.last() is Int && v is Int) || (m.stack.last() is Str && v is Str) || (
        m.stack.last() is Bool && v is Bool) || (m.stack.last() is Float && v is Float))
            ==> step_spec(m, prog).0.ip == m.ip + 1,
{
}

// ---------------------------------------------------------------------
// Type errors
// ---------------------------------------------------------------------

/// A type error names the instruction that raised it by its keyword.
pub proof fn law_type_errors_name_the_instruction(m: MachineView, prog: Seq<InstrView>)
    ensures
        step_spec(m, prog).1 matches Err(VmErrorView::TypeMismatch { operation, .. })
            ==> operation == keyword(prog[m.ip]),
{
}

// ---------------------------------------------------------------------
// Logic
// ---------------------------------------------------------------------

/// `and` and `or` on two booleans push their conjunction and disjunction;
/// on anything else they fail with a type mismatch.
pub proof fn law_boolean_logic(a: ValueView, b: ValueView, ip: usize)
    ensures
        (a, b) matches (ValueView::Bool(x), ValueView::Bool(y)) ==> binary_effect(
            InstrView::And,
            a,
            b,
            ip,
        ) == Effect::Push(ValueView::Bool(x && y)) && binary_effect(InstrView::Or, a, b, ip)
            == Effect::Push(ValueView::Bool(x || y)),
        !(a is Bool && b is Bool) ==> binary_effect(InstrView::And, a, b, ip) == Effect::Fail(
            VmErrorView::TypeMismatch { operation: "and"@, left: a, right: b, ip },
        ) && binary_effect(InstrView::Or, a, b, ip) == Effect::Fail(
            VmErrorView::TypeMismatch { operation: "or"@, left: a, right: b, ip },
        ),
{
}

// ---------------------------------------------------------------------
// Stack, variables, control
// ---------------------------------------------------------------------

/// The machine with another stack and the pointer on the next instruction.
pub open spec fn next_with(m: MachineView, stack: Seq<ValueView>) -> MachineView {
    MachineView { stack, vars: m.vars, ip: m.ip + 1 }
}

/// The stack instructions: `push`, `pushstr`, `pushbool` and `pushspace`
/// push their value (a space for `pushspace`), `pop` drops the top value
/// and `dup` pushes a copy of it; each goes on with the next instruction.
/// `pop` and `dup` on an empty stack fail with a stack underflow.
pub proof fn law_stack_instructions(
    m: MachineView,
    prog: Seq<InstrView>,
    v: ValueView,
    t: Seq<char>,
    b: bool,
)
    requires
        0 <= m.ip < prog.len(),
    ensures
        prog[m.ip] == InstrView::Push(v) ==> step_spec(m, prog) == (
            next_with(m, m.stack.push(v)),
            Ok::<ActionView, VmErrorView>(ActionView::Continue),
        ),
        prog[m.ip] == InstrView::PushStr(t) ==> step_spec(m, prog) == (
            next_with(m, m.stack.push(ValueView::Str(t))),
            Ok::<ActionView, VmErrorView>(ActionView::Continue),
        ),
        prog[m.ip] == InstrView::PushBool(b) ==> step_spec(m, prog) == (
            next_with(m, m.stack.push(ValueView::Bool(b))),
            Ok::<ActionView, VmErrorView>(ActionView::Continue),
        ),
        prog[m.ip] == InstrView::PushSpace ==> step_spec(m, prog) == (
            next_with(m, m.stack.push(ValueView::Str(seq![' ']))),
            Ok::<ActionView, VmErrorView>(ActionView::Continue),
        ),
        prog[m.ip] == InstrView::Pop && m.stack.len() > 0 ==> step_spec(m, prog) == (
            next_with(m, m.stack.take(m.stack.len() - 1)),
            Ok::<ActionView, VmErrorView>(ActionView::Continue),
        ),
        prog[m.ip] == InstrView::Dup && m.stack.len() > 0 ==> step_spec(m, prog) == (
            next_with(m, m.stack.push(m.stack[m.stack.len() - 1])),
            Ok::<ActionView, VmErrorView>(ActionView::Continue),
        ),
        (prog[m.ip] == InstrView::Pop || prog[m.ip] == InstrView::Dup) && m.stack.len() == 0
            ==> step_spec(m, prog) == (
            m,
            Err::<ActionView, VmErrorView>(VmErrorView::StackUnderflow { ip: m.ip as usize }),
        ),
{
    reveal_strlit(" ");
    assert(" "@ =~= seq![' ']);
    assert(m.stack.drop_last() =~= m.stack.take(m.stack.len() - 1));
}

/// The variables: `store n` takes the top value and binds `n` to it;
/// `load n` pushes the value bound to `n`, and fails naming `n` when
/// nothing is; `drop n` unbinds `n` and leaves the stack as it is.
pub proof fn law_variable_instructions(m: MachineView, prog: Seq<InstrView>, name: Seq<char>)
    requires
        0 <= m.ip < prog.len(),
    ensures
        prog[m.ip] == InstrView::Store(name) && m.stack.len() > 0 ==> step_spec(m, prog) == (
            MachineView {
                stack: m.stack.take(m.stack.len() - 1),
                vars: m.vars.insert(name, m.stack[m.stack.len() - 1]),
                ip: m.ip + 1,
            },
            Ok::<ActionView, VmErrorView>(ActionView::Continue),
        ),
        prog[m.ip] == InstrView::Load(name) && m.vars.contains_key(name) ==> step_spec(m, prog)
            == (next_with(m, m.stack.push(m.vars[name])), Ok::<ActionView, VmErrorView>(
            ActionView::Continue,
        )),
        prog[m.ip] == InstrView::Load(name) && !m.vars.contains_key(name) ==> step_spec(m, prog)
            == (m, Err::<ActionView, VmErrorView>(
            VmErrorView::UndefinedVariable { name, ip: m.ip as usize },
        )),
        prog[m.ip] == InstrView::Drop(name) ==> step_spec(m, prog) == (
            MachineView { stack: m.stack, vars: m.vars.remove(name), ip: m.ip + 1 },
            Ok::<ActionView, VmErrorView>(ActionView::Continue),
        ),
{
    assert(m.stack.drop_last() =~= m.stack.take(m.stack.len() - 1));
}

/// Control and output: `jump a` goes to `a`; `print` takes the top value
/// and hands it to the host to print; `println` asks for a line break
/// and `debug` for the stack to be shown, changing nothing but the
/// pointer; `read` asks for a line and waits for it; `exit` halts, and so
/// does a machine whose pointer is past the last instruction.
pub proof fn law_control_and_output(m: MachineView, prog: Seq<InstrView>, a: usize)
    ensures
        0 <= m.ip < prog.len() && prog[m.ip] == InstrView::Jump(a) ==> step_spec(m, prog) == (
            MachineView { stack: m.stack, vars: m.vars, ip: a as int },
            Ok::<ActionView, VmErrorView>(ActionView::Continue),
        ),
        0 <= m.ip < prog.len() && prog[m.ip] == InstrView::Print && m.stack.len() > 0
            ==> step_spec(m, prog) == (
            next_with(m, m.stack.take(m.stack.len() - 1)),
            Ok::<ActionView, VmErrorView>(ActionView::Print(m.stack[m.stack.len() - 1])),
        ),
        0 <= m.ip < prog.len() && prog[m.ip] == InstrView::Println ==> step_spec(m, prog) == (
            next_with(m, m.stack),
            Ok::<ActionView, VmErrorView>(ActionView::Newline),
        ),
        0 <= m.ip < prog.len() && prog[m.ip] == InstrView::Debug ==> step_spec(m, prog) == (
            next_with(m, m.stack),
            Ok::<ActionView, VmErrorView>(ActionView::ShowStack),
        ),
        0 <= m.ip < prog.len() && prog[m.ip] == InstrView::Read ==> step_asks(
            m,
            prog,
            ActionView::ReadLine,
        ),
        0 <= m.ip < prog.len() && prog[m.ip] == InstrView::Exit ==> step_asks(
            m,
            prog,
            ActionView::Halt,
        ),
        !(0 <= m.ip < prog.len()) ==> step_asks(m, prog, ActionView::Halt),
{
    assert(m.stack.drop_last() =~= m.stack.take(m.stack.len() - 1));
}

// ---------------------------------------------------------------------
// The host's work
// ---------------------------------------------------------------------

/// What the machine asks of the host: `writef` writes the upper string
/// to the file whose path is the lower one; `readf`, `removef`,
/// `createdir` and `removedir` act on the path on top; `stof` asks to
/// read the trimmed text as a float, `ftos` to write the float.
pub proof fn law_host_requests(p: Seq<char>, c: Seq<char>, f: u64, ip: usize)
    ensures
        binary_effect(InstrView::WriteF, ValueView::Str(p), ValueView::Str(c), ip) == Effect::Ask(
            ActionView::WriteFile(p, c),
        ),
        unary_effect(InstrView::ReadF, ValueView::Str(p), ip) == Effect::Ask(
            ActionView::ReadFile(p),
        ),
        unary_effect(InstrView::RemoveF, ValueView::Str(p), ip) == Effect::Ask(
            ActionView::RemoveFile(p),
        ),
        unary_effect(InstrView::CreateDir, ValueView::Str(p), ip) == Effect::Ask(
            ActionView::CreateDir(p),
        ),
        unary_effect(InstrView::RemoveDir, ValueView::Str(p), ip) == Effect::Ask(
            ActionView::RemoveDir(p),
        ),
        unary_effect(InstrView::StoF, ValueView::Str(p), ip) == Effect::Ask(
            ActionView::TextToFloat(trimmed(p)),
        ),
        unary_effect(InstrView::FtoS, ValueView::Float(f), ip) == Effect::Ask(
            ActionView::FloatToText(f),
        ),
{
}

/// The host's answers complete the instructions that asked for them: a
/// line read is pushed trimmed; the text of a file read takes the place
/// of its path; a write, removal or creation that succeeded takes its
/// operands away, and one that failed fails naming the path; a float read
/// from text takes the place of the text, and a text that is not a float
/// fails naming it; a written float takes the place of the float.
pub proof fn law_host_answers(
    m: MachineView,
    prog: Seq<InstrView>,
    l: Seq<char>,
    t: Seq<char>,
    v: ValueView,
    f: u64,
)
    requires
        0 <= m.ip < prog.len(),
    ensures
        prog[m.ip] == InstrView::Read ==> resume_spec(m, prog, ReplyView::Line(l)) == (
            next_with(m, m.stack.push(ValueView::Str(trimmed(l)))),
            Ok::<(), VmErrorView>(()),
        ),
        prog[m.ip] == InstrView::ReadF && m.stack.len() >= 1 ==> resume_spec(
            m,
            prog,
            ReplyView::Content(Some(t)),
        ) == (replaced(m, 1, ValueView::Str(t)), Ok::<(), VmErrorView>(())),
        prog[m.ip] == InstrView::ReadF && m.stack.len() >= 1 && m.stack.last() == ValueView::Str(t)
            ==> resume_spec(m, prog, ReplyView::Content(None)) == (
            MachineView { stack: m.stack.take(m.stack.len() - 1), vars: m.vars, ip: m.ip },
            Err::<(), VmErrorView>(VmErrorView::InvalidPath { path: t, ip: m.ip as usize }),
        ),
        prog[m.ip] == InstrView::WriteF && m.stack.len() >= 2 ==> resume_spec(
            m,
            prog,
            ReplyView::Done(true),
        ) == (next_with(m, m.stack.take(m.stack.len() - 2)), Ok::<(), VmErrorView>(())),
        prog[m.ip] == InstrView::WriteF && m.stack.len() >= 2 && m.stack[m.stack.len() - 2]
            == ValueView::Str(t) ==> resume_spec(m, prog, ReplyView::Done(false)) == (
            MachineView { stack: m.stack.take(m.stack.len() - 2), vars: m.vars, ip: m.ip },
            Err::<(), VmErrorView>(VmErrorView::InvalidPath { path: t, ip: m.ip as usize }),
        ),
        (prog[m.ip] == InstrView::RemoveF || prog[m.ip] == InstrView::CreateDir || prog[m.ip]
            == InstrView::RemoveDir) && m.stack.len() >= 1 ==> resume_spec(
            m,
            prog,
            ReplyView::Done(true),
        ) == (next_with(m, m.stack.take(m.stack.len() - 1)), Ok::<(), VmErrorView>(())),
        (prog[m.ip] == InstrView::RemoveF || prog[m.ip] == InstrView::CreateDir || prog[m.ip]
            == InstrView::RemoveDir) && m.stack.len() >= 1 && m.stack.last() == ValueView::Str(t)
            ==> resume_spec(m, prog, ReplyView::Done(false)) == (
            MachineView { stack: m.stack.take(m.stack.len() - 1), vars: m.vars, ip: m.ip },
            Err::<(), VmErrorView>(VmErrorView::InvalidPath { path: t, ip: m.ip as usize }),
        ),
        prog[m.ip] == InstrView::StoF && m.stack.len() >= 1 ==> resume_spec(
            m,
            prog,
            ReplyView::Float(Some(f)),
        ) == (replaced(m, 1, ValueView::Float(f)), Ok::<(), VmErrorView>(())),
        prog[m.ip] == InstrView::StoF && m.stack.len() >= 1 ==> resume_spec(
            m,
            prog,
            ReplyView::Float(None),
        ) == (
            MachineView { stack: m.stack.take(m.stack.len() - 1), vars: m.vars, ip: m.ip },
            Err::<(), VmErrorView>(
                VmErrorView::ConversionError {
                    from: m.stack[m.stack.len() - 1],
                    to: "float"@,
                    ip: m.ip as usize,
                },
            ),
        ),
        prog[m.ip] == InstrView::FtoS && m.stack.len() >= 1 ==> resume_spec(
            m,
            prog,
            ReplyView::Value(v),
        ) == (replaced(m, 1, v), Ok::<(), VmErrorView>(())),
{
    assert(m.stack.take(m.stack.len() - 0) =~= m.stack);
}

// ---------------------------------------------------------------------
// Overflow
// ---------------------------------------------------------------------

/// The quotient of two `i32` fits in `i32` unless it is `i32::MIN / -1`.
proof fn lemma_quotient_fits(x: i32, y: i32)
    requires
        y != 0,
    ensures
        fits_i32(quotient(x as int, y as int)) <==> !(x == i32::MIN && y == -1),
{
    lemma_truncated_division(x as int, y as int);
    let q = quotient(x as int, y as int);
    if !(x == i32::MIN && y == -1) {
        assert(i32::MIN <= q <= i32::MAX) by (nonlinear_arith)
            requires
                abs(q) <= abs(x as int),
                abs(x as int - q * y) < abs(y as int),
                i32::MIN <= x <= i32::MAX,
                y != 0,
                !(x == i32::MIN && y == -1),
        ;
    }
}

/// Integer arithmetic overflows exactly when its result does not fit in
/// `i32` (`div` only for `i32::MIN / -1`; a zero divisor is an error of
/// its own); `inc` at `i32::MAX` and `dec` at `i32::MIN`. Nothing else
/// overflows.
pub proof fn law_overflow_is_out_of_range(i: InstrView, s: Seq<ValueView>, x: i32, y: i32)
    ensures
        s.len() >= 2 && s[s.len() - 2] == ValueView::Int(x) && s.last() == ValueView::Int(y) ==> {
            &&& overflows(InstrView::Add, s) == !fits_i32(x + y)
            &&& overflows(InstrView::Sub, s) == !fits_i32(x - y)
            &&& overflows(InstrView::Mul, s) == !fits_i32(x * y)
            &&& overflows(InstrView::Div, s) == (x == i32::MIN && y == -1)
        },
        s.len() >= 1 && s.last() == ValueView::Int(x) ==> {
            &&& overflows(InstrView::Inc, s) == (x == i32::MAX)
            &&& overflows(InstrView::Dec, s) == (x == i32::MIN)
        },
        !(i is Add || i is Sub || i is Mul || i is Div || i is Inc || i is Dec) ==> !overflows(
            i,
            s,
        ),
{
    if y != 0 {
        lemma_quotient_fits(x, y);
    }
}

// ---------------------------------------------------------------------
// Printing
// ---------------------------------------------------------------------

/// A value is printed as the text that converting it gives: an integer
/// as `itos` writes it, a boolean as `btos` writes it, a string as it is;
/// a float's text is the host's work, as for `ftos`.
pub proof fn law_printing_matches_conversions(x: i32, b: bool, t: Seq<char>, f: u64, ip: usize)
    ensures
        unary_effect(InstrView::ItoS, ValueView::Int(x), ip) == Effect::Push(
            ValueView::Str(display_text(ValueView::Int(x))->Some_0),
        ),
        unary_effect(InstrView::BtoS, ValueView::Bool(b), ip) == Effect::Push(
            ValueView::Str(display_text(ValueView::Bool(b))->Some_0),
        ),
        display_text(ValueView::Int(x)) is Some,
        display_text(ValueView::Bool(b)) is Some,
        display_text(ValueView::Str(t)) == Some(t),
        display_text(ValueView::Float(f)) is None,
        unary_effect(InstrView::FtoS, ValueView::Float(f), ip) is Ask,
{
}

// ---------------------------------------------------------------------
// Too few values
// ---------------------------------------------------------------------

/// An instruction that finds too few values on the stack fails with a
/// stack underflow at its index: one that takes two values has taken the
/// one that was there (the stack ends empty), one that takes a single
/// value, and `pop`, `dup`, `store`, `print` and `jumpif`, leave the
/// machine as it was.
pub proof fn law_stack_underflow(m: MachineView, prog: Seq<InstrView>)
    requires
        0 <= m.ip < prog.len(),
    ensures
        is_binary(prog[m.ip]) && m.stack.len() < 2 ==> step_spec(m, prog) == (
            MachineView { stack: Seq::empty(), vars: m.vars, ip: m.ip },
            Err::<ActionView, VmErrorView>(VmErrorView::StackUnderflow { ip: m.ip as usize }),
        ),
        (is_unary(prog[m.ip]) || prog[m.ip] is Pop || prog[m.ip] is Dup || prog[m.ip] is Store
            || prog[m.ip] is Print || prog[m.ip] is JumpIf) && m.stack.len() == 0 ==> step_spec(
            m,
            prog,
        ) == (
            m,
            Err::<ActionView, VmErrorView>(VmErrorView::StackUnderflow { ip: m.ip as usize }),
        ),
{
}

// ---------------------------------------------------------------------
// Requests and answers
// ---------------------------------------------------------------------

/// Each request to the host has its kind of answer, and the host can
/// always give one: a line for `ReadLine`, the file's content for
/// `ReadFile`, success or failure for the file-system operations, a float
/// for `Arith`, a string for `FloatToText`, the reading of a float for
/// `TextToFloat`. A step that completed its instruction, or halted, takes
/// no answer.
pub proof fn law_requests_and_answers(
    a: ActionView,
    r1: ReplyView,
    r2: ReplyView,
    l: Seq<char>,
    c: Option<Seq<char>>,
    ok: bool,
    f: u64,
    o: Option<u64>,
)
    ensures
        answers(a, r1) && answers(a, r2) ==> (r1 is Line <==> r2 is Line) && (r1 is Content
            <==> r2 is Content) && (r1 is Done <==> r2 is Done) && (r1 is Value <==> r2 is Value)
            && (r1 is Float <==> r2 is Float),
        a is ReadLine ==> answers(a, ReplyView::Line(l)),
        a is ReadFile ==> answers(a, ReplyView::Content(c)),
        (a is WriteFile || a is RemoveFile || a is CreateDir || a is RemoveDir) ==> answers(
            a,
            ReplyView::Done(ok),
        ),
        a is Arith ==> answers(a, ReplyView::Value(ValueView::Float(f))),
        a is FloatToText ==> answers(a, ReplyView::Value(ValueView::Str(l))),
        a is TextToFloat ==> answers(a, ReplyView::Float(o)),
        (a is Continue || a is Halt || a is Print || a is Newline || a is ShowStack) ==> !answers(
            a,
            r1,
        ),
{
}

} // verus!
