//! The machine: a stack of values, named variables and an instruction
//! pointer.
//!
//! [`VM::step`] carries out the instruction at the instruction pointer.
//! Most instructions complete inside the machine. The others need work
//! that only the host can do: input and output, the file system, and
//! arithmetic on floating-point numbers. For those, `step` leaves the
//! machine as it is and returns an [`Action`] that names the work; the
//! host does it and hands the outcome back with [`VM::resume`], which
//! completes the instruction. Printing needs no answer: `step` completes
//! the instruction and returns what to print.
use vstd::hash_map::StringHashMap;
use vstd::prelude::*;

use crate::error::{VmError, VmErrorView};
use crate::instruction::{InstrView, Instruction, program_view};
use crate::text::{
    chars_of, int_text, parse_bool, parse_bool_spec, parse_i32, parse_i32_spec, remove_all,
    remove_occurrences, string_of, text_less, text_lt, trim, trimmed, i32_text,
};
use crate::value::{
    Value, ValueView, views, float_as_int, float_eq, float_equal, float_is_zero, float_le,
    float_less, float_less_eq, float_lt, float_one, float_to_int, int_as_float, int_to_float,
    is_zero_bits,
};

verus! {

/// The variables that a map from names to values holds, by their views.
pub open spec fn variable_views(m: Map<Seq<char>, Value>) -> Map<Seq<char>, ValueView> {
    m.map_values(|v: Value| v@)
}

// ---------------------------------------------------------------------
// Machine state and actions
// ---------------------------------------------------------------------

/// The model of the machine: its stack (top last), its variables and the
/// index of the next instruction.
pub struct MachineView {
    pub stack: Seq<ValueView>,
    pub vars: Map<Seq<char>, ValueView>,
    pub ip: int,
}

/// The machine.
pub struct VM {
    stack: Vec<Value>,
    variables: StringHashMap<Value>,
    ip: usize,
}

impl View for VM {
    type V = MachineView;

    closed spec fn view(&self) -> MachineView {
        MachineView {
            stack: views(self.stack@),
            vars: variable_views(self.variables@),
            ip: self.ip as int,
        }
    }
}

/// The arithmetic operations that the host carries out on floats.
#[derive(Clone, Copy, Debug)]
pub enum ArithOp {
    Add,
    Sub,
    Mul,
    Div,
}

/// The comparison instructions.
#[derive(Clone, Copy, Debug)]
pub enum CmpOp {
    Eq,
    Ne,
    Gt,
    Lt,
    Ge,
    Le,
}

/// What [`VM::step`] asks of the host.
#[derive(Clone, Debug)]
pub enum Action {
    /// The instruction completed; nothing to do.
    Continue,
    /// The program ended: the pointer is past the last instruction, or at `exit`.
    Halt,
    /// Print the value (the instruction completed).
    Print(Value),
    /// Print a line break (the instruction completed).
    Newline,
    /// Print the stack, as [`VM::stack`] shows it (the instruction completed).
    ShowStack,
    /// Read a line of input; answer with [`Reply::Line`].
    ReadLine,
    /// Read the file; answer with [`Reply::Content`].
    ReadFile(String),
    /// Write the text to the file (path first); answer with [`Reply::Done`].
    WriteFile(String, String),
    /// Remove the file; answer with [`Reply::Done`].
    RemoveFile(String),
    /// Create the directory; answer with [`Reply::Done`].
    CreateDir(String),
    /// Remove the directory; answer with [`Reply::Done`].
    RemoveDir(String),
    /// Compute `left op right` on the two `f64` values (given by their
    /// bits); answer with [`Reply::Value`] holding the float.
    Arith(ArithOp, u64, u64),
    /// Write the float as `f64::to_string` does; answer with [`Reply::Value`] holding the string.
    FloatToText(u64),
    /// Read the text as an `f64`; answer with [`Reply::Float`].
    TextToFloat(String),
}

/// The model of an [`Action`].
pub enum ActionView {
    Continue,
    Halt,
    Print(ValueView),
    Newline,
    ShowStack,
    ReadLine,
    ReadFile(Seq<char>),
    WriteFile(Seq<char>, Seq<char>),
    RemoveFile(Seq<char>),
    CreateDir(Seq<char>),
    RemoveDir(Seq<char>),
    Arith(ArithOp, u64, u64),
    FloatToText(u64),
    TextToFloat(Seq<char>),
}

impl View for Action {
    type V = ActionView;

    open spec fn view(&self) -> ActionView {
        match self {
            Action::Continue => ActionView::Continue,
            Action::Halt => ActionView::Halt,
            Action::Print(v) => ActionView::Print(v@),
            Action::Newline => ActionView::Newline,
            Action::ShowStack => ActionView::ShowStack,
            Action::ReadLine => ActionView::ReadLine,
            Action::ReadFile(p) => ActionView::ReadFile(p@),
            Action::WriteFile(p, c) => ActionView::WriteFile(p@, c@),
            Action::RemoveFile(p) => ActionView::RemoveFile(p@),
            Action::CreateDir(p) => ActionView::CreateDir(p@),
            Action::RemoveDir(p) => ActionView::RemoveDir(p@),
            Action::Arith(op, a, b) => ActionView::Arith(*op, *a, *b),
            Action::FloatToText(f) => ActionView::FloatToText(*f),
            Action::TextToFloat(t) => ActionView::TextToFloat(t@),
        }
    }
}

/// The host's answer to an action that asks for one.
#[derive(Clone, Debug)]
pub enum Reply {
    /// The line that was read (with its line break, if any).
    Line(String),
    /// The content of the file, or `None` when it could not be read.
    Content(Option<String>),
    /// Whether the file-system operation succeeded.
    Done(bool),
    /// The value computed: the float of an arithmetic operation, the text
    /// of a float.
    Value(Value),
    /// The bits of the `f64` read, or `None` when the text is not a number.
    Float(Option<u64>),
}

/// The model of a [`Reply`].
pub enum ReplyView {
    Line(Seq<char>),
    Content(Option<Seq<char>>),
    Done(bool),
    Value(ValueView),
    Float(Option<u64>),
}

impl View for Reply {
    type V = ReplyView;

    open spec fn view(&self) -> ReplyView {
        match self {
            Reply::Line(l) => ReplyView::Line(l@),
            Reply::Content(c) => ReplyView::Content(
                match c {
                    Some(s) => Some(s@),
                    None => None,
                },
            ),
            Reply::Done(ok) => ReplyView::Done(*ok),
            Reply::Value(v) => ReplyView::Value(v@),
            Reply::Float(f) => ReplyView::Float(*f),
        }
    }
}

/// Whether `reply` is the kind of answer that `action` asks for.
pub open spec fn answers(action: ActionView, reply: ReplyView) -> bool {
    match action {
        ActionView::ReadLine => reply is Line,
        ActionView::ReadFile(_) => reply is Content,
        ActionView::WriteFile(_, _) | ActionView::RemoveFile(_) | ActionView::CreateDir(_)
        | ActionView::RemoveDir(_) => reply is Done,
        ActionView::Arith(_, _, _) => reply matches ReplyView::Value(ValueView::Float(_)),
        ActionView::FloatToText(_) => reply matches ReplyView::Value(ValueView::Str(_)),
        ActionView::TextToFloat(_) => reply is Float,
        _ => false,
    }
}

impl Action {
    /// Whether `reply` is the kind of answer that this action asks for.
    pub fn accepts(&self, reply: &Reply) -> (b: bool)
        ensures
            b == answers(self@, reply@),
    {
        match self {
            Action::ReadLine => matches!(reply, Reply::Line(_)),
            Action::ReadFile(_) => matches!(reply, Reply::Content(_)),
            Action::WriteFile(_, _) | Action::RemoveFile(_) | Action::CreateDir(_)
            | Action::RemoveDir(_) => matches!(reply, Reply::Done(_)),
            Action::Arith(_, _, _) => matches!(reply, Reply::Value(Value::Float(_))),
            Action::FloatToText(_) => matches!(reply, Reply::Value(Value::String(_))),
            Action::TextToFloat(_) => matches!(reply, Reply::Float(_)),
            _ => false,
        }
    }
}


// ---------------------------------------------------------------------
// What one instruction does
// ---------------------------------------------------------------------

pub open spec fn abs(x: int) -> int {
    if x < 0 {
        -x
    } else {
        x
    }
}

/// Integer division as `i32` computes it: rounded toward zero.
pub open spec fn quotient(x: int, y: int) -> int {
    let q = abs(x) / abs(y);
    if (x < 0) == (y < 0) {
        q
    } else {
        -q
    }
}

pub open spec fn fits_i32(x: int) -> bool {
    i32::MIN <= x <= i32::MAX
}

/// The result of an operation on the values it took from the stack.
pub enum Effect {
    /// Push this value and go on with the next instruction.
    Push(ValueView),
    /// Leave the machine as it is and ask the host.
    Ask(ActionView),
    /// Stop with this error.
    Fail(VmErrorView),
}

pub open spec fn mismatch(op: Seq<char>, a: ValueView, b: ValueView, ip: usize) -> Effect {
    Effect::Fail(VmErrorView::TypeMismatch { operation: op, left: a, right: b, ip })
}

/// The empty string value, which stands as the other operand in the type
/// errors of operations on one value.
pub open spec fn no_operand() -> ValueView {
    ValueView::Str(Seq::empty())
}

/// Whether the instruction takes two values from the stack.
pub open spec fn is_binary(i: InstrView) -> bool {
    match i {
        InstrView::Add | InstrView::Sub | InstrView::Mul | InstrView::Div | InstrView::Eq
        | InstrView::Ne | InstrView::Gt | InstrView::Lt | InstrView::Ge | InstrView::Le
        | InstrView::And | InstrView::Or | InstrView::WriteF => true,
        _ => false,
    }
}

/// Whether the instruction takes one value from the stack and acts on it.
pub open spec fn is_unary(i: InstrView) -> bool {
    match i {
        InstrView::Inc | InstrView::Dec | InstrView::Not | InstrView::StoI | InstrView::StoF
        | InstrView::StoB | InstrView::ItoF | InstrView::ItoS | InstrView::ItoB
        | InstrView::FtoI | InstrView::FtoS | InstrView::FtoB | InstrView::BtoI
        | InstrView::BtoF | InstrView::BtoS | InstrView::ReadF | InstrView::RemoveF
        | InstrView::CreateDir | InstrView::RemoveDir => true,
        _ => false,
    }
}

/// Whether two numbers include a float: two floats, or an integer and a
/// float in either order.
pub open spec fn float_pair(a: ValueView, b: ValueView) -> bool {
    match (a, b) {
        (ValueView::Float(_), ValueView::Float(_)) => true,
        (ValueView::Int(_), ValueView::Float(_)) => true,
        (ValueView::Float(_), ValueView::Int(_)) => true,
        _ => false,
    }
}

/// The bits of a number as an `f64`: an integer converted with `as f64`.
pub open spec fn as_float_bits(v: ValueView) -> u64 {
    match v {
        ValueView::Int(x) => int_as_float(x),
        ValueView::Float(f) => f,
        _ => 0,
    }
}

/// A comparison of two `f64` values.
pub open spec fn float_compare(op: CmpOp, x: u64, y: u64) -> bool {
    match op {
        CmpOp::Eq => float_eq(x, y),
        CmpOp::Ne => !float_eq(x, y),
        CmpOp::Gt => float_lt(y, x),
        CmpOp::Lt => float_lt(x, y),
        CmpOp::Ge => float_le(y, x),
        CmpOp::Le => float_le(x, y),
    }
}

/// The result of `add`: integer sum, float sum (by the host, an integer
/// operand converted to `f64`),
/// concatenation of strings.
pub open spec fn add_effect(a: ValueView, b: ValueView, ip: usize) -> Effect {
    match (a, b) {
        (ValueView::Int(x), ValueView::Int(y)) => Effect::Push(ValueView::Int((x + y) as i32)),
        (ValueView::Str(x), ValueView::Str(y)) => Effect::Push(ValueView::Str(x + y)),
        _ => if float_pair(a, b) {
            Effect::Ask(ActionView::Arith(ArithOp::Add, as_float_bits(a), as_float_bits(b)))
        } else {
            mismatch("add"@, a, b, ip)
        },
    }
}

/// The result of `sub`: integer difference, float difference (by the
/// host), or the left string with every occurrence of the right one removed.
pub open spec fn sub_effect(a: ValueView, b: ValueView, ip: usize) -> Effect {
    match (a, b) {
        (ValueView::Int(x), ValueView::Int(y)) => Effect::Push(ValueView::Int((x - y) as i32)),
        (ValueView::Str(x), ValueView::Str(y)) => Effect::Push(ValueView::Str(remove_all(x, y))),
        _ => if float_pair(a, b) {
            Effect::Ask(ActionView::Arith(ArithOp::Sub, as_float_bits(a), as_float_bits(b)))
        } else {
            mismatch("sub"@, a, b, ip)
        },
    }
}

/// The result of `mul`.
pub open spec fn mul_effect(a: ValueView, b: ValueView, ip: usize) -> Effect {
    match (a, b) {
        (ValueView::Int(x), ValueView::Int(y)) => Effect::Push(ValueView::Int((x * y) as i32)),
        _ => if float_pair(a, b) {
            Effect::Ask(ActionView::Arith(ArithOp::Mul, as_float_bits(a), as_float_bits(b)))
        } else {
            mismatch("mul"@, a, b, ip)
        },
    }
}

/// Whether the divisor is a zero, integer or float.
pub open spec fn is_zero_divisor(b: ValueView) -> bool {
    match b {
        ValueView::Int(y) => y == 0,
        ValueView::Float(y) => float_is_zero(y),
        _ => false,
    }
}

/// The result of `div`: division by a zero (integer or float) fails.
pub open spec fn div_effect(a: ValueView, b: ValueView, ip: usize) -> Effect {
    if (a is Int || a is Float) && is_zero_divisor(b) {
        Effect::Fail(VmErrorView::DivisionByZero { ip })
    } else {
        match (a, b) {
            (ValueView::Int(x), ValueView::Int(y)) => Effect::Push(
                ValueView::Int(quotient(x as int, y as int) as i32),
            ),
            _ => if float_pair(a, b) {
                Effect::Ask(ActionView::Arith(ArithOp::Div, as_float_bits(a), as_float_bits(b)))
            } else {
                mismatch("div"@, a, b, ip)
            },
        }
    }
}

/// The result of a comparison of integers, of numbers among which a float
/// (compared as `f64`, an integer converted with `as f64`), of strings (in
/// lexicographic order) and, for `eq` and `ne` only, of booleans.
pub open spec fn compare_effect(op: CmpOp, a: ValueView, b: ValueView, ip: usize) -> Effect {
    let name = match op {
        CmpOp::Eq => "eq"@,
        CmpOp::Ne => "ne"@,
        CmpOp::Gt => "gt"@,
        CmpOp::Lt => "lt"@,
        CmpOp::Ge => "ge"@,
        CmpOp::Le => "le"@,
    };
    if float_pair(a, b) {
        Effect::Push(ValueView::Bool(float_compare(op, as_float_bits(a), as_float_bits(b))))
    } else {
        match (a, b) {
            (ValueView::Int(x), ValueView::Int(y)) => Effect::Push(
                ValueView::Bool(
                    match op {
                        CmpOp::Eq => x == y,
                        CmpOp::Ne => x != y,
                        CmpOp::Gt => x > y,
                        CmpOp::Lt => x < y,
                        CmpOp::Ge => x >= y,
                        CmpOp::Le => x <= y,
                    },
                ),
            ),
            (ValueView::Str(x), ValueView::Str(y)) => Effect::Push(
                ValueView::Bool(
                    match op {
                        CmpOp::Eq => x == y,
                        CmpOp::Ne => x != y,
                        CmpOp::Gt => text_lt(y, x),
                        CmpOp::Lt => text_lt(x, y),
                        CmpOp::Ge => !text_lt(x, y),
                        CmpOp::Le => !text_lt(y, x),
                    },
                ),
            ),
            (ValueView::Bool(x), ValueView::Bool(y)) => match op {
                CmpOp::Eq => Effect::Push(ValueView::Bool(x == y)),
                CmpOp::Ne => Effect::Push(ValueView::Bool(x != y)),
                _ => mismatch(name, a, b, ip),
            },
            _ => mismatch(name, a, b, ip),
        }
    }
}

/// The result of an instruction that takes two values, `a` below `b`.
pub open spec fn binary_effect(i: InstrView, a: ValueView, b: ValueView, ip: usize) -> Effect {
    match i {
        InstrView::Add => add_effect(a, b, ip),
        InstrView::Sub => sub_effect(a, b, ip),
        InstrView::Mul => mul_effect(a, b, ip),
        InstrView::Div => div_effect(a, b, ip),
        InstrView::Eq => compare_effect(CmpOp::Eq, a, b, ip),
        InstrView::Ne => compare_effect(CmpOp::Ne, a, b, ip),
        InstrView::Gt => compare_effect(CmpOp::Gt, a, b, ip),
        InstrView::Lt => compare_effect(CmpOp::Lt, a, b, ip),
        InstrView::Ge => compare_effect(CmpOp::Ge, a, b, ip),
        InstrView::Le => compare_effect(CmpOp::Le, a, b, ip),
        InstrView::And => match (a, b) {
            (ValueView::Bool(x), ValueView::Bool(y)) => Effect::Push(ValueView::Bool(x && y)),
            _ => mismatch("and"@, a, b, ip),
        },
        InstrView::Or => match (a, b) {
            (ValueView::Bool(x), ValueView::Bool(y)) => Effect::Push(ValueView::Bool(x || y)),
            _ => mismatch("or"@, a, b, ip),
        },
        _ => match (a, b) {
            (ValueView::Str(p), ValueView::Str(c)) => Effect::Ask(ActionView::WriteFile(p, c)),
            _ => mismatch("writef"@, a, b, ip),
        },
    }
}

/// The result of an instruction that takes one value `v`.
pub open spec fn unary_effect(i: InstrView, v: ValueView, ip: usize) -> Effect {
    match i {
        InstrView::Inc => match v {
            ValueView::Int(x) => Effect::Push(ValueView::Int((x + 1) as i32)),
            _ => mismatch("inc"@, v, ValueView::Int(1), ip),
        },
        InstrView::Dec => match v {
            ValueView::Int(x) => Effect::Push(ValueView::Int((x - 1) as i32)),
            _ => mismatch("dec"@, v, ValueView::Int(1), ip),
        },
        InstrView::Not => match v {
            ValueView::Bool(b) => Effect::Push(ValueView::Bool(!b)),
            _ => mismatch("not"@, v, no_operand(), ip),
        },
        InstrView::StoI => match v {
            ValueView::Str(s) => match parse_i32_spec(trimmed(s)) {
                Some(x) => Effect::Push(ValueView::Int(x)),
                None => Effect::Fail(VmErrorView::ConversionError { from: v, to: "int"@, ip }),
            },
            _ => mismatch("stoi"@, v, no_operand(), ip),
        },
        InstrView::StoF => match v {
            ValueView::Str(s) => Effect::Ask(ActionView::TextToFloat(trimmed(s))),
            _ => mismatch("stof"@, v, no_operand(), ip),
        },
        InstrView::StoB => match v {
            ValueView::Str(s) => match parse_bool_spec(trimmed(s)) {
                Some(b) => Effect::Push(ValueView::Bool(b)),
                None => Effect::Fail(VmErrorView::ConversionError { from: v, to: "bool"@, ip }),
            },
            _ => mismatch("stob"@, v, no_operand(), ip),
        },
        InstrView::ItoF => match v {
            ValueView::Int(x) => Effect::Push(ValueView::Float(int_as_float(x))),
            _ => mismatch("itof"@, v, no_operand(), ip),
        },
        InstrView::ItoS => match v {
            ValueView::Int(x) => Effect::Push(ValueView::Str(int_text(x as int))),
            _ => mismatch("itos"@, v, no_operand(), ip),
        },
        InstrView::ItoB => match v {
            ValueView::Int(x) => Effect::Push(ValueView::Bool(x != 0)),
            _ => mismatch("itob"@, v, no_operand(), ip),
        },
        InstrView::FtoI => match v {
            ValueView::Float(f) => Effect::Push(ValueView::Int(float_as_int(f))),
            _ => mismatch("ftoi"@, v, no_operand(), ip),
        },
        InstrView::FtoS => match v {
            ValueView::Float(f) => Effect::Ask(ActionView::FloatToText(f)),
            _ => mismatch("ftos"@, v, no_operand(), ip),
        },
        InstrView::FtoB => match v {
            ValueView::Float(f) => Effect::Push(ValueView::Bool(!float_is_zero(f))),
            _ => mismatch("ftob"@, v, no_operand(), ip),
        },
        InstrView::BtoI => match v {
            ValueView::Bool(b) => Effect::Push(
                ValueView::Int(
                    if b {
                        1
                    } else {
                        0
                    },
                ),
            ),
            _ => mismatch("btoi"@, v, no_operand(), ip),
        },
        InstrView::BtoF => match v {
            ValueView::Bool(b) => Effect::Push(
                ValueView::Float(
                    if b {
                        float_one()
                    } else {
                        0
                    },
                ),
            ),
            _ => mismatch("btof"@, v, no_operand(), ip),
        },
        InstrView::BtoS => match v {
            ValueView::Bool(b) => Effect::Push(
                ValueView::Str(
                    if b {
                        "true"@
                    } else {
                        "false"@
                    },
                ),
            ),
            _ => mismatch("btos"@, v, no_operand(), ip),
        },
        InstrView::ReadF => match v {
            ValueView::Str(p) => Effect::Ask(ActionView::ReadFile(p)),
            _ => mismatch("readf"@, v, no_operand(), ip),
        },
        InstrView::RemoveF => match v {
            ValueView::Str(p) => Effect::Ask(ActionView::RemoveFile(p)),
            _ => mismatch("removef"@, v, no_operand(), ip),
        },
        InstrView::CreateDir => match v {
            ValueView::Str(p) => Effect::Ask(ActionView::CreateDir(p)),
            _ => mismatch("createdir"@, v, no_operand(), ip),
        },
        _ => match v {
            ValueView::Str(p) => Effect::Ask(ActionView::RemoveDir(p)),
            _ => mismatch("removedir"@, v, no_operand(), ip),
        },
    }
}

/// Whether the instruction is integer arithmetic whose result does not
/// fit in `i32`; Rust's `i32` operators panic there, and so would the
/// machine, so [`VM::step`] is not to be called on such a state.
pub open spec fn overflows(i: InstrView, s: Seq<ValueView>) -> bool {
    let n = s.len();
    if is_binary(i) && n >= 2 {
        match (s[n - 2], s[n - 1]) {
            (ValueView::Int(x), ValueView::Int(y)) => match i {
                InstrView::Add => !fits_i32(x + y),
                InstrView::Sub => !fits_i32(x - y),
                InstrView::Mul => !fits_i32(x * y),
                InstrView::Div => y != 0 && !fits_i32(quotient(x as int, y as int)),
                _ => false,
            },
            _ => false,
        }
    } else if is_unary(i) && n >= 1 {
        match s[n - 1] {
            ValueView::Int(x) => match i {
                InstrView::Inc => x == i32::MAX,
                InstrView::Dec => x == i32::MIN,
                _ => false,
            },
            _ => false,
        }
    } else {
        false
    }
}


/// Euclidean division by a negative number, against a positive one.
proof fn lemma_div_by_negative(a: int, b: int)
    requires
        a >= 0,
        b < 0,
    ensures
        a / b == -(a / (-b)),
{
    assert(a / b == -(a / (-b))) by (nonlinear_arith)
        requires
            a >= 0,
            b < 0,
    ;
}

/// Truncating division as the `i32` operator computes it.
proof fn lemma_quotient(x: int, y: int)
    requires
        y != 0,
    ensures
        quotient(x, y) == (if x >= 0 {
            x / y
        } else {
            -((-x) / y)
        }),
{
    if x >= 0 && y < 0 {
        lemma_div_by_negative(x, y);
    } else if x < 0 && y < 0 {
        lemma_div_by_negative(-x, y);
    }
}

/// The quotient of two `i32` values fits in `i32` but for `i32::MIN / -1`.
proof fn lemma_quotient_fits(x: int, y: int)
    requires
        fits_i32(x),
        fits_i32(y),
        y != 0,
    ensures
        fits_i32(quotient(x, y)) <==> !(x == i32::MIN && y == -1),
{
    let ax = abs(x);
    let ay = abs(y);
    let q = ax / ay;
    assert(0 <= q <= ax) by (nonlinear_arith)
        requires
            ax >= 0,
            ay >= 1,
            q == ax / ay,
    ;
    if ay == 1 {
        assert(ax / 1 == ax);
        assert(q == ax);
    } else {
        assert(q <= 0x4000_0000) by (nonlinear_arith)
            requires
                0 <= ax <= 0x8000_0000,
                ay >= 2,
                q == ax / ay,
        ;
    }
}

/// An operation's result, as the machine computes it.
enum Outcome {
    Push(Value),
    Ask(Action),
    Fail(VmError),
}

impl View for Outcome {
    type V = Effect;

    closed spec fn view(&self) -> Effect {
        match self {
            Outcome::Push(v) => Effect::Push(v@),
            Outcome::Ask(a) => Effect::Ask(a@),
            Outcome::Fail(e) => Effect::Fail(e@),
        }
    }
}

fn type_mismatch(op: &str, a: &Value, b: &Value, ip: usize) -> (r: Outcome)
    ensures
        r@ == mismatch(op@, a@, b@, ip),
{
    Outcome::Fail(
        VmError::TypeMismatch {
            operation: String::from_str(op),
            left: a.duplicate(),
            right: b.duplicate(),
            ip: ip,
        },
    )
}

fn empty_text() -> (r: Value)
    ensures
        r@ == no_operand(),
{
    Value::String(String::new())
}

fn join_texts(x: &String, y: &String) -> (r: String)
    ensures
        r@ == x@ + y@,
{
    let c = x.clone();
    c.concat(y.as_str())
}

fn remove_text(x: &String, y: &String) -> (r: String)
    ensures
        r@ == remove_all(x@, y@),
{
    let a = chars_of(x.as_str());
    let b = chars_of(y.as_str());
    let c = remove_occurrences(a.as_slice(), b.as_slice());
    string_of(c.as_slice())
}

fn text_before(x: &String, y: &String) -> (r: bool)
    ensures
        r == text_lt(x@, y@),
{
    let a = chars_of(x.as_str());
    let b = chars_of(y.as_str());
    text_less(a.as_slice(), b.as_slice())
}

fn is_float_pair(a: &Value, b: &Value) -> (r: bool)
    ensures
        r == float_pair(a@, b@),
{
    match (a, b) {
        (Value::Float(_), Value::Float(_)) => true,
        (Value::Int(_), Value::Float(_)) => true,
        (Value::Float(_), Value::Int(_)) => true,
        _ => false,
    }
}

/// The bits of a number as an `f64`.
fn float_bits_of(v: &Value) -> (r: u64)
    ensures
        r == as_float_bits(v@),
{
    match v {
        Value::Int(x) => int_to_float(*x),
        Value::Float(f) => *f,
        _ => 0,
    }
}

fn ask_arith(op: ArithOp, a: &Value, b: &Value) -> (r: Outcome)
    ensures
        r@ == Effect::Ask(ActionView::Arith(op, as_float_bits(a@), as_float_bits(b@))),
{
    Outcome::Ask(Action::Arith(op, float_bits_of(a), float_bits_of(b)))
}

fn float_comparison(op: CmpOp, x: u64, y: u64) -> (r: bool)
    ensures
        r == float_compare(op, x, y),
{
    match op {
        CmpOp::Eq => float_equal(x, y),
        CmpOp::Ne => !float_equal(x, y),
        CmpOp::Gt => float_less(y, x),
        CmpOp::Lt => float_less(x, y),
        CmpOp::Ge => float_less_eq(y, x),
        CmpOp::Le => float_less_eq(x, y),
    }
}

fn compare_outcome(op: CmpOp, a: &Value, b: &Value, ip: usize) -> (r: Outcome)
    ensures
        r@ == compare_effect(op, a@, b@, ip),
{
    let name = match op {
        CmpOp::Eq => "eq",
        CmpOp::Ne => "ne",
        CmpOp::Gt => "gt",
        CmpOp::Lt => "lt",
        CmpOp::Ge => "ge",
        CmpOp::Le => "le",
    };
    if is_float_pair(a, b) {
        return Outcome::Push(Value::Bool(float_comparison(op, float_bits_of(a), float_bits_of(b))));
    }
    match (a, b) {
        (Value::Int(x), Value::Int(y)) => {
            let (x, y) = (*x, *y);
            Outcome::Push(
                Value::Bool(
                    match op {
                        CmpOp::Eq => x == y,
                        CmpOp::Ne => x != y,
                        CmpOp::Gt => x > y,
                        CmpOp::Lt => x < y,
                        CmpOp::Ge => x >= y,
                        CmpOp::Le => x <= y,
                    },
                ),
            )
        },
        (Value::String(x), Value::String(y)) => {
            Outcome::Push(
                Value::Bool(
                    match op {
                        CmpOp::Eq => x.eq(y),
                        CmpOp::Ne => !x.eq(y),
                        CmpOp::Gt => text_before(y, x),
                        CmpOp::Lt => text_before(x, y),
                        CmpOp::Ge => !text_before(x, y),
                        CmpOp::Le => !text_before(y, x),
                    },
                ),
            )
        },
        (Value::Bool(x), Value::Bool(y)) => {
            let (x, y) = (*x, *y);
            match op {
                CmpOp::Eq => Outcome::Push(Value::Bool(x == y)),
                CmpOp::Ne => Outcome::Push(Value::Bool(x != y)),
                _ => type_mismatch(name, a, b, ip),
            }
        },
        _ => type_mismatch(name, a, b, ip),
    }
}

/// The result of an instruction that takes two values, `a` below `b`.
fn binary_outcome(i: &Instruction, a: &Value, b: &Value, ip: usize) -> (r: Outcome)
    requires
        is_binary(i@),
        !overflows(i@, seq![a@, b@]),
    ensures
        r@ == binary_effect(i@, a@, b@, ip),
{
    assert(seq![a@, b@][0] == a@ && seq![a@, b@][1] == b@);
    match i {
        Instruction::Add => match (a, b) {
            (Value::Int(x), Value::Int(y)) => Outcome::Push(Value::Int(*x + *y)),
            (Value::String(x), Value::String(y)) => Outcome::Push(Value::String(join_texts(x, y))),
            _ => if is_float_pair(a, b) {
                ask_arith(ArithOp::Add, a, b)
            } else {
                type_mismatch("add", a, b, ip)
            },
        },
        Instruction::Sub => match (a, b) {
            (Value::Int(x), Value::Int(y)) => Outcome::Push(Value::Int(*x - *y)),
            (Value::String(x), Value::String(y)) => Outcome::Push(Value::String(remove_text(x, y))),
            _ => if is_float_pair(a, b) {
                ask_arith(ArithOp::Sub, a, b)
            } else {
                type_mismatch("sub", a, b, ip)
            },
        },
        Instruction::Mul => match (a, b) {
            (Value::Int(x), Value::Int(y)) => Outcome::Push(Value::Int(*x * *y)),
            _ => if is_float_pair(a, b) {
                ask_arith(ArithOp::Mul, a, b)
            } else {
                type_mismatch("mul", a, b, ip)
            },
        },
        Instruction::Div => {
            let zero_divisor = match b {
                Value::Int(y) => *y == 0,
                Value::Float(y) => is_zero_bits(*y),
                _ => false,
            };
            let numeric = match a {
                Value::Int(_) | Value::Float(_) => true,
                _ => false,
            };
            if numeric && zero_divisor {
                Outcome::Fail(VmError::DivisionByZero { ip: ip })
            } else {
                match (a, b) {
                    (Value::Int(x), Value::Int(y)) => {
                        let (x, y) = (*x, *y);
                        proof {
                            lemma_quotient(x as int, y as int);
                        }
                        assert(!(x == i32::MIN && y == -1));
                        let q = x / y;
                        Outcome::Push(Value::Int(q))
                    },
                    _ => if is_float_pair(a, b) {
                        ask_arith(ArithOp::Div, a, b)
                    } else {
                        type_mismatch("div", a, b, ip)
                    },
                }
            }
        },
        Instruction::Eq => compare_outcome(CmpOp::Eq, a, b, ip),
        Instruction::Ne => compare_outcome(CmpOp::Ne, a, b, ip),
        Instruction::Gt => compare_outcome(CmpOp::Gt, a, b, ip),
        Instruction::Lt => compare_outcome(CmpOp::Lt, a, b, ip),
        Instruction::Ge => compare_outcome(CmpOp::Ge, a, b, ip),
        Instruction::Le => compare_outcome(CmpOp::Le, a, b, ip),
        Instruction::And => match (a, b) {
            (Value::Bool(x), Value::Bool(y)) => Outcome::Push(Value::Bool(*x && *y)),
            _ => type_mismatch("and", a, b, ip),
        },
        Instruction::Or => match (a, b) {
            (Value::Bool(x), Value::Bool(y)) => Outcome::Push(Value::Bool(*x || *y)),
            _ => type_mismatch("or", a, b, ip),
        },
        _ => match (a, b) {
            (Value::String(p), Value::String(c)) => Outcome::Ask(
                Action::WriteFile(p.clone(), c.clone()),
            ),
            _ => type_mismatch("writef", a, b, ip),
        },
    }
}


fn trimmed_chars(s: &String) -> (r: Vec<char>)
    ensures
        r@ == trimmed(s@),
{
    let cs = chars_of(s.as_str());
    trim(cs.as_slice())
}

fn conversion_error(v: &Value, to: &str, ip: usize) -> (r: Outcome)
    ensures
        r@ == Effect::Fail(VmErrorView::ConversionError { from: v@, to: to@, ip }),
{
    Outcome::Fail(VmError::ConversionError { from: v.duplicate(), to: String::from_str(to), ip: ip })
}

/// The result of an instruction that takes one value `v`.
fn unary_outcome(i: &Instruction, v: &Value, ip: usize) -> (r: Outcome)
    requires
        is_unary(i@),
        !overflows(i@, seq![v@]),
    ensures
        r@ == unary_effect(i@, v@, ip),
{
    assert(seq![v@][0] == v@);
    match i {
        Instruction::Inc => match v {
            Value::Int(x) => Outcome::Push(Value::Int(*x + 1)),
            _ => type_mismatch("inc", v, &Value::Int(1), ip),
        },
        Instruction::Dec => match v {
            Value::Int(x) => Outcome::Push(Value::Int(*x - 1)),
            _ => type_mismatch("dec", v, &Value::Int(1), ip),
        },
        Instruction::Not => match v {
            Value::Bool(b) => Outcome::Push(Value::Bool(!*b)),
            _ => type_mismatch("not", v, &empty_text(), ip),
        },
        Instruction::StoI => match v {
            Value::String(s) => {
                let t = trimmed_chars(s);
                match parse_i32(t.as_slice()) {
                    Some(x) => Outcome::Push(Value::Int(x)),
                    None => conversion_error(v, "int", ip),
                }
            },
            _ => type_mismatch("stoi", v, &empty_text(), ip),
        },
        Instruction::StoF => match v {
            Value::String(s) => {
                let t = trimmed_chars(s);
                Outcome::Ask(Action::TextToFloat(string_of(t.as_slice())))
            },
            _ => type_mismatch("stof", v, &empty_text(), ip),
        },
        Instruction::StoB => match v {
            Value::String(s) => {
                let t = trimmed_chars(s);
                match parse_bool(t.as_slice()) {
                    Some(b) => Outcome::Push(Value::Bool(b)),
                    None => conversion_error(v, "bool", ip),
                }
            },
            _ => type_mismatch("stob", v, &empty_text(), ip),
        },
        Instruction::ItoF => match v {
            Value::Int(x) => Outcome::Push(Value::Float(int_to_float(*x))),
            _ => type_mismatch("itof", v, &empty_text(), ip),
        },
        Instruction::ItoS => match v {
            Value::Int(x) => {
                let t = i32_text(*x);
                Outcome::Push(Value::String(string_of(t.as_slice())))
            },
            _ => type_mismatch("itos", v, &empty_text(), ip),
        },
        Instruction::ItoB => match v {
            Value::Int(x) => Outcome::Push(Value::Bool(*x != 0)),
            _ => type_mismatch("itob", v, &empty_text(), ip),
        },
        Instruction::FtoI => match v {
            Value::Float(f) => Outcome::Push(Value::Int(float_to_int(*f))),
            _ => type_mismatch("ftoi", v, &empty_text(), ip),
        },
        Instruction::FtoS => match v {
            Value::Float(f) => Outcome::Ask(Action::FloatToText(*f)),
            _ => type_mismatch("ftos", v, &empty_text(), ip),
        },
        Instruction::FtoB => match v {
            Value::Float(f) => Outcome::Push(Value::Bool(!is_zero_bits(*f))),
            _ => type_mismatch("ftob", v, &empty_text(), ip),
        },
        Instruction::BtoI => match v {
            Value::Bool(b) => Outcome::Push(
                Value::Int(
                    if *b {
                        1
                    } else {
                        0
                    },
                ),
            ),
            _ => type_mismatch("btoi", v, &empty_text(), ip),
        },
        Instruction::BtoF => match v {
            Value::Bool(b) => Outcome::Push(
                Value::Float(
                    if *b {
                        0x3ff0_0000_0000_0000
                    } else {
                        0
                    },
                ),
            ),
            _ => type_mismatch("btof", v, &empty_text(), ip),
        },
        Instruction::BtoS => match v {
            Value::Bool(b) => Outcome::Push(
                if *b {
                    Value::text("true")
                } else {
                    Value::text("false")
                },
            ),
            _ => type_mismatch("btos", v, &empty_text(), ip),
        },
        Instruction::ReadF => match v {
            Value::String(p) => Outcome::Ask(Action::ReadFile(p.clone())),
            _ => type_mismatch("readf", v, &empty_text(), ip),
        },
        Instruction::RemoveF => match v {
            Value::String(p) => Outcome::Ask(Action::RemoveFile(p.clone())),
            _ => type_mismatch("removef", v, &empty_text(), ip),
        },
        Instruction::CreateDir => match v {
            Value::String(p) => Outcome::Ask(Action::CreateDir(p.clone())),
            _ => type_mismatch("createdir", v, &empty_text(), ip),
        },
        _ => match v {
            Value::String(p) => Outcome::Ask(Action::RemoveDir(p.clone())),
            _ => type_mismatch("removedir", v, &empty_text(), ip),
        },
    }
}


// ---------------------------------------------------------------------
// The step relation
// ---------------------------------------------------------------------

/// The machine with another stack, moved on to the next instruction.
pub open spec fn advance(m: MachineView, stack: Seq<ValueView>) -> MachineView {
    MachineView { stack: stack, vars: m.vars, ip: m.ip + 1 }
}

/// The machine with another stack.
pub open spec fn with_stack(m: MachineView, stack: Seq<ValueView>) -> MachineView {
    MachineView { stack: stack, vars: m.vars, ip: m.ip }
}

/// How an operation's result acts on the machine; `rest` is the stack
/// without the operation's operands.
pub open spec fn apply_effect(m: MachineView, rest: Seq<ValueView>, e: Effect) -> (
    MachineView,
    Result<ActionView, VmErrorView>,
) {
    match e {
        Effect::Push(v) => (advance(m, rest.push(v)), Ok(ActionView::Continue)),
        Effect::Ask(a) => (m, Ok(a)),
        Effect::Fail(err) => (with_stack(m, rest), Err(err)),
    }
}

/// Whether `jumpif` jumps: the top of the stack equals the instruction's
/// value (values of different kinds are never equal).
pub open spec fn jump_matches(top: ValueView, v: ValueView) -> bool {
    match (top, v) {
        (ValueView::Int(a), ValueView::Int(b)) => a == b,
        (ValueView::Float(a), ValueView::Float(b)) => float_eq(a, b),
        (ValueView::Str(a), ValueView::Str(b)) => a == b,
        (ValueView::Bool(a), ValueView::Bool(b)) => a == b,
        _ => false,
    }
}

/// What the instruction at the instruction pointer does: the machine
/// after it, and what the host is to do or the error. Past the end of the
/// program, and at `exit`, the machine halts and stays as it is.
pub open spec fn step_spec(m: MachineView, prog: Seq<InstrView>) -> (
    MachineView,
    Result<ActionView, VmErrorView>,
) {
    if !(0 <= m.ip < prog.len()) {
        (m, Ok(ActionView::Halt))
    } else {
        let i = prog[m.ip];
        let s = m.stack;
        let n = s.len();
        let ip = m.ip as usize;
        let underflow = VmErrorView::StackUnderflow { ip };
        if is_binary(i) {
            if n < 2 {
                (with_stack(m, Seq::empty()), Err(underflow))
            } else {
                apply_effect(m, s.take(n - 2), binary_effect(i, s[n - 2], s[n - 1], ip))
            }
        } else if is_unary(i) {
            if n < 1 {
                (m, Err(underflow))
            } else {
                apply_effect(m, s.drop_last(), unary_effect(i, s[n - 1], ip))
            }
        } else {
            match i {
                InstrView::Push(v) => (advance(m, s.push(v)), Ok(ActionView::Continue)),
                InstrView::PushStr(t) => (
                    advance(m, s.push(ValueView::Str(t))),
                    Ok(ActionView::Continue),
                ),
                InstrView::PushBool(b) => (
                    advance(m, s.push(ValueView::Bool(b))),
                    Ok(ActionView::Continue),
                ),
                InstrView::PushSpace => (
                    advance(m, s.push(ValueView::Str(" "@))),
                    Ok(ActionView::Continue),
                ),
                InstrView::Pop => if n == 0 {
                    (m, Err(underflow))
                } else {
                    (advance(m, s.drop_last()), Ok(ActionView::Continue))
                },
                InstrView::Dup => if n == 0 {
                    (m, Err(underflow))
                } else {
                    (advance(m, s.push(s.last())), Ok(ActionView::Continue))
                },
                InstrView::Store(name) => if n == 0 {
                    (m, Err(underflow))
                } else {
                    (
                        MachineView {
                            stack: s.drop_last(),
                            vars: m.vars.insert(name, s.last()),
                            ip: m.ip + 1,
                        },
                        Ok(ActionView::Continue),
                    )
                },
                InstrView::Load(name) => if m.vars.contains_key(name) {
                    (advance(m, s.push(m.vars[name])), Ok(ActionView::Continue))
                } else {
                    (m, Err(VmErrorView::UndefinedVariable { name, ip }))
                },
                InstrView::Drop(name) => (
                    MachineView { stack: s, vars: m.vars.remove(name), ip: m.ip + 1 },
                    Ok(ActionView::Continue),
                ),
                InstrView::Jump(a) => (
                    MachineView { stack: s, vars: m.vars, ip: a as int },
                    Ok(ActionView::Continue),
                ),
                InstrView::Print => if n == 0 {
                    (m, Err(underflow))
                } else {
                    (advance(m, s.drop_last()), Ok(ActionView::Print(s.last())))
                },
                InstrView::Println => (advance(m, s), Ok(ActionView::Newline)),
                InstrView::Debug => (advance(m, s), Ok(ActionView::ShowStack)),
                InstrView::Read => (m, Ok(ActionView::ReadLine)),
                InstrView::JumpIf(v, a) => if n == 0 {
                    (m, Err(underflow))
                } else if jump_matches(s.last(), v) {
                    (MachineView { stack: s, vars: m.vars, ip: a as int }, Ok(ActionView::Continue))
                } else {
                    (advance(m, s), Ok(ActionView::Continue))
                },
                _ => (m, Ok(ActionView::Halt)),
            }
        }
    }
}

/// Whether the instruction at the instruction pointer is integer
/// arithmetic that overflows `i32`.
pub open spec fn overflows_at(m: MachineView, prog: Seq<InstrView>) -> bool {
    0 <= m.ip < prog.len() && overflows(prog[m.ip], m.stack)
}

/// The model of the result of a step.
pub open spec fn step_result(r: Result<Action, VmError>) -> Result<ActionView, VmErrorView> {
    match r {
        Ok(a) => Ok(a@),
        Err(e) => Err(e@),
    }
}

/// The model of the result of resuming.
pub open spec fn resume_result(r: Result<(), VmError>) -> Result<(), VmErrorView> {
    match r {
        Ok(()) => Ok(()),
        Err(e) => Err(e@),
    }
}

/// Whether the instruction pointer is at an instruction that waits for
/// `reply`: stepping there asks the host for that kind of answer.
pub open spec fn awaits(m: MachineView, prog: Seq<InstrView>, reply: ReplyView) -> bool {
    match step_spec(m, prog).1 {
        Ok(a) => answers(a, reply),
        Err(_) => false,
    }
}

/// How many values the instruction takes from the stack.
pub open spec fn operand_count(i: InstrView) -> int {
    if is_binary(i) {
        2
    } else if is_unary(i) {
        1
    } else {
        0
    }
}

/// The text of a string value (empty for other values).
pub open spec fn text_of(v: ValueView) -> Seq<char> {
    match v {
        ValueView::Str(t) => t,
        _ => Seq::empty(),
    }
}

/// How the host's answer completes the instruction that asked for it:
/// its operands leave the stack, the answer (a trimmed line, the file's
/// text, the computed value) is pushed and the machine goes on, or a
/// failure of the host becomes the machine's error.
pub open spec fn resume_spec(m: MachineView, prog: Seq<InstrView>, reply: ReplyView) -> (
    MachineView,
    Result<(), VmErrorView>,
) {
    let i = prog[m.ip];
    let s = m.stack;
    let n = s.len();
    let k = operand_count(i);
    let rest = s.take(n - k);
    let ip = m.ip as usize;
    match reply {
        ReplyView::Line(l) => (advance(m, s.push(ValueView::Str(trimmed(l)))), Ok(())),
        ReplyView::Content(c) => match c {
            Some(t) => (advance(m, rest.push(ValueView::Str(t))), Ok(())),
            None => (with_stack(m, rest), Err(VmErrorView::InvalidPath { path: text_of(s[n - k]), ip })),
        },
        ReplyView::Done(ok) => if ok {
            (advance(m, rest), Ok(()))
        } else {
            (with_stack(m, rest), Err(VmErrorView::InvalidPath { path: text_of(s[n - k]), ip }))
        },
        ReplyView::Value(v) => (advance(m, rest.push(v)), Ok(())),
        ReplyView::Float(f) => match f {
            Some(b) => (advance(m, rest.push(ValueView::Float(b))), Ok(())),
            None => (
                with_stack(m, rest),
                Err(VmErrorView::ConversionError { from: s[n - 1], to: "float"@, ip }),
            ),
        },
    }
}


// ---------------------------------------------------------------------
// The machine's operations
// ---------------------------------------------------------------------

fn takes_two(i: &Instruction) -> (r: bool)
    ensures
        r == is_binary(i@),
{
    match i {
        Instruction::Add | Instruction::Sub | Instruction::Mul | Instruction::Div
        | Instruction::Eq | Instruction::Ne | Instruction::Gt | Instruction::Lt
        | Instruction::Ge | Instruction::Le | Instruction::And | Instruction::Or
        | Instruction::WriteF => true,
        _ => false,
    }
}

fn takes_one(i: &Instruction) -> (r: bool)
    ensures
        r == is_unary(i@),
{
    match i {
        Instruction::Inc | Instruction::Dec | Instruction::Not | Instruction::StoI
        | Instruction::StoF | Instruction::StoB | Instruction::ItoF | Instruction::ItoS
        | Instruction::ItoB | Instruction::FtoI | Instruction::FtoS | Instruction::FtoB
        | Instruction::BtoI | Instruction::BtoF | Instruction::BtoS | Instruction::ReadF
        | Instruction::RemoveF | Instruction::CreateDir | Instruction::RemoveDir => true,
        _ => false,
    }
}

/// The text of a string value (empty for other values).
fn operand_text(v: &Value) -> (r: String)
    ensures
        r@ == text_of(v@),
{
    match v {
        Value::String(t) => t.clone(),
        _ => String::new(),
    }
}

fn matches_top(top: &Value, v: &Value) -> (r: bool)
    ensures
        r == jump_matches(top@, v@),
{
    match (top, v) {
        (Value::Int(a), Value::Int(b)) => *a == *b,
        (Value::Float(a), Value::Float(b)) => float_equal(*a, *b),
        (Value::String(a), Value::String(b)) => a.eq(b),
        (Value::Bool(a), Value::Bool(b)) => *a == *b,
        _ => false,
    }
}

impl VM {
    /// An empty machine at the first instruction.
    pub fn new() -> (r: VM)
        ensures
            r@.stack == Seq::<ValueView>::empty(),
            r@.vars == Map::<Seq<char>, ValueView>::empty(),
            r@.ip == 0,
    {
        let r = VM { stack: Vec::new(), variables: StringHashMap::new(), ip: 0 };
        assert(views(r.stack@) =~= Seq::<ValueView>::empty());
        assert(variable_views(r.variables@) =~= Map::<Seq<char>, ValueView>::empty());
        r
    }

    /// The stack, bottom first.
    pub fn stack(&self) -> (r: &Vec<Value>)
        ensures
            views(r@) == self@.stack,
    {
        &self.stack
    }

    /// The instruction pointer of a machine is a `usize`.
    pub proof fn lemma_ip_fits(&self)
        ensures
            0 <= self@.ip <= usize::MAX,
    {
    }

    /// The index of the next instruction.
    pub fn ip(&self) -> (r: usize)
        ensures
            r == self@.ip,
    {
        self.ip
    }

    /// Takes the top value off the stack.
    pub fn pop(&mut self) -> (r: Result<Value, VmError>)
        ensures
            final(self)@.vars == old(self)@.vars,
            final(self)@.ip == old(self)@.ip,
            match r {
                Ok(v) => old(self)@.stack.len() > 0 && v@ == old(self)@.stack.last()
                    && final(self)@.stack == old(self)@.stack.drop_last(),
                Err(e) => old(self)@.stack.len() == 0 && final(self)@.stack == old(self)@.stack
                    && e@ == (VmErrorView::StackUnderflow { ip: old(self)@.ip as usize }),
            },
    {
        let ghost before = self.stack@;
        match self.stack.pop() {
            Some(v) => {
                assert(views(self.stack@) =~= views(before).drop_last());
                Ok(v)
            },
            None => Err(VmError::StackUnderflow { ip: self.ip }),
        }
    }

    /// The value of a variable.
    fn get_variable(&self, name: &String) -> (r: Option<Value>)
        ensures
            match r {
                Some(v) => self@.vars.contains_key(name@) && self@.vars[name@] == v@,
                None => !self@.vars.contains_key(name@),
            },
    {
        match self.variables.get(name.as_str()) {
            Some(v) => Some(v.duplicate()),
            None => None,
        }
    }

    /// Binds a variable.
    fn set_variable(&mut self, name: String, v: Value)
        ensures
            final(self)@.vars == old(self)@.vars.insert(name@, v@),
            final(self)@.stack == old(self)@.stack,
            final(self)@.ip == old(self)@.ip,
    {
        let ghost before = self.variables@;
        let ghost key = name@;
        let ghost val = v@;
        self.variables.insert(name, v);
        assert(variable_views(self.variables@) =~= variable_views(before).insert(key, val));
    }

    /// Unbinds a variable.
    fn remove_variable(&mut self, name: &String)
        ensures
            final(self)@.vars == old(self)@.vars.remove(name@),
            final(self)@.stack == old(self)@.stack,
            final(self)@.ip == old(self)@.ip,
    {
        let ghost before = self.variables@;
        self.variables.remove(name.as_str());
        assert(variable_views(self.variables@) =~= variable_views(before).remove(name@));
    }

    /// Carries out an operation's result: its `count` operands leave the
    /// stack unless the host is asked.
    fn settle(&mut self, out: Outcome, count: usize) -> (r: Result<Action, VmError>)
        requires
            count <= old(self)@.stack.len(),
            old(self)@.ip < usize::MAX,
        ensures
            (final(self)@, step_result(r)) == apply_effect(
                old(self)@,
                old(self)@.stack.take(old(self)@.stack.len() - count),
                out@,
            ),
    {
        let ghost before = self.stack@;
        let n = self.stack.len();
        match out {
            Outcome::Push(v) => {
                self.stack.truncate(n - count);
                self.stack.push(v);
                self.ip = self.ip + 1;
                assert(views(self.stack@) =~= views(before).take(n - count).push(v@));
                Ok(Action::Continue)
            },
            Outcome::Ask(a) => Ok(a),
            Outcome::Fail(e) => {
                self.stack.truncate(n - count);
                assert(views(self.stack@) =~= views(before).take(n - count));
                Err(e)
            },
        }
    }

    /// Whether the instruction at the instruction pointer is integer
    /// arithmetic that overflows `i32` (where `step` may not be called).
    pub fn overflows_here(&self, program: &[Instruction]) -> (r: bool)
        ensures
            r == overflows_at(self@, program_view(program@)),
    {
        if self.ip >= program.len() {
            return false;
        }
        let i = &program[self.ip];
        assert(program_view(program@)[self.ip as int] == i@);
        let n = self.stack.len();
        let ghost s = self@.stack;
        if takes_two(i) && n >= 2 {
            assert(s[n - 2] == self.stack@[n - 2]@ && s[n - 1] == self.stack@[n - 1]@);
            match (&self.stack[n - 2], &self.stack[n - 1]) {
                (Value::Int(x), Value::Int(y)) => {
                    let (x, y) = (*x as i64, *y as i64);
                    match i {
                        Instruction::Add => x + y > i32::MAX as i64 || x + y < i32::MIN as i64,
                        Instruction::Sub => x - y > i32::MAX as i64 || x - y < i32::MIN as i64,
                        Instruction::Mul => {
                            assert(-0x4000_0000_0000_0000 <= x * y <= 0x4000_0000_0000_0000)
                                by (nonlinear_arith)
                                requires
                                    -0x8000_0000 <= x <= 0x7fff_ffff,
                                    -0x8000_0000 <= y <= 0x7fff_ffff,
                            ;
                            x * y > i32::MAX as i64 || x * y < i32::MIN as i64
                        },
                        Instruction::Div => {
                            proof {
                                if y != 0 {
                                    lemma_quotient_fits(x as int, y as int);
                                }
                            }
                            y == -1 && x == i32::MIN as i64
                        },
                        _ => false,
                    }
                },
                _ => false,
            }
        } else if takes_one(i) && n >= 1 {
            assert(s[n - 1] == self.stack@[n - 1]@);
            match &self.stack[n - 1] {
                Value::Int(x) => match i {
                    Instruction::Inc => *x == i32::MAX,
                    Instruction::Dec => *x == i32::MIN,
                    _ => false,
                },
                _ => false,
            }
        } else {
            false
        }
    }

    /// Carries out the instruction at the instruction pointer. When the
    /// action asks for an answer, the machine is unchanged and waits for
    /// [`VM::resume`]. Not to be called where integer arithmetic would
    /// overflow (see [`VM::overflows_here`]).
    pub fn step(&mut self, program: &[Instruction]) -> (r: Result<Action, VmError>)
        requires
            !overflows_at(old(self)@, program_view(program@)),
        ensures
            (final(self)@, step_result(r)) == step_spec(old(self)@, program_view(program@)),
    {
        let ghost m = self@;
        let ghost prog = program_view(program@);
        if self.ip >= program.len() {
            return Ok(Action::Halt);
        }
        let ip = self.ip;
        let i = &program[ip];
        assert(prog[ip as int] == i@);
        let n = self.stack.len();
        let ghost s = m.stack;
        if takes_two(i) {
            if n < 2 {
                self.stack.clear();
                assert(views(self.stack@) =~= Seq::<ValueView>::empty());
                return Err(VmError::StackUnderflow { ip: ip });
            }
            assert(s[n - 2] == self.stack@[n - 2]@ && s[n - 1] == self.stack@[n - 1]@);
            assert(seq![s[n - 2], s[n - 1]][0] == s[n - 2]);
            assert(seq![s[n - 2], s[n - 1]][1] == s[n - 1]);
            let out = binary_outcome(i, &self.stack[n - 2], &self.stack[n - 1], ip);
            return self.settle(out, 2);
        }
        if takes_one(i) {
            if n < 1 {
                return Err(VmError::StackUnderflow { ip: ip });
            }
            assert(s[n - 1] == self.stack@[n - 1]@);
            assert(seq![s[n - 1]][0] == s[n - 1]);
            let out = unary_outcome(i, &self.stack[n - 1], ip);
            proof {
                assert(s.take(n - 1) =~= s.drop_last());
            }
            return self.settle(out, 1);
        }
        let ghost before = self.stack@;
        match i {
            Instruction::Push(v) => {
                self.stack.push(v.duplicate());
                self.ip = ip + 1;
                assert(views(self.stack@) =~= s.push(v@));
                Ok(Action::Continue)
            },
            Instruction::PushStr(t) => {
                self.stack.push(Value::String(t.clone()));
                self.ip = ip + 1;
                assert(views(self.stack@) =~= s.push(ValueView::Str(t@)));
                Ok(Action::Continue)
            },
            Instruction::PushBool(b) => {
                self.stack.push(Value::Bool(*b));
                self.ip = ip + 1;
                assert(views(self.stack@) =~= s.push(ValueView::Bool(*b)));
                Ok(Action::Continue)
            },
            Instruction::PushSpace => {
                let v = Value::text(" ");
                self.stack.push(v);
                self.ip = ip + 1;
                assert(views(self.stack@) =~= s.push(v@));
                Ok(Action::Continue)
            },
            Instruction::Pop => {
                self.pop()?;
                self.ip = ip + 1;
                Ok(Action::Continue)
            },
            Instruction::Dup => {
                if n == 0 {
                    return Err(VmError::StackUnderflow { ip: ip });
                }
                let v = self.stack[n - 1].duplicate();
                assert(v@ == s.last());
                self.stack.push(v);
                self.ip = ip + 1;
                assert(views(self.stack@) =~= s.push(s.last()));
                Ok(Action::Continue)
            },
            Instruction::Store(name) => {
                let v = self.pop()?;
                self.set_variable(name.clone(), v);
                self.ip = ip + 1;
                Ok(Action::Continue)
            },
            Instruction::Load(name) => {
                match self.get_variable(name) {
                    Some(v) => {
                        self.stack.push(v);
                        self.ip = ip + 1;
                        assert(views(self.stack@) =~= s.push(m.vars[name@]));
                        Ok(Action::Continue)
                    },
                    None => Err(VmError::UndefinedVariable { name: name.clone(), ip: ip }),
                }
            },
            Instruction::Drop(name) => {
                self.remove_variable(name);
                self.ip = ip + 1;
                Ok(Action::Continue)
            },
            Instruction::Jump(a) => {
                self.ip = *a;
                Ok(Action::Continue)
            },
            Instruction::Print => {
                let v = self.pop()?;
                self.ip = ip + 1;
                Ok(Action::Print(v))
            },
            Instruction::Println => {
                self.ip = ip + 1;
                Ok(Action::Newline)
            },
            Instruction::Debug => {
                self.ip = ip + 1;
                Ok(Action::ShowStack)
            },
            Instruction::Read => Ok(Action::ReadLine),
            Instruction::JumpIf(v, a) => {
                if n == 0 {
                    return Err(VmError::StackUnderflow { ip: ip });
                }
                assert(s.last() == self.stack@[n - 1]@);
                if matches_top(&self.stack[n - 1], v) {
                    self.ip = *a;
                } else {
                    self.ip = ip + 1;
                }
                Ok(Action::Continue)
            },
            _ => Ok(Action::Halt),
        }
    }

    /// Whether the machine waits for `reply`: stepping at the instruction
    /// pointer asks the host for that kind of answer.
    pub fn awaits_reply(&self, program: &[Instruction], reply: &Reply) -> (r: bool)
        ensures
            r == awaits(self@, program_view(program@), reply@),
    {
        let ghost m = self@;
        let ghost prog = program_view(program@);
        if self.ip >= program.len() {
            return false;
        }
        let ip = self.ip;
        let i = &program[ip];
        assert(prog[ip as int] == i@);
        let n = self.stack.len();
        let ghost s = m.stack;
        if takes_two(i) {
            if n < 2 {
                return false;
            }
            assert(s[n - 2] == self.stack@[n - 2]@ && s[n - 1] == self.stack@[n - 1]@);
            let ghost pair = seq![s[n - 2], s[n - 1]];
            assert(pair[0] == s[n - 2] && pair[1] == s[n - 1]);
            if let (Value::Int(_), Value::Int(_)) = (&self.stack[n - 2], &self.stack[n - 1]) {
                return false;
            }
            let out = binary_outcome(i, &self.stack[n - 2], &self.stack[n - 1], ip);
            return match out {
                Outcome::Ask(a) => a.accepts(reply),
                _ => false,
            };
        }
        if takes_one(i) {
            if n < 1 {
                return false;
            }
            assert(s[n - 1] == self.stack@[n - 1]@);
            assert(seq![s[n - 1]][0] == s[n - 1]);
            if let Value::Int(_) = &self.stack[n - 1] {
                return false;
            }
            let out = unary_outcome(i, &self.stack[n - 1], ip);
            return match out {
                Outcome::Ask(a) => a.accepts(reply),
                _ => false,
            };
        }
        match i {
            Instruction::Read => matches!(reply, Reply::Line(_)),
            _ => false,
        }
    }

    /// Completes the instruction that waits for `reply` (see
    /// [`VM::awaits_reply`]) with the host's answer.
    pub fn resume(&mut self, program: &[Instruction], reply: Reply) -> (r: Result<(), VmError>)
        requires
            awaits(old(self)@, program_view(program@), reply@),
        ensures
            (final(self)@, resume_result(r)) == resume_spec(
                old(self)@,
                program_view(program@),
                reply@,
            ),
    {
        let ghost m = self@;
        let ghost prog = program_view(program@);
        let ip = self.ip;
        let i = &program[ip];
        assert(prog[ip as int] == i@);
        let n = self.stack.len();
        let k: usize = if takes_two(i) {
            2
        } else if takes_one(i) {
            1
        } else {
            0
        };
        let ghost before = self.stack@;
        let ghost rest = m.stack.take(n - k);
        match reply {
            Reply::Line(l) => {
                let t = trimmed_chars(&l);
                self.stack.push(Value::String(string_of(t.as_slice())));
                self.ip = ip + 1;
                assert(views(self.stack@) =~= m.stack.push(ValueView::Str(trimmed(l@))));
                Ok(())
            },
            Reply::Content(c) => {
                let path = operand_text(&self.stack[n - k]);
                self.stack.truncate(n - k);
                assert(views(self.stack@) =~= rest);
                match c {
                    Some(t) => {
                        self.stack.push(Value::String(t));
                        self.ip = ip + 1;
                        assert(views(self.stack@) =~= rest.push(ValueView::Str(t@)));
                        Ok(())
                    },
                    None => Err(VmError::InvalidPath { path: path, ip: ip }),
                }
            },
            Reply::Done(ok) => {
                let path = operand_text(&self.stack[n - k]);
                self.stack.truncate(n - k);
                assert(views(self.stack@) =~= rest);
                if ok {
                    self.ip = ip + 1;
                    Ok(())
                } else {
                    Err(VmError::InvalidPath { path: path, ip: ip })
                }
            },
            Reply::Value(v) => {
                self.stack.truncate(n - k);
                let ghost vv = v@;
                self.stack.push(v);
                self.ip = ip + 1;
                assert(views(self.stack@) =~= rest.push(vv));
                Ok(())
            },
            Reply::Float(f) => {
                let from = self.stack[n - 1].duplicate();
                self.stack.truncate(n - k);
                match f {
                    Some(b) => {
                        self.stack.push(Value::Float(b));
                        self.ip = ip + 1;
                        assert(views(self.stack@) =~= rest.push(ValueView::Float(b)));
                        Ok(())
                    },
                    None => {
                        assert(views(self.stack@) =~= rest);
                        Err(
                            VmError::ConversionError {
                                from: from,
                                to: String::from_str("float"),
                                ip: ip,
                            },
                        )
                    },
                }
            },
        }
    }
}

} // verus!
