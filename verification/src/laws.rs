//! Properties of the machine and of the parser that hold across
//! instructions, calls and inputs.
use vstd::prelude::*;

use crate::error::{ParseErrorView, VmErrorView};
use crate::instruction::InstrView;
use crate::parser::{
    float_at, float_literal_of, float_literals_spec, lemma_float_irrelevant,
    lemma_line_error_line, lemma_line_number_irrelevant, line_instruction, line_words,
    literals_upto, parse_spec, parse_upto,
};
use crate::text::{
    int_text, is_space, law_i32_text_parses_back, leading_spaces, lines, text_lt,
    trailing_spaces, trimmed,
};
use crate::value::{
    ValueView, float_as_int, float_eq, float_is_nan, int_as_float, law_int_float_round_trip,
};
use crate::vm::{
    ActionView, CmpOp, Effect, MachineView, ReplyView, VM, answers, compare_effect, resume_spec,
    step_spec, unary_effect,
};

verus! {

// ---------------------------------------------------------------------
// The machine
// ---------------------------------------------------------------------

/// Pushing a value and then popping it leaves the machine as it was, two
/// instructions further on.
pub proof fn law_push_then_pop(m: MachineView, prog: Seq<InstrView>, v: ValueView)
    requires
        0 <= m.ip,
        m.ip + 1 < prog.len(),
        prog[m.ip] == InstrView::Push(v),
        prog[m.ip + 1] == InstrView::Pop,
    ensures
        ({
            let (m1, r1) = step_spec(m, prog);
            let (m2, r2) = step_spec(m1, prog);
            &&& r1 == Ok::<ActionView, VmErrorView>(ActionView::Continue)
            &&& r2 == Ok::<ActionView, VmErrorView>(ActionView::Continue)
            &&& m2.stack == m.stack
            &&& m2.vars == m.vars
            &&& m2.ip == m.ip + 2
        }),
{
    let (m1, r1) = step_spec(m, prog);
    assert(m1.stack.drop_last() =~= m.stack);
}

/// Loading a variable right after storing it gives back the stored value:
/// the stack is as before the store, and the variable holds its top.
pub proof fn law_store_then_load(m: MachineView, prog: Seq<InstrView>, name: Seq<char>)
    requires
        0 <= m.ip,
        m.ip + 1 < prog.len(),
        prog[m.ip] == InstrView::Store(name),
        prog[m.ip + 1] == InstrView::Load(name),
        m.stack.len() > 0,
    ensures
        ({
            let (m1, r1) = step_spec(m, prog);
            let (m2, r2) = step_spec(m1, prog);
            &&& r1 == Ok::<ActionView, VmErrorView>(ActionView::Continue)
            &&& r2 == Ok::<ActionView, VmErrorView>(ActionView::Continue)
            &&& m2.stack == m.stack
            &&& m2.vars == m.vars.insert(name, m.stack.last())
            &&& m2.ip == m.ip + 2
        }),
{
    let (m1, r1) = step_spec(m, prog);
    assert(m1.stack.push(m1.vars[name]) =~= m.stack);
}

/// A variable that was dropped is undefined: loading it right after is an
/// error that names it.
pub proof fn law_drop_then_load(m: MachineView, prog: Seq<InstrView>, name: Seq<char>)
    requires
        0 <= m.ip,
        m.ip + 1 < prog.len(),
        m.ip + 1 <= usize::MAX,
        prog[m.ip] == InstrView::Drop(name),
        prog[m.ip + 1] == InstrView::Load(name),
    ensures
        ({
            let (m1, r1) = step_spec(m, prog);
            let (m2, r2) = step_spec(m1, prog);
            &&& r2 == Err::<ActionView, VmErrorView>(
                VmErrorView::UndefinedVariable { name, ip: (m.ip + 1) as usize },
            )
            &&& m2 == m1
        }),
{
}

/// A halted machine stays halted: the step that halts changes nothing, so
/// every later step halts too.
pub proof fn law_halt_is_final(m: MachineView, prog: Seq<InstrView>)
    requires
        step_spec(m, prog).1 == Ok::<ActionView, VmErrorView>(ActionView::Halt),
    ensures
        step_spec(m, prog).0 == m,
        step_spec(step_spec(m, prog).0, prog) == step_spec(m, prog),
{
}

/// An error names the instruction that failed: the instruction pointer
/// of the machine at that step, whether the step or the host's answer
/// fails; and the machine stays at that instruction.
pub proof fn law_errors_name_the_instruction(
    m: MachineView,
    prog: Seq<InstrView>,
    reply: ReplyView,
)
    requires
        0 <= m.ip <= usize::MAX,
    ensures
        step_spec(m, prog).1 matches Err(e) ==> e.ip() == m.ip && step_spec(m, prog).0.ip == m.ip,
        resume_spec(m, prog, reply).1 matches Err(e) ==> e.ip() == m.ip,
{
}

/// A step that asks the host for an answer leaves the machine as it is,
/// so that the answer completes the instruction from the same state.
pub proof fn law_asking_changes_nothing(
    m: MachineView,
    prog: Seq<InstrView>,
    reply: ReplyView,
)
    requires
        step_spec(m, prog).1 matches Ok(a) && answers(a, reply),
    ensures
        step_spec(m, prog).0 == m,
{
}

/// The host's answer completes the instruction: when it is not a
/// failure, the machine goes on with the next instruction, its variables
/// untouched.
pub proof fn law_answer_moves_on(m: MachineView, prog: Seq<InstrView>, reply: ReplyView)
    ensures
        resume_spec(m, prog, reply).1 is Ok ==> {
            &&& resume_spec(m, prog, reply).0.ip == m.ip + 1
            &&& resume_spec(m, prog, reply).0.vars == m.vars
        },
        resume_spec(m, prog, reply).1 is Err ==> {
            &&& resume_spec(m, prog, reply).0.ip == m.ip
            &&& resume_spec(m, prog, reply).0.vars == m.vars
        },
{
}

/// Only `jump` and `jumpif` send the machine anywhere but to the next
/// instruction: every other instruction that completes in a step moves
/// the pointer by one.
pub proof fn law_only_jumps_jump(m: MachineView, prog: Seq<InstrView>)
    requires
        0 <= m.ip < prog.len(),
        !(prog[m.ip] is Jump),
        !(prog[m.ip] is JumpIf),
        step_spec(m, prog).1 matches Ok(a) && (a is Continue || a is Print || a is Newline
            || a is ShowStack),
    ensures
        step_spec(m, prog).0.ip == m.ip + 1,
{
}

/// Only `store` and `drop` change variables.
pub proof fn law_only_store_and_drop_touch_variables(m: MachineView, prog: Seq<InstrView>)
    requires
        0 <= m.ip < prog.len() ==> !(prog[m.ip] is Store) && !(prog[m.ip] is Drop),
    ensures
        step_spec(m, prog).0.vars == m.vars,
{
}

/// `jumpif` looks at the top of the stack without taking it.
pub proof fn law_jumpif_keeps_the_stack(m: MachineView, prog: Seq<InstrView>)
    requires
        0 <= m.ip < prog.len(),
        prog[m.ip] is JumpIf,
    ensures
        step_spec(m, prog).0.stack == m.stack,
{
}

/// `eq` and `ne` answer opposite questions: on the same two values, both
/// push booleans that differ, both ask the host, or both fail.
pub proof fn law_eq_ne_opposite(a: ValueView, b: ValueView, ip: usize)
    ensures
        match (compare_effect(CmpOp::Eq, a, b, ip), compare_effect(CmpOp::Ne, a, b, ip)) {
            (Effect::Push(ValueView::Bool(x)), Effect::Push(ValueView::Bool(y))) => x == !y,
            (Effect::Ask(_), Effect::Ask(_)) => true,
            (Effect::Fail(_), Effect::Fail(_)) => true,
            _ => false,
        },
{
}

/// `ge` is the negation of `lt`, and `le` that of `gt`, on strings and
/// on integers.
pub proof fn law_order_negations(a: ValueView, b: ValueView, ip: usize)
    requires
        (a is Str && b is Str) || (a is Int && b is Int),
    ensures
        match (compare_effect(CmpOp::Ge, a, b, ip), compare_effect(CmpOp::Lt, a, b, ip)) {
            (Effect::Push(ValueView::Bool(x)), Effect::Push(ValueView::Bool(y))) => x == !y,
            _ => false,
        },
        match (compare_effect(CmpOp::Le, a, b, ip), compare_effect(CmpOp::Gt, a, b, ip)) {
            (Effect::Push(ValueView::Bool(x)), Effect::Push(ValueView::Bool(y))) => x == !y,
            _ => false,
        },
{
}

/// A NaN equals nothing, itself included.
pub proof fn law_nan_is_unequal(x: u64, y: u64)
    requires
        float_is_nan(x),
    ensures
        !float_eq(x, y),
        !float_eq(y, x),
{
}

/// Text without whitespace at either end is its own trimmed form.
proof fn lemma_trimmed_unchanged(s: Seq<char>)
    requires
        s.len() > 0,
        !is_space(s[0]),
        !is_space(s.last()),
    ensures
        trimmed(s) == s,
{
    assert(leading_spaces(s) == 0);
    assert(trailing_spaces(s) == 0);
    assert(s.subrange(0, s.len() as int) =~= s);
}

/// Writing an integer as text (`itos`) and reading it back (`stoi`) gives
/// the integer.
pub proof fn law_itos_then_stoi(x: i32, ip: usize)
    ensures
        ({
            let t = int_text(x as int);
            &&& unary_effect(InstrView::ItoS, ValueView::Int(x), ip) == Effect::Push(
                ValueView::Str(t),
            )
            &&& unary_effect(InstrView::StoI, ValueView::Str(t), ip) == Effect::Push(
                ValueView::Int(x),
            )
        }),
{
    let t = int_text(x as int);
    law_i32_text_parses_back(x);
    crate::text::lemma_int_text_shape(x as int);
    lemma_trimmed_unchanged(t);
}

/// Converting an integer to a float (`itof`) and back (`ftoi`) gives the
/// integer.
pub proof fn law_itof_then_ftoi(x: i32, ip: usize)
    ensures
        unary_effect(InstrView::ItoF, ValueView::Int(x), ip) == Effect::Push(
            ValueView::Float(int_as_float(x)),
        ),
        unary_effect(InstrView::FtoI, ValueView::Float(int_as_float(x)), ip) == Effect::Push(
            ValueView::Int(x),
        ),
{
    law_int_float_round_trip(x);
}

/// An integer equals itself converted to a float.
pub proof fn law_int_equals_its_float(x: i32, ip: usize)
    ensures
        compare_effect(CmpOp::Eq, ValueView::Int(x), ValueView::Float(int_as_float(x)), ip)
            == Effect::Push(ValueView::Bool(true)),
{
    crate::value::lemma_int_float_not_nan(x);
}

/// Writing a boolean as text (`btos`) and reading it back (`stob`) gives
/// the boolean.
pub proof fn law_btos_then_stob(b: bool, ip: usize)
    ensures
        ({
            let t = if b {
                "true"@
            } else {
                "false"@
            };
            &&& unary_effect(InstrView::BtoS, ValueView::Bool(b), ip) == Effect::Push(
                ValueView::Str(t),
            )
            &&& unary_effect(InstrView::StoB, ValueView::Str(t), ip) == Effect::Push(
                ValueView::Bool(b),
            )
        }),
{
    reveal_strlit("true");
    reveal_strlit("false");
    let t = if b {
        "true"@
    } else {
        "false"@
    };
    lemma_trimmed_unchanged(t);
}

// ---------------------------------------------------------------------
// Strings
// ---------------------------------------------------------------------

/// No text comes before itself.
pub proof fn law_text_order_irreflexive(a: Seq<char>)
    ensures
        !text_lt(a, a),
    decreases a.len(),
{
    if a.len() > 0 {
        law_text_order_irreflexive(a.drop_first());
    }
}

/// Of two texts, at most one comes before the other.
pub proof fn law_text_order_asymmetric(a: Seq<char>, b: Seq<char>)
    ensures
        !(text_lt(a, b) && text_lt(b, a)),
    decreases a.len(),
{
    if a.len() > 0 && b.len() > 0 && a[0] == b[0] {
        law_text_order_asymmetric(a.drop_first(), b.drop_first());
    }
}

// ---------------------------------------------------------------------
// The parser
// ---------------------------------------------------------------------

/// The number of lines among the first `k` of `ls` that hold words.
pub open spec fn lines_with_words(ls: Seq<Seq<char>>, k: int) -> nat
    decreases k,
{
    if k <= 0 {
        0
    } else {
        lines_with_words(ls, k - 1) + if line_words(ls[k - 1]).len() > 0 {
            1nat
        } else {
            0nat
        }
    }
}

proof fn lemma_parse_upto_count(ls: Seq<Seq<char>>, k: int, floats: Seq<Option<u64>>)
    requires
        0 <= k,
    ensures
        parse_upto(ls, k, floats) matches Ok(instrs) ==> instrs.len() == lines_with_words(ls, k),
    decreases k,
{
    if k > 0 {
        lemma_parse_upto_count(ls, k - 1, floats);
    }
}

/// A program that parses has one instruction for each line that holds
/// words: blank lines and lines of comment only give none.
pub proof fn law_one_instruction_per_line(source: Seq<char>, floats: Seq<Option<u64>>)
    ensures
        parse_spec(source, floats) matches Ok(instrs) ==> instrs.len() == lines_with_words(
            lines(source),
            lines(source).len() as int,
        ),
{
    lemma_parse_upto_count(lines(source), lines(source).len() as int, floats);
}

/// The error of a program that does not parse is about one of its lines,
/// and every line before it parses.
pub proof fn law_error_is_first_wrong_line(source: Seq<char>, floats: Seq<Option<u64>>)
    requires
        source.len() < usize::MAX,
    ensures
        parse_spec(source, floats) matches Err(e) ==> {
            let ls = lines(source);
            &&& 1 <= e.line() <= ls.len()
            &&& parse_upto(ls, e.line() - 1, floats) is Ok
        },
{
    crate::text::lemma_lines_len(source);
    lemma_error_line(lines(source), lines(source).len() as int, floats);
}

proof fn lemma_error_line(ls: Seq<Seq<char>>, k: int, floats: Seq<Option<u64>>)
    requires
        0 <= k <= ls.len(),
        ls.len() <= usize::MAX,
    ensures
        parse_upto(ls, k, floats) matches Err(e) ==> {
            let l = e.line() as int;
            &&& 1 <= l <= k
            &&& parse_upto(ls, l - 1, floats) is Ok
            &&& line_words(ls[l - 1]).len() > 0
            &&& line_instruction(
                line_words(ls[l - 1]),
                e.line(),
                float_at(floats, literals_upto(ls, l - 1).len() as int),
            ) == Err::<InstrView, ParseErrorView>(e)
        },
    decreases k,
{
    if k > 0 {
        lemma_error_line(ls, k - 1, floats);
        let ws = line_words(ls[k - 1]);
        if ws.len() > 0 {
            let f = float_at(floats, literals_upto(ls, k - 1).len() as int);
            lemma_line_error_line(ws, k as usize, f);
        }
    }
}

/// The instruction of each line with words stands in the parsed program
/// at the place given by the number of lines with words before it: the
/// program holds the instructions of its lines, in their order.
pub proof fn law_each_line_gives_its_instruction(source: Seq<char>, floats: Seq<Option<u64>>)
    ensures
        parse_spec(source, floats) matches Ok(instrs) ==> {
            let ls = lines(source);
            forall|j: int|
                0 <= j < ls.len() && line_words(#[trigger] ls[j]).len() > 0 ==> {
                    &&& lines_with_words(ls, j) < instrs.len()
                    &&& line_instruction(
                        line_words(ls[j]),
                        (j + 1) as usize,
                        float_at(floats, literals_upto(ls, j).len() as int),
                    ) == Ok::<InstrView, ParseErrorView>(instrs[lines_with_words(ls, j) as int])
                }
        },
{
    lemma_parse_upto_lines(lines(source), lines(source).len() as int, floats);
}

proof fn lemma_lines_with_words_monotone(ls: Seq<Seq<char>>, i: int, k: int)
    requires
        0 <= i <= k,
    ensures
        lines_with_words(ls, i) <= lines_with_words(ls, k),
    decreases k,
{
    if i < k {
        lemma_lines_with_words_monotone(ls, i, k - 1);
    }
}

proof fn lemma_parse_upto_lines(ls: Seq<Seq<char>>, k: int, floats: Seq<Option<u64>>)
    requires
        0 <= k,
    ensures
        parse_upto(ls, k, floats) matches Ok(acc) ==> forall|j: int|
            0 <= j < k && line_words(#[trigger] ls[j]).len() > 0 ==> {
                &&& lines_with_words(ls, j) < acc.len()
                &&& line_instruction(
                    line_words(ls[j]),
                    (j + 1) as usize,
                    float_at(floats, literals_upto(ls, j).len() as int),
                ) == Ok::<InstrView, ParseErrorView>(acc[lines_with_words(ls, j) as int])
            },
    decreases k,
{
    if k > 0 {
        lemma_parse_upto_lines(ls, k - 1, floats);
        lemma_parse_upto_count(ls, k - 1, floats);
        if let Ok(acc) = parse_upto(ls, k, floats) {
            let prev = parse_upto(ls, k - 1, floats)->Ok_0;
            assert forall|j: int|
                0 <= j < k && line_words(#[trigger] ls[j]).len() > 0 implies {
                &&& lines_with_words(ls, j) < acc.len()
                &&& line_instruction(
                    line_words(ls[j]),
                    (j + 1) as usize,
                    float_at(floats, literals_upto(ls, j).len() as int),
                ) == Ok::<InstrView, ParseErrorView>(acc[lines_with_words(ls, j) as int])
            } by {
                if j < k - 1 {
                    lemma_lines_with_words_monotone(ls, j + 1, k - 1);
                    assert(acc[lines_with_words(ls, j) as int] == prev[lines_with_words(
                        ls,
                        j,
                    ) as int]);
                }
            }
        }
    }
}

/// The error of a program that does not parse is that of its first wrong
/// line, which, parsed alone with the host's reading of its float text,
/// gives the same error said of line 1.
pub proof fn law_wrong_line_alone(source: Seq<char>, floats: Seq<Option<u64>>)
    requires
        source.len() < usize::MAX,
    ensures
        parse_spec(source, floats) matches Err(e) ==> {
            let ls = lines(source);
            let l = e.line() as int;
            parse_spec(ls[l - 1], seq![float_at(floats, literals_upto(ls, l - 1).len() as int)])
                == Err::<Seq<InstrView>, ParseErrorView>(e.with_line(1))
        },
{
    let ls = lines(source);
    crate::text::lemma_lines_len(source);
    lemma_error_line(ls, ls.len() as int, floats);
    if let Err(e) = parse_spec(source, floats) {
        let l = e.line() as int;
        let t = ls[l - 1];
        let f = float_at(floats, literals_upto(ls, l - 1).len() as int);
        crate::text::lemma_lines_have_no_newline(source);
        assert(crate::text::no_newline(t));
        crate::text::lemma_one_line(t);
        let ws = line_words(t);
        crate::parser::lemma_line_number_irrelevant(ws, e.line(), 1, f);
        assert(lines(t)[0] == t);
        assert(float_at(seq![f], 0) == f);
        assert(parse_upto(lines(t), 0, seq![f]) == Ok::<Seq<InstrView>, ParseErrorView>(
            Seq::empty(),
        ));
    }
}

proof fn lemma_literals_prefix(ls1: Seq<Seq<char>>, ls2: Seq<Seq<char>>, k: int)
    requires
        0 <= k <= ls1.len(),
    ensures
        literals_upto(ls1 + ls2, k) == literals_upto(ls1, k),
    decreases k,
{
    if k > 0 {
        lemma_literals_prefix(ls1, ls2, k - 1);
        assert((ls1 + ls2)[k - 1] == ls1[k - 1]);
    }
}

proof fn lemma_literals_suffix(ls1: Seq<Seq<char>>, ls2: Seq<Seq<char>>, k: int)
    requires
        0 <= k <= ls2.len(),
    ensures
        literals_upto(ls1 + ls2, ls1.len() + k) == literals_upto(ls1, ls1.len() as int)
            + literals_upto(ls2, k),
    decreases k,
{
    if k > 0 {
        lemma_literals_suffix(ls1, ls2, k - 1);
        assert((ls1 + ls2)[ls1.len() + k - 1] == ls2[k - 1]);
        assert(literals_upto(ls1 + ls2, ls1.len() + k) =~= literals_upto(ls1, ls1.len() as int)
            + literals_upto(ls2, k));
    } else {
        lemma_literals_prefix(ls1, ls2, ls1.len() as int);
        assert(literals_upto(ls1, ls1.len() as int) + literals_upto(ls2, 0) =~= literals_upto(
            ls1,
            ls1.len() as int,
        ));
    }
}

proof fn lemma_literals_monotone(ls: Seq<Seq<char>>, i: int, k: int)
    requires
        0 <= i <= k,
    ensures
        literals_upto(ls, i).len() <= literals_upto(ls, k).len(),
    decreases k,
{
    if i < k {
        lemma_literals_monotone(ls, i, k - 1);
    }
}

/// Parsing the lines of the first text within the joined text gives what
/// parsing the first text gives.
proof fn lemma_parse_prefix(
    ls1: Seq<Seq<char>>,
    ls2: Seq<Seq<char>>,
    k: int,
    f1: Seq<Option<u64>>,
    f2: Seq<Option<u64>>,
)
    requires
        0 <= k <= ls1.len(),
        f1.len() == literals_upto(ls1, ls1.len() as int).len(),
    ensures
        parse_upto(ls1 + ls2, k, f1 + f2) == parse_upto(ls1, k, f1),
    decreases k,
{
    if k > 0 {
        lemma_parse_prefix(ls1, ls2, k - 1, f1, f2);
        lemma_literals_prefix(ls1, ls2, k - 1);
        assert((ls1 + ls2)[k - 1] == ls1[k - 1]);
        let ws = line_words(ls1[k - 1]);
        let idx = literals_upto(ls1, k - 1).len() as int;
        if ws.len() > 0 {
            if float_literal_of(ws) is Some {
                lemma_literals_monotone(ls1, k, ls1.len() as int);
                assert(idx < f1.len());
                assert(float_at(f1 + f2, idx) == float_at(f1, idx));
            } else {
                lemma_float_irrelevant(ws, k as usize, float_at(f1 + f2, idx), float_at(f1, idx));
            }
        }
    }
}

/// Parsing the lines of the second text within the joined text gives the
/// instructions of the first followed by those of the second.
proof fn lemma_parse_suffix(
    ls1: Seq<Seq<char>>,
    ls2: Seq<Seq<char>>,
    k: int,
    f1: Seq<Option<u64>>,
    f2: Seq<Option<u64>>,
    x: Seq<InstrView>,
)
    requires
        0 <= k <= ls2.len(),
        f1.len() == literals_upto(ls1, ls1.len() as int).len(),
        parse_upto(ls1, ls1.len() as int, f1) == Ok::<Seq<InstrView>, ParseErrorView>(x),
    ensures
        parse_upto(ls2, k, f2) matches Ok(y) ==> parse_upto(ls1 + ls2, ls1.len() + k, f1 + f2)
            == Ok::<Seq<InstrView>, ParseErrorView>(x + y),
    decreases k,
{
    if k == 0 {
        lemma_parse_prefix(ls1, ls2, ls1.len() as int, f1, f2);
        assert(x + Seq::<InstrView>::empty() =~= x);
    } else {
        lemma_parse_suffix(ls1, ls2, k - 1, f1, f2, x);
        if let Ok(y) = parse_upto(ls2, k, f2) {
            let y0 = parse_upto(ls2, k - 1, f2)->Ok_0;
            let n1 = ls1.len() as int;
            assert((ls1 + ls2)[n1 + k - 1] == ls2[k - 1]);
            lemma_literals_suffix(ls1, ls2, k - 1);
            let ws = line_words(ls2[k - 1]);
            if ws.len() > 0 {
                let j = literals_upto(ls2, k - 1).len() as int;
                assert(float_at(f1 + f2, f1.len() + j) == float_at(f2, j));
                lemma_line_number_irrelevant(ws, k as usize, (n1 + k) as usize, float_at(f2, j));
                let i = line_instruction(ws, k as usize, float_at(f2, j))->Ok_0;
                assert((x + y0).push(i) =~= x + y0.push(i));
            }
        }
    }
}

/// Parsing two texts joined by a line break gives the instructions of the
/// first followed by those of the second, the host's float readings
/// joined in the same way (those of the first being one for each of its
/// float texts); and the float texts of the joined text are those of the
/// first followed by those of the second.
pub proof fn law_parse_joined(
    a: Seq<char>,
    b: Seq<char>,
    fa: Seq<Option<u64>>,
    fb: Seq<Option<u64>>,
)
    requires
        fa.len() == float_literals_spec(a).len(),
    ensures
        float_literals_spec(a + seq!['\n'] + b) == float_literals_spec(a) + float_literals_spec(b),
        (parse_spec(a, fa) is Ok && parse_spec(b, fb) is Ok) ==> parse_spec(
            a + seq!['\n'] + b,
            fa + fb,
        ) == Ok::<Seq<InstrView>, ParseErrorView>(
            parse_spec(a, fa)->Ok_0 + parse_spec(b, fb)->Ok_0,
        ),
{
    let ls1 = lines(a);
    let ls2 = lines(b);
    crate::text::lemma_lines_join(a, b);
    lemma_literals_suffix(ls1, ls2, ls2.len() as int);
    let joined = a + seq!['\n'] + b;
    assert(lines(joined) == ls1 + ls2);
    assert(lines(joined).len() as int == ls1.len() + ls2.len() as int);
    if let Ok(x) = parse_spec(a, fa) {
        lemma_parse_suffix(ls1, ls2, ls2.len() as int, fa, fb, x);
        assert(parse_spec(joined, fa + fb) == parse_upto(
            ls1 + ls2,
            ls1.len() + ls2.len() as int,
            fa + fb,
        ));
        if let Ok(y) = parse_spec(b, fb) {
            assert(parse_upto(ls2, ls2.len() as int, fb) == Ok::<Seq<InstrView>, ParseErrorView>(
                y,
            ));
            assert(parse_spec(joined, fa + fb) == Ok::<Seq<InstrView>, ParseErrorView>(x + y));
        }
    }
}

// ---------------------------------------------------------------------
// Where runs end
// ---------------------------------------------------------------------

/// A run ends only past the last instruction or at `exit`, and a step
/// fails only at an instruction of the program.
pub proof fn law_where_runs_end(m: MachineView, prog: Seq<InstrView>)
    ensures
        step_spec(m, prog).1 == Ok::<ActionView, VmErrorView>(ActionView::Halt) ==> !(0 <= m.ip
            < prog.len()) || prog[m.ip] is Exit,
        step_spec(m, prog).1 is Err ==> 0 <= m.ip < prog.len(),
{
}

/// On a machine, an error names the instruction that failed and the
/// machine stays there, whether the step or the host's answer fails.
pub proof fn law_machine_errors_name_the_instruction(vm: VM, prog: Seq<InstrView>, reply: ReplyView)
    ensures
        step_spec(vm@, prog).1 matches Err(e) ==> e.ip() == vm@.ip && step_spec(vm@, prog).0.ip
            == vm@.ip,
        resume_spec(vm@, prog, reply).1 matches Err(e) ==> e.ip() == vm@.ip,
{
    vm.lemma_ip_fits();
    law_errors_name_the_instruction(vm@, prog, reply);
}

} // verus!
