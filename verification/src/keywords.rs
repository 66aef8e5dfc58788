//! The words of the language: each instruction without arguments is
//! written as its keyword, and each keyword names one instruction.
use vstd::prelude::*;

use crate::error::ParseErrorView;
use crate::instruction::{InstrView, is_plain, keyword};
use crate::parser::{float_literal_of, line_instruction, parse_spec, plain_instruction};
use crate::text::{is_space, lemma_word_alone, parse_i32_spec, parse_usize_spec};
use crate::value::ValueView;

verus! {

/// The letters of the keywords.
proof fn lemma_keyword_letters()
    ensures
        "pushspace"@.len() == 9 && "pushspace"@[0] == 'p' && "pushspace"@[1] == 'u'
            && "pushspace"@[2] == 's' && "pushspace"@[3] == 'h' && "pushspace"@[4] == 's'
            && "pushspace"@[5] == 'p' && "pushspace"@[6] == 'a' && "pushspace"@[7] == 'c'
            && "pushspace"@[8] == 'e',
        "pop"@.len() == 3 && "pop"@[0] == 'p' && "pop"@[1] == 'o' && "pop"@[2] == 'p',
        "dup"@.len() == 3 && "dup"@[0] == 'd' && "dup"@[1] == 'u' && "dup"@[2] == 'p',
        "add"@.len() == 3 && "add"@[0] == 'a' && "add"@[1] == 'd' && "add"@[2] == 'd',
        "sub"@.len() == 3 && "sub"@[0] == 's' && "sub"@[1] == 'u' && "sub"@[2] == 'b',
        "mul"@.len() == 3 && "mul"@[0] == 'm' && "mul"@[1] == 'u' && "mul"@[2] == 'l',
        "div"@.len() == 3 && "div"@[0] == 'd' && "div"@[1] == 'i' && "div"@[2] == 'v',
        "print"@.len() == 5 && "print"@[0] == 'p' && "print"@[1] == 'r' && "print"@[2] == 'i'
            && "print"@[3] == 'n' && "print"@[4] == 't',
        "println"@.len() == 7 && "println"@[0] == 'p' && "println"@[1] == 'r'
            && "println"@[2] == 'i' && "println"@[3] == 'n' && "println"@[4] == 't'
            && "println"@[5] == 'l' && "println"@[6] == 'n',
        "debug"@.len() == 5 && "debug"@[0] == 'd' && "debug"@[1] == 'e' && "debug"@[2] == 'b'
            && "debug"@[3] == 'u' && "debug"@[4] == 'g',
        "read"@.len() == 4 && "read"@[0] == 'r' && "read"@[1] == 'e' && "read"@[2] == 'a'
            && "read"@[3] == 'd',
        "readf"@.len() == 5 && "readf"@[0] == 'r' && "readf"@[1] == 'e' && "readf"@[2] == 'a'
            && "readf"@[3] == 'd' && "readf"@[4] == 'f',
        "writef"@.len() == 6 && "writef"@[0] == 'w' && "writef"@[1] == 'r' && "writef"@[2] == 'i'
            && "writef"@[3] == 't' && "writef"@[4] == 'e' && "writef"@[5] == 'f',
        "removef"@.len() == 7 && "removef"@[0] == 'r' && "removef"@[1] == 'e'
            && "removef"@[2] == 'm' && "removef"@[3] == 'o' && "removef"@[4] == 'v'
            && "removef"@[5] == 'e' && "removef"@[6] == 'f',
        "createdir"@.len() == 9 && "createdir"@[0] == 'c' && "createdir"@[1] == 'r'
            && "createdir"@[2] == 'e' && "createdir"@[3] == 'a' && "createdir"@[4] == 't'
            && "createdir"@[5] == 'e' && "createdir"@[6] == 'd' && "createdir"@[7] == 'i'
            && "createdir"@[8] == 'r',
        "removedir"@.len() == 9 && "removedir"@[0] == 'r' && "removedir"@[1] == 'e'
            && "removedir"@[2] == 'm' && "removedir"@[3] == 'o' && "removedir"@[4] == 'v'
            && "removedir"@[5] == 'e' && "removedir"@[6] == 'd' && "removedir"@[7] == 'i'
            && "removedir"@[8] == 'r',
        "stoi"@.len() == 4 && "stoi"@[0] == 's' && "stoi"@[1] == 't' && "stoi"@[2] == 'o'
            && "stoi"@[3] == 'i',
        "stof"@.len() == 4 && "stof"@[0] == 's' && "stof"@[1] == 't' && "stof"@[2] == 'o'
            && "stof"@[3] == 'f',
        "stob"@.len() == 4 && "stob"@[0] == 's' && "stob"@[1] == 't' && "stob"@[2] == 'o'
            && "stob"@[3] == 'b',
        "itof"@.len() == 4 && "itof"@[0] == 'i' && "itof"@[1] == 't' && "itof"@[2] == 'o'
            && "itof"@[3] == 'f',
        "itos"@.len() == 4 && "itos"@[0] == 'i' && "itos"@[1] == 't' && "itos"@[2] == 'o'
            && "itos"@[3] == 's',
        "itob"@.len() == 4 && "itob"@[0] == 'i' && "itob"@[1] == 't' && "itob"@[2] == 'o'
            && "itob"@[3] == 'b',
        "ftoi"@.len() == 4 && "ftoi"@[0] == 'f' && "ftoi"@[1] == 't' && "ftoi"@[2] == 'o'
            && "ftoi"@[3] == 'i',
        "ftos"@.len() == 4 && "ftos"@[0] == 'f' && "ftos"@[1] == 't' && "ftos"@[2] == 'o'
            && "ftos"@[3] == 's',
        "ftob"@.len() == 4 && "ftob"@[0] == 'f' && "ftob"@[1] == 't' && "ftob"@[2] == 'o'
            && "ftob"@[3] == 'b',
        "btoi"@.len() == 4 && "btoi"@[0] == 'b' && "btoi"@[1] == 't' && "btoi"@[2] == 'o'
            && "btoi"@[3] == 'i',
        "btof"@.len() == 4 && "btof"@[0] == 'b' && "btof"@[1] == 't' && "btof"@[2] == 'o'
            && "btof"@[3] == 'f',
        "btos"@.len() == 4 && "btos"@[0] == 'b' && "btos"@[1] == 't' && "btos"@[2] == 'o'
            && "btos"@[3] == 's',
        "eq"@.len() == 2 && "eq"@[0] == 'e' && "eq"@[1] == 'q',
        "ne"@.len() == 2 && "ne"@[0] == 'n' && "ne"@[1] == 'e',
        "gt"@.len() == 2 && "gt"@[0] == 'g' && "gt"@[1] == 't',
        "lt"@.len() == 2 && "lt"@[0] == 'l' && "lt"@[1] == 't',
        "ge"@.len() == 2 && "ge"@[0] == 'g' && "ge"@[1] == 'e',
        "le"@.len() == 2 && "le"@[0] == 'l' && "le"@[1] == 'e',
        "and"@.len() == 3 && "and"@[0] == 'a' && "and"@[1] == 'n' && "and"@[2] == 'd',
        "or"@.len() == 2 && "or"@[0] == 'o' && "or"@[1] == 'r',
        "not"@.len() == 3 && "not"@[0] == 'n' && "not"@[1] == 'o' && "not"@[2] == 't',
        "exit"@.len() == 4 && "exit"@[0] == 'e' && "exit"@[1] == 'x' && "exit"@[2] == 'i'
            && "exit"@[3] == 't',
        "push"@.len() == 4 && "push"@[0] == 'p' && "push"@[1] == 'u' && "push"@[2] == 's'
            && "push"@[3] == 'h',
        "pushstr"@.len() == 7 && "pushstr"@[0] == 'p' && "pushstr"@[1] == 'u'
            && "pushstr"@[2] == 's' && "pushstr"@[3] == 'h' && "pushstr"@[4] == 's'
            && "pushstr"@[5] == 't' && "pushstr"@[6] == 'r',
        "pushbool"@.len() == 8 && "pushbool"@[0] == 'p' && "pushbool"@[1] == 'u'
            && "pushbool"@[2] == 's' && "pushbool"@[3] == 'h' && "pushbool"@[4] == 'b'
            && "pushbool"@[5] == 'o' && "pushbool"@[6] == 'o' && "pushbool"@[7] == 'l',
        "store"@.len() == 5 && "store"@[0] == 's' && "store"@[1] == 't' && "store"@[2] == 'o'
            && "store"@[3] == 'r' && "store"@[4] == 'e',
        "load"@.len() == 4 && "load"@[0] == 'l' && "load"@[1] == 'o' && "load"@[2] == 'a'
            && "load"@[3] == 'd',
        "drop"@.len() == 4 && "drop"@[0] == 'd' && "drop"@[1] == 'r' && "drop"@[2] == 'o'
            && "drop"@[3] == 'p',
        "jump"@.len() == 4 && "jump"@[0] == 'j' && "jump"@[1] == 'u' && "jump"@[2] == 'm'
            && "jump"@[3] == 'p',
        "jumpif"@.len() == 6 && "jumpif"@[0] == 'j' && "jumpif"@[1] == 'u' && "jumpif"@[2] == 'm'
            && "jumpif"@[3] == 'p' && "jumpif"@[4] == 'i' && "jumpif"@[5] == 'f',
{
    reveal_strlit("pushspace");
    reveal_strlit("pop");
    reveal_strlit("dup");
    reveal_strlit("add");
    reveal_strlit("sub");
    reveal_strlit("mul");
    reveal_strlit("div");
    reveal_strlit("print");
    reveal_strlit("println");
    reveal_strlit("debug");
    reveal_strlit("read");
    reveal_strlit("readf");
    reveal_strlit("writef");
    reveal_strlit("removef");
    reveal_strlit("createdir");
    reveal_strlit("removedir");
    reveal_strlit("stoi");
    reveal_strlit("stof");
    reveal_strlit("stob");
    reveal_strlit("itof");
    reveal_strlit("itos");
    reveal_strlit("itob");
    reveal_strlit("ftoi");
    reveal_strlit("ftos");
    reveal_strlit("ftob");
    reveal_strlit("btoi");
    reveal_strlit("btof");
    reveal_strlit("btos");
    reveal_strlit("eq");
    reveal_strlit("ne");
    reveal_strlit("gt");
    reveal_strlit("lt");
    reveal_strlit("ge");
    reveal_strlit("le");
    reveal_strlit("and");
    reveal_strlit("or");
    reveal_strlit("not");
    reveal_strlit("exit");
    reveal_strlit("push");
    reveal_strlit("pushstr");
    reveal_strlit("pushbool");
    reveal_strlit("store");
    reveal_strlit("load");
    reveal_strlit("drop");
    reveal_strlit("jump");
    reveal_strlit("jumpif");
}

/// A keyword names the instruction that it is the keyword of, and that
/// instruction is one written without arguments.
pub proof fn law_keyword_names_its_instruction(w: Seq<char>)
    ensures
        plain_instruction(w) matches Some(i) ==> w == keyword(i) && is_plain(i),
{
}

/// No two keywords name the same instruction.
pub proof fn law_keywords_are_distinct(w1: Seq<char>, w2: Seq<char>)
    requires
        plain_instruction(w1) is Some,
        plain_instruction(w1) == plain_instruction(w2),
    ensures
        w1 == w2,
{
    law_keyword_names_its_instruction(w1);
    law_keyword_names_its_instruction(w2);
}

/// Every instruction written without arguments is read back from its
/// keyword.
pub proof fn law_each_keyword_is_read(i: InstrView)
    requires
        is_plain(i),
    ensures
        plain_instruction(keyword(i)) == Some(i),
{
    lemma_keyword_letters();
}

/// The keywords of instructions without arguments are none of the
/// keywords that take arguments.
proof fn lemma_plain_takes_no_argument(w: Seq<char>)
    requires
        plain_instruction(w) is Some,
    ensures
        w != "push"@ && w != "pushstr"@ && w != "pushbool"@ && w != "store"@,
        w != "load"@ && w != "drop"@ && w != "jump"@ && w != "jumpif"@,
{
    lemma_keyword_letters();
}

/// A line with a keyword of an instruction without arguments and
/// something after it is refused: the keyword takes no argument.
pub proof fn law_plain_keyword_takes_no_argument(
    ws: Seq<Seq<char>>,
    line: usize,
    float: Option<u64>,
)
    requires
        ws.len() >= 2,
        plain_instruction(ws[0]) is Some,
    ensures
        line_instruction(ws, line, float) == Err::<InstrView, ParseErrorView>(
            ParseErrorView::UnexpectedArgument { instruction: ws[0], line },
        ),
{
    lemma_plain_takes_no_argument(ws[0]);
}

/// A program of one keyword of an instruction without arguments (a word
/// without whitespace, `'#'` or line break) parses to that instruction
/// alone, whatever the host's float readings.
pub proof fn law_keyword_alone_parses(w: Seq<char>, floats: Seq<Option<u64>>)
    requires
        w.len() > 0,
        forall|j: int|
            0 <= j < w.len() ==> !is_space(#[trigger] w[j]) && w[j] != '#' && w[j] != '\n',
        plain_instruction(w) is Some,
    ensures
        parse_spec(w, floats) == Ok::<Seq<InstrView>, ParseErrorView>(
            seq![plain_instruction(w)->Some_0],
        ),
{
    lemma_word_alone(w);
    lemma_plain_takes_no_argument(w);
    let ls = crate::text::lines(w);
    let i = plain_instruction(w)->Some_0;
    let ws = seq![w];
    assert(ls[0] == w);
    assert(crate::parser::line_words(ls[0]) == ws);
    assert(ws[0] == w);
    assert(crate::parser::arity_error(ws, 0, w, 1) is None);
    let f = crate::parser::float_at(floats, 0);
    assert(line_instruction(ws, 1, f) == Ok::<InstrView, ParseErrorView>(i));
    assert(crate::parser::parse_upto(ls, 0, floats) == Ok::<Seq<InstrView>, ParseErrorView>(
        Seq::empty(),
    ));
    assert(Seq::<InstrView>::empty().push(plain_instruction(w)->Some_0) =~= seq![
        plain_instruction(w)->Some_0,
    ]);
}

/// A keyword is a word of lower-case letters.
proof fn lemma_keyword_is_a_word(i: InstrView)
    requires
        is_plain(i),
    ensures
        keyword(i).len() > 0,
        forall|j: int| 0 <= j < keyword(i).len() ==> 'a' <= #[trigger] keyword(i)[j] <= 'z',
{
    lemma_keyword_letters();
    let w = keyword(i);
    assert(0 < w.len() <= 9);
    assert forall|j: int| 0 <= j < w.len() implies 'a' <= #[trigger] w[j] <= 'z' by {
        assert(j == 0 || j == 1 || j == 2 || j == 3 || j == 4 || j == 5 || j == 6 || j == 7
            || j == 8);
    }
}

/// The keyword of an instruction without arguments, alone in a program,
/// parses to that instruction (the word `ne` to `Ne`, `gt` to `Gt`),
/// whatever the host's float readings.
pub proof fn law_keyword_program_parses(i: InstrView, floats: Seq<Option<u64>>)
    requires
        is_plain(i),
    ensures
        parse_spec(keyword(i), floats) == Ok::<Seq<InstrView>, ParseErrorView>(seq![i]),
{
    let w = keyword(i);
    lemma_keyword_is_a_word(i);
    law_each_keyword_is_read(i);
    assert forall|j: int| 0 <= j < w.len() implies !is_space(#[trigger] w[j]) && w[j] != '#'
        && w[j] != '\n' by {
        assert('a' <= w[j] <= 'z');
    }
    law_keyword_alone_parses(w, floats);
}

/// The keywords with arguments count them: `push`, `pushstr`,
/// `pushbool`, `store`, `load`, `drop` and `jump` take one, `jumpif`
/// two; with fewer the line is refused for a missing argument, with more
/// for an unexpected one, the error naming the keyword and the line.
pub proof fn law_arguments_are_counted(ws: Seq<Seq<char>>, line: usize, float: Option<u64>)
    requires
        ws.len() >= 1,
    ensures
        ws[0] == "push"@ && ws.len() == 1 ==> line_instruction(ws, line, float) == Err::<
            InstrView,
            ParseErrorView,
        >(ParseErrorView::MissingArgument { instruction: "push"@, line }),
        ws[0] == "push"@ && ws.len() > 2 ==> line_instruction(ws, line, float) == Err::<
            InstrView,
            ParseErrorView,
        >(ParseErrorView::UnexpectedArgument { instruction: "push"@, line }),
        ws[0] == "pushstr"@ && ws.len() == 1 ==> line_instruction(ws, line, float) == Err::<
            InstrView,
            ParseErrorView,
        >(ParseErrorView::MissingArgument { instruction: "pushstr"@, line }),
        ws[0] == "pushstr"@ && ws.len() > 2 ==> line_instruction(ws, line, float) == Err::<
            InstrView,
            ParseErrorView,
        >(ParseErrorView::UnexpectedArgument { instruction: "pushstr"@, line }),
        ws[0] == "pushbool"@ && ws.len() == 1 ==> line_instruction(ws, line, float) == Err::<
            InstrView,
            ParseErrorView,
        >(ParseErrorView::MissingArgument { instruction: "pushbool"@, line }),
        ws[0] == "pushbool"@ && ws.len() > 2 ==> line_instruction(ws, line, float) == Err::<
            InstrView,
            ParseErrorView,
        >(ParseErrorView::UnexpectedArgument { instruction: "pushbool"@, line }),
        ws[0] == "store"@ && ws.len() == 1 ==> line_instruction(ws, line, float) == Err::<
            InstrView,
            ParseErrorView,
        >(ParseErrorView::MissingArgument { instruction: "store"@, line }),
        ws[0] == "store"@ && ws.len() > 2 ==> line_instruction(ws, line, float) == Err::<
            InstrView,
            ParseErrorView,
        >(ParseErrorView::UnexpectedArgument { instruction: "store"@, line }),
        ws[0] == "load"@ && ws.len() == 1 ==> line_instruction(ws, line, float) == Err::<
            InstrView,
            ParseErrorView,
        >(ParseErrorView::MissingArgument { instruction: "load"@, line }),
        ws[0] == "load"@ && ws.len() > 2 ==> line_instruction(ws, line, float) == Err::<
            InstrView,
            ParseErrorView,
        >(ParseErrorView::UnexpectedArgument { instruction: "load"@, line }),
        ws[0] == "drop"@ && ws.len() == 1 ==> line_instruction(ws, line, float) == Err::<
            InstrView,
            ParseErrorView,
        >(ParseErrorView::MissingArgument { instruction: "drop"@, line }),
        ws[0] == "drop"@ && ws.len() > 2 ==> line_instruction(ws, line, float) == Err::<
            InstrView,
            ParseErrorView,
        >(ParseErrorView::UnexpectedArgument { instruction: "drop"@, line }),
        ws[0] == "jump"@ && ws.len() == 1 ==> line_instruction(ws, line, float) == Err::<
            InstrView,
            ParseErrorView,
        >(ParseErrorView::MissingArgument { instruction: "jump"@, line }),
        ws[0] == "jump"@ && ws.len() > 2 ==> line_instruction(ws, line, float) == Err::<
            InstrView,
            ParseErrorView,
        >(ParseErrorView::UnexpectedArgument { instruction: "jump"@, line }),
        ws[0] == "jumpif"@ && ws.len() < 3 ==> line_instruction(ws, line, float) == Err::<
            InstrView,
            ParseErrorView,
        >(ParseErrorView::MissingArgument { instruction: "jumpif"@, line }),
        ws[0] == "jumpif"@ && ws.len() > 3 ==> line_instruction(ws, line, float) == Err::<
            InstrView,
            ParseErrorView,
        >(ParseErrorView::UnexpectedArgument { instruction: "jumpif"@, line }),
{
    lemma_keyword_letters();
}

/// The instructions with a word as argument take it as it is: `pushstr
/// t` pushes the text `t`, `store n`, `load n` and `drop n` name the
/// variable `n`.
pub proof fn law_word_arguments(t: Seq<char>, line: usize, float: Option<u64>)
    ensures
        line_instruction(seq!["pushstr"@, t], line, float) == Ok::<InstrView, ParseErrorView>(
            InstrView::PushStr(t),
        ),
        line_instruction(seq!["store"@, t], line, float) == Ok::<InstrView, ParseErrorView>(
            InstrView::Store(t),
        ),
        line_instruction(seq!["load"@, t], line, float) == Ok::<InstrView, ParseErrorView>(
            InstrView::Load(t),
        ),
        line_instruction(seq!["drop"@, t], line, float) == Ok::<InstrView, ParseErrorView>(
            InstrView::Drop(t),
        ),
{
    lemma_keyword_letters();
}

/// The numbers of `push`, `pushbool` and `jump`: `push` reads a text with
/// a `'.'` as a float (the host's reading of it) and any other as an
/// `i32`; `pushbool` takes `true` and `false`; `jump` an address. A text
/// that is none of these is refused, naming it and the line.
pub proof fn law_number_arguments(t: Seq<char>, line: usize, float: Option<u64>)
    ensures
        !t.contains('.') ==> line_instruction(seq!["push"@, t], line, float)
            == match parse_i32_spec(t) {
            Some(x) => Ok::<InstrView, ParseErrorView>(InstrView::Push(ValueView::Int(x))),
            None => Err(ParseErrorView::InvalidNumber { value: t, line }),
        },
        t.contains('.') ==> line_instruction(seq!["push"@, t], line, float) == match float {
            Some(b) => Ok::<InstrView, ParseErrorView>(InstrView::Push(ValueView::Float(b))),
            None => Err(ParseErrorView::InvalidNumber { value: t, line }),
        },
        line_instruction(seq!["pushbool"@, t], line, float) == if t == "true"@ {
            Ok::<InstrView, ParseErrorView>(InstrView::PushBool(true))
        } else if t == "false"@ {
            Ok(InstrView::PushBool(false))
        } else {
            Err(ParseErrorView::InvalidBool { value: t, line })
        },
        line_instruction(seq!["jump"@, t], line, float) == match parse_usize_spec(t) {
            Some(a) => Ok::<InstrView, ParseErrorView>(InstrView::Jump(a)),
            None => Err(ParseErrorView::InvalidNumber { value: t, line }),
        },
{
    lemma_keyword_letters();
}

/// The value of `jumpif v a` is `true` or `false` as a boolean, else a
/// text with a `'.'` as a float (the host's reading; refused when the host
/// read none), else an `i32` when it is one, else the text itself; the
/// address must be one.
pub proof fn law_jumpif_arguments(v: Seq<char>, a: Seq<char>, line: usize, float: Option<u64>)
    ensures
        parse_usize_spec(a) is None && (v == "true"@ || v == "false"@ || !v.contains('.')
            || float is Some) ==> line_instruction(seq!["jumpif"@, v, a], line, float) == Err::<
            InstrView,
            ParseErrorView,
        >(ParseErrorView::InvalidNumber { value: a, line }),
        parse_usize_spec(a) matches Some(k) ==> line_instruction(
            seq!["jumpif"@, v, a],
            line,
            float,
        ) == if v == "true"@ {
            Ok::<InstrView, ParseErrorView>(InstrView::JumpIf(ValueView::Bool(true), k))
        } else if v == "false"@ {
            Ok(InstrView::JumpIf(ValueView::Bool(false), k))
        } else if v.contains('.') {
            match float {
                Some(b) => Ok(InstrView::JumpIf(ValueView::Float(b), k)),
                None => Err(ParseErrorView::InvalidNumber { value: v, line }),
            }
        } else {
            match parse_i32_spec(v) {
                Some(x) => Ok(InstrView::JumpIf(ValueView::Int(x), k)),
                None => Ok(InstrView::JumpIf(ValueView::Str(v), k)),
            }
        },
{
    lemma_keyword_letters();
}

/// A line whose first word is no keyword is refused as an unknown
/// instruction, naming the word and the line.
pub proof fn law_unknown_word(ws: Seq<Seq<char>>, line: usize, float: Option<u64>)
    requires
        ws.len() >= 1,
        plain_instruction(ws[0]) is None,
        ws[0] != "push"@ && ws[0] != "pushstr"@ && ws[0] != "pushbool"@ && ws[0] != "store"@
            && ws[0] != "load"@ && ws[0] != "drop"@ && ws[0] != "jump"@ && ws[0] != "jumpif"@,
    ensures
        line_instruction(ws, line, float) == Err::<InstrView, ParseErrorView>(
            ParseErrorView::UnknownInstruction { instruction: ws[0], line },
        ),
{
}

/// The texts that the host reads as floats: the argument of `push` when
/// it holds a `'.'`, and the value of `jumpif` when it holds a `'.'` and
/// is not a boolean; no other line has one.
pub proof fn law_float_texts(ws: Seq<Seq<char>>, t: Seq<char>, a: Seq<char>)
    ensures
        float_literal_of(seq!["push"@, t]) == if t.contains('.') {
            Some(t)
        } else {
            None
        },
        float_literal_of(seq!["jumpif"@, t, a]) == if t.contains('.') && t != "true"@ && t
            != "false"@ {
            Some(t)
        } else {
            None
        },
        ws.len() >= 1 && ws[0] != "push"@ && ws[0] != "jumpif"@ ==> float_literal_of(ws) is None,
{
    lemma_keyword_letters();
}

} // verus!
