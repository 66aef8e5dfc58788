//! Character-level text handling shared by the parser and the machine:
//! whitespace, lines, words, comments, trimming, decimal numbers,
//! pattern removal and lexicographic order, all over sequences of `char`.
use vstd::prelude::*;

verus! {

// ---------------------------------------------------------------------
// Whitespace
// ---------------------------------------------------------------------

/// The characters with the Unicode `White_Space` property, which is what
/// `char::is_whitespace` (and so `str::split_whitespace` and `str::trim`) uses.
pub open spec fn is_space(c: char) -> bool {
    let u = c as u32;
    ||| 0x09 <= u <= 0x0d
    ||| u == 0x20
    ||| u == 0x85
    ||| u == 0xa0
    ||| u == 0x1680
    ||| 0x2000 <= u <= 0x200a
    ||| u == 0x2028
    ||| u == 0x2029
    ||| u == 0x202f
    ||| u == 0x205f
    ||| u == 0x3000
}

pub fn is_whitespace(c: char) -> (b: bool)
    ensures
        b == is_space(c),
{
    let u = c as u32;
    (0x09 <= u && u <= 0x0d) || u == 0x20 || u == 0x85 || u == 0xa0 || u == 0x1680 || (0x2000 <= u
        && u <= 0x200a) || u == 0x2028 || u == 0x2029 || u == 0x202f || u == 0x205f || u == 0x3000
}

// ---------------------------------------------------------------------
// Conversions between `str`/`String` and `Vec<char>`
// ---------------------------------------------------------------------

/// The characters of `s`, in order.
pub fn chars_of(s: &str) -> (r: Vec<char>)
    ensures
        r@ == s@,
{
    let mut r: Vec<char> = Vec::new();
    for c in it: s.chars()
        invariant
            r@ == it.seq().take(it.index() as int),
            it.seq() == s@,
    {
        r.push(c);
    }
    r
}

/// Collects characters into a `String` with std's `FromIterator<&char>`
/// for `String`, which appends each character in turn: the result holds
/// exactly the given characters, in order.
#[verifier::external_body]
pub fn string_of(cs: &[char]) -> (r: String)
    ensures
        r@ == cs@,
{
    cs.iter().collect()
}

/// A copy of `s[lo..hi]`.
pub fn slice_chars(s: &[char], lo: usize, hi: usize) -> (r: Vec<char>)
    requires
        lo <= hi <= s@.len(),
    ensures
        r@ == s@.subrange(lo as int, hi as int),
{
    let mut r: Vec<char> = Vec::new();
    let mut i = lo;
    while i < hi
        invariant
            lo <= i <= hi <= s@.len(),
            r@ == s@.subrange(lo as int, i as int),
        decreases hi - i,
    {
        r.push(s[i]);
        i = i + 1;
    }
    r
}

/// Whether the characters of `t` are those of the string `lit`.
pub fn same_text(t: &[char], lit: &str) -> (b: bool)
    ensures
        b == (t@ == lit@),
{
    let n = lit.unicode_len();
    if t.len() != n {
        return false;
    }
    let mut i: usize = 0;
    while i < n
        invariant
            n == lit@.len() == t@.len(),
            i <= n,
            forall|j: int| 0 <= j < i ==> t@[j] == lit@[j],
        decreases n - i,
    {
        if t[i] != lit.get_char(i) {
            return false;
        }
        i = i + 1;
    }
    assert(t@ =~= lit@);
    true
}

/// Whether `c` occurs in `t`.
pub fn has_char(t: &[char], c: char) -> (b: bool)
    ensures
        b == t@.contains(c),
{
    let mut i: usize = 0;
    while i < t.len()
        invariant
            i <= t@.len(),
            forall|j: int| 0 <= j < i ==> t@[j] != c,
        decreases t@.len() - i,
    {
        if t[i] == c {
            return true;
        }
        i = i + 1;
    }
    false
}


// ---------------------------------------------------------------------
// Lines, comments and words
// ---------------------------------------------------------------------

/// The texts held by a sequence of character vectors.
pub open spec fn texts(v: Seq<Vec<char>>) -> Seq<Seq<char>> {
    v.map_values(|w: Vec<char>| w@)
}

/// The pieces of `s` between `'\n'` characters, read left to right.
/// An empty text is one empty line. A `'\r'` before a `'\n'` stays in its
/// line; as whitespace it never changes the words of the line.
pub open spec fn lines(s: Seq<char>) -> Seq<Seq<char>>
    decreases s.len(),
{
    if s.len() == 0 {
        seq![Seq::<char>::empty()]
    } else {
        let prev = lines(s.drop_last());
        if s.last() == '\n' {
            prev.push(Seq::<char>::empty())
        } else {
            prev.update(prev.len() - 1, prev.last().push(s.last()))
        }
    }
}

pub proof fn lemma_lines_nonempty(s: Seq<char>)
    ensures
        lines(s).len() >= 1,
    decreases s.len(),
{
    if s.len() > 0 {
        lemma_lines_nonempty(s.drop_last());
    }
}

/// A text has at most one more line than characters.
pub proof fn lemma_lines_len(s: Seq<char>)
    ensures
        lines(s).len() <= s.len() + 1,
    decreases s.len(),
{
    if s.len() > 0 {
        lemma_lines_len(s.drop_last());
        lemma_lines_nonempty(s.drop_last());
    }
}

/// Whether `t` holds no `'\n'`.
pub open spec fn no_newline(t: Seq<char>) -> bool {
    forall|j: int| 0 <= j < t.len() ==> t[j] != '\n'
}

/// No line holds a `'\n'`.
pub proof fn lemma_lines_have_no_newline(s: Seq<char>)
    ensures
        forall|i: int| 0 <= i < lines(s).len() ==> no_newline(#[trigger] lines(s)[i]),
    decreases s.len(),
{
    if s.len() > 0 {
        let p = s.drop_last();
        lemma_lines_have_no_newline(p);
        lemma_lines_nonempty(p);
        let prev = lines(p);
        assert forall|i: int| 0 <= i < lines(s).len() implies no_newline(#[trigger] lines(s)[i]) by {
            if i < prev.len() {
                assert(no_newline(prev[i]));
            }
            if s.last() != '\n' && i == prev.len() - 1 {
                let t = prev.last().push(s.last());
                assert(no_newline(prev.last()));
                assert forall|j: int| 0 <= j < t.len() implies t[j] != '\n' by {
                    if j < t.len() - 1 {
                        assert(t[j] == prev.last()[j]);
                    }
                }
            }
        }
    }
}

/// Lines joined back with a `'\n'` between each two.
pub open spec fn joined_lines(ls: Seq<Seq<char>>) -> Seq<char>
    decreases ls.len(),
{
    if ls.len() == 0 {
        Seq::empty()
    } else if ls.len() == 1 {
        ls[0]
    } else {
        joined_lines(ls.drop_last()) + seq!['\n'] + ls.last()
    }
}

/// Splitting into lines loses nothing but the line breaks: the lines of
/// a text, joined back with line breaks, are the text.
pub proof fn law_lines_rejoin(s: Seq<char>)
    ensures
        joined_lines(lines(s)) == s,
    decreases s.len(),
{
    if s.len() > 0 {
        let p = s.drop_last();
        law_lines_rejoin(p);
        lemma_lines_nonempty(p);
        let lp = lines(p);
        if s.last() == '\n' {
            let ls = lp.push(Seq::<char>::empty());
            assert(ls.drop_last() =~= lp);
            assert(p + seq!['\n'] + Seq::<char>::empty() =~= s);
        } else {
            let ls = lp.update(lp.len() - 1, lp.last().push(s.last()));
            if lp.len() == 1 {
                assert(p.push(s.last()) =~= s);
            } else {
                assert(ls.drop_last() =~= lp.drop_last());
                assert(joined_lines(lp.drop_last()) + seq!['\n'] + lp.last().push(s.last())
                    =~= (joined_lines(lp.drop_last()) + seq!['\n'] + lp.last()).push(s.last()));
                assert(p.push(s.last()) =~= s);
            }
        }
    } else {
        assert(lines(s) =~= seq![Seq::<char>::empty()]);
        assert(s =~= Seq::<char>::empty());
    }
}

/// A text without `'\n'` is one line.
pub proof fn lemma_one_line(t: Seq<char>)
    requires
        no_newline(t),
    ensures
        lines(t) == seq![t],
    decreases t.len(),
{
    if t.len() > 0 {
        let p = t.drop_last();
        assert(no_newline(p)) by {
            assert forall|j: int| 0 <= j < p.len() implies p[j] != '\n' by {
                assert(p[j] == t[j]);
            }
        }
        lemma_one_line(p);
        assert(t.last() != '\n');
        assert(p.push(t.last()) =~= t);
        assert(lines(t) =~= seq![t]);
    } else {
        assert(t =~= Seq::<char>::empty());
        assert(lines(t) =~= seq![t]);
    }
}

/// The lines of two texts joined by a `'\n'` are the lines of the first,
/// then those of the second.
pub proof fn lemma_lines_join(a: Seq<char>, b: Seq<char>)
    ensures
        lines(a + seq!['\n'] + b) == lines(a) + lines(b),
    decreases b.len(),
{
    let s = a + seq!['\n'] + b;
    if b.len() == 0 {
        assert(s.drop_last() =~= a);
        assert(lines(s) =~= lines(a) + lines(b));
    } else {
        let b2 = b.drop_last();
        lemma_lines_join(a, b2);
        lemma_lines_nonempty(b2);
        assert(s.drop_last() =~= a + seq!['\n'] + b2);
        assert(s.last() == b.last());
        let la = lines(a);
        let lb = lines(b2);
        if b.last() == '\n' {
            assert(lines(s) =~= la + lines(b));
        } else {
            let joined = la + lb;
            assert(joined.last() == lb.last());
            assert(lines(s) =~= la + lines(b));
        }
    }
}

/// Splits `s` at each `'\n'`; the result is `lines(s)`.
pub fn split_lines(s: &Vec<char>) -> (r: Vec<Vec<char>>)
    ensures
        texts(r@) == lines(s@),
{
    let mut out: Vec<Vec<char>> = Vec::new();
    out.push(Vec::new());
    let mut i: usize = 0;
    assert(s@.take(0) =~= Seq::<char>::empty());
    assert(texts(out@) =~= lines(s@.take(0)));
    while i < s.len()
        invariant
            i <= s@.len(),
            texts(out@) == lines(s@.take(i as int)),
            out@.len() >= 1,
        decreases s@.len() - i,
    {
        let c = s[i];
        proof {
            assert(s@.take(i + 1).drop_last() =~= s@.take(i as int));
            lemma_lines_nonempty(s@.take(i as int));
        }
        let ghost before = texts(out@);
        if c == '\n' {
            out.push(Vec::new());
            assert(texts(out@) =~= before.push(Seq::<char>::empty()));
        } else {
            let ghost old_out = out@;
            let mut last = out.pop().unwrap();
            last.push(c);
            out.push(last);
            assert(out@ =~= old_out.update(old_out.len() - 1, last));
            assert(texts(out@) =~= before.update(before.len() - 1, before.last().push(c)));
        }
        i = i + 1;
    }
    assert(s@.take(s@.len() as int) =~= s@);
    out
}

/// The length of the part of `s` before its first `c` (all of `s` when
/// `c` does not occur).
pub open spec fn prefix_len(s: Seq<char>, c: char) -> nat
    decreases s.len(),
{
    if s.len() == 0 || s[0] == c {
        0
    } else {
        1 + prefix_len(s.drop_first(), c)
    }
}

/// The code of a line: the line without its comment, which runs from the
/// first `'#'` to the end of the line.
pub open spec fn code_of(line: Seq<char>) -> Seq<char> {
    line.take(prefix_len(line, '#') as int)
}

proof fn lemma_prefix_len(s: Seq<char>, c: char, i: int)
    requires
        0 <= i <= s.len(),
        forall|j: int| 0 <= j < i ==> s[j] != c,
        i == s.len() || s[i] == c,
    ensures
        prefix_len(s, c) == i,
    decreases i,
{
    if i > 0 {
        lemma_prefix_len(s.drop_first(), c, i - 1);
    }
}

/// A comment runs from the first `'#'` to the end of the line: the code
/// of a line is what stands before its first `'#'`, all of it when it
/// has none.
pub proof fn law_comment_runs_to_the_end(a: Seq<char>, b: Seq<char>)
    requires
        forall|j: int| 0 <= j < a.len() ==> #[trigger] a[j] != '#',
    ensures
        code_of(a + seq!['#'] + b) == a,
        code_of(a) == a,
{
    let s = a + seq!['#'] + b;
    assert forall|j: int| 0 <= j < a.len() implies #[trigger] s[j] != '#' by {
        assert(s[j] == a[j]);
    }
    assert(s[a.len() as int] == '#');
    lemma_prefix_len(s, '#', a.len() as int);
    assert(s.take(a.len() as int) =~= a);
    lemma_prefix_len(a, '#', a.len() as int);
    assert(a.take(a.len() as int) =~= a);
}

/// The line without its comment.
pub fn strip_comment(line: &Vec<char>) -> (r: Vec<char>)
    ensures
        r@ == code_of(line@),
{
    let mut i: usize = 0;
    while i < line.len() && line[i] != '#'
        invariant
            i <= line@.len(),
            forall|j: int| 0 <= j < i ==> line@[j] != '#',
        decreases line@.len() - i,
    {
        i = i + 1;
    }
    proof {
        lemma_prefix_len(line@, '#', i as int);
    }
    slice_chars(line.as_slice(), 0, i)
}

/// The words of `s`: its maximal runs of non-whitespace characters, in
/// order (what `str::split_whitespace` yields). Read left to right, a
/// non-space character either extends the word that the previous
/// character belongs to or starts a new one.
pub open spec fn words(s: Seq<char>) -> Seq<Seq<char>>
    decreases s.len(),
{
    if s.len() == 0 {
        Seq::empty()
    } else {
        let prev = words(s.drop_last());
        let c = s.last();
        if is_space(c) {
            prev
        } else if s.len() >= 2 && !is_space(s[s.len() - 2]) {
            prev.update(prev.len() - 1, prev.last().push(c))
        } else {
            prev.push(seq![c])
        }
    }
}

proof fn lemma_words_after_word(s: Seq<char>)
    requires
        s.len() > 0,
        !is_space(s.last()),
    ensures
        words(s).len() >= 1,
    decreases s.len(),
{
    if s.len() >= 2 && !is_space(s[s.len() - 2]) {
        let p = s.drop_last();
        assert(p.last() == s[s.len() - 2]);
        lemma_words_after_word(p);
    }
}

/// A text without whitespace is one word, itself (when it is not empty).
proof fn lemma_words_of_word(s: Seq<char>)
    requires
        s.len() > 0,
        forall|j: int| 0 <= j < s.len() ==> !is_space(#[trigger] s[j]),
    ensures
        words(s) == seq![s],
    decreases s.len(),
{
    let p = s.drop_last();
    if p.len() > 0 {
        assert forall|j: int| 0 <= j < p.len() implies !is_space(#[trigger] p[j]) by {
            assert(p[j] == s[j]);
        }
        lemma_words_of_word(p);
        assert(!is_space(s[s.len() - 1]));
        assert(!is_space(s[s.len() - 2]));
        assert(p.push(s.last()) =~= s);
        assert(words(p).update(0, p.push(s.last())) =~= seq![s]);
    } else {
        assert(!is_space(s[s.len() - 1]));
        assert(words(p) == Seq::<Seq<char>>::empty());
        assert(seq![s.last()] =~= s);
        assert(words(s) =~= seq![s]);
    }
}

/// A word alone on its line: a text without whitespace, `'#'` or line
/// break is one line, all code, and that code is one word, the text
/// itself.
pub proof fn lemma_word_alone(s: Seq<char>)
    requires
        s.len() > 0,
        forall|j: int|
            0 <= j < s.len() ==> !is_space(#[trigger] s[j]) && s[j] != '#' && s[j] != '\n',
    ensures
        lines(s) == seq![s],
        code_of(s) == s,
        words(code_of(s)) == seq![s],
{
    lemma_one_line(s);
    lemma_prefix_len(s, '#', s.len() as int);
    assert(s.take(s.len() as int) =~= s);
    lemma_words_of_word(s);
}

/// Whitespace separates words: the words of two texts joined by a
/// whitespace character are the words of the first, then those of the
/// second.
pub proof fn law_space_separates_words(a: Seq<char>, c: char, b: Seq<char>)
    requires
        is_space(c),
    ensures
        words(a + seq![c] + b) == words(a) + words(b),
    decreases b.len(),
{
    let s = a + seq![c] + b;
    if b.len() == 0 {
        assert(s.drop_last() =~= a);
        assert(words(a) + words(b) =~= words(a));
    } else {
        let p = b.drop_last();
        let x = b.last();
        law_space_separates_words(a, c, p);
        assert(s.drop_last() =~= a + seq![c] + p);
        assert(s.last() == x);
        let wa = words(a);
        let wp = words(p);
        if is_space(x) {
        } else if p.len() > 0 && !is_space(p.last()) {
            assert(s[s.len() - 2] == p.last());
            assert(b[b.len() - 2] == p.last());
            lemma_words_after_word(p);
            assert((wa + wp).update((wa + wp).len() - 1, (wa + wp).last().push(x)) =~= wa
                + wp.update(wp.len() - 1, wp.last().push(x)));
        } else {
            if p.len() > 0 {
                assert(s[s.len() - 2] == p.last());
                assert(b[b.len() - 2] == p.last());
            } else {
                assert(s[s.len() - 2] == c);
            }
            assert((wa + wp).push(seq![x]) =~= wa + wp.push(seq![x]));
        }
    }
}

/// Splits `s` into its words.
pub fn split_words(s: &Vec<char>) -> (r: Vec<Vec<char>>)
    ensures
        texts(r@) == words(s@),
{
    let mut out: Vec<Vec<char>> = Vec::new();
    let mut i: usize = 0;
    assert(texts(out@) =~= words(s@.take(0)));
    while i < s.len()
        invariant
            i <= s@.len(),
            texts(out@) == words(s@.take(i as int)),
        decreases s@.len() - i,
    {
        let c = s[i];
        let ghost pre = s@.take(i as int);
        proof {
            assert(s@.take(i + 1).drop_last() =~= pre);
            assert(s@.take(i + 1).last() == c);
        }
        let ghost before = texts(out@);
        if is_whitespace(c) {
        } else if i >= 1 && !is_whitespace(s[i - 1]) {
            proof {
                assert(s@.take(i + 1)[i - 1] == s@[i - 1]);
                assert(pre.last() == s@[i - 1]);
                lemma_words_after_word(pre);
            }
            let ghost old_out = out@;
            let mut last = out.pop().unwrap();
            last.push(c);
            out.push(last);
            assert(out@ =~= old_out.update(old_out.len() - 1, last));
            assert(texts(out@) =~= before.update(before.len() - 1, before.last().push(c)));
        } else {
            let mut w: Vec<char> = Vec::new();
            w.push(c);
            out.push(w);
            proof {
                if i >= 1 {
                    assert(s@.take(i + 1)[i - 1] == s@[i - 1]);
                }
            }
            assert(texts(out@) =~= before.push(seq![c]));
        }
        i = i + 1;
    }
    assert(s@.take(s@.len() as int) =~= s@);
    out
}


// ---------------------------------------------------------------------
// Trimming
// ---------------------------------------------------------------------

/// The number of whitespace characters at the start of `s`.
pub open spec fn leading_spaces(s: Seq<char>) -> nat
    decreases s.len(),
{
    if s.len() > 0 && is_space(s[0]) {
        1 + leading_spaces(s.drop_first())
    } else {
        0
    }
}

/// The number of whitespace characters at the end of `s`.
pub open spec fn trailing_spaces(s: Seq<char>) -> nat
    decreases s.len(),
{
    if s.len() > 0 && is_space(s.last()) {
        1 + trailing_spaces(s.drop_last())
    } else {
        0
    }
}

/// `s` without its leading and trailing whitespace (what `str::trim` gives).
pub open spec fn trimmed(s: Seq<char>) -> Seq<char> {
    if leading_spaces(s) == s.len() {
        Seq::empty()
    } else {
        s.subrange(leading_spaces(s) as int, s.len() - trailing_spaces(s))
    }
}

/// Trimming trimmed text changes nothing.
pub proof fn law_trim_idempotent(s: Seq<char>)
    ensures
        trimmed(trimmed(s)) == trimmed(s),
{
    let t = trimmed(s);
    lemma_leading_spaces_bounds(s);
    if leading_spaces(s) < s.len() {
        let a = leading_spaces(s) as int;
        let b = s.len() - trailing_spaces(s);
        lemma_leading_spaces_bounds(s);
        lemma_trailing_spaces_bounds(s);
        assert(t.len() > 0);
        assert(t[0] == s[a]);
        assert(t.last() == s[b - 1]);
        assert(leading_spaces(t) == 0);
        assert(trailing_spaces(t) == 0);
        assert(t.subrange(0, t.len() as int) =~= t);
    } else {
        assert(t.len() == 0);
        assert(leading_spaces(t) == 0);
        assert(trimmed(t) =~= t);
    }
}

/// Whether `t` stands in `s` at `i` with only whitespace before and
/// after it.
pub open spec fn framed_by_space(s: Seq<char>, i: int, t: Seq<char>) -> bool {
    &&& 0 <= i <= s.len() - t.len()
    &&& s.subrange(i, i + t.len()) == t
    &&& forall|j: int| 0 <= j < i ==> is_space(#[trigger] s[j])
    &&& forall|j: int| i + t.len() <= j < s.len() ==> is_space(#[trigger] s[j])
}

/// Trimming removes the whitespace at both ends and nothing else: the
/// trimmed text stands in `s` with only whitespace before and after it,
/// it neither starts nor ends with whitespace, and it is empty exactly
/// when `s` is all whitespace.
pub proof fn law_trim_removes_outer_whitespace(s: Seq<char>)
    ensures
        trimmed(s).len() == 0 <==> forall|j: int| 0 <= j < s.len() ==> is_space(#[trigger] s[j]),
        trimmed(s).len() > 0 ==> !is_space(trimmed(s)[0]) && !is_space(trimmed(s).last()),
        exists|i: int| #[trigger] framed_by_space(s, i, trimmed(s)),
{
    let t = trimmed(s);
    lemma_leading_spaces_bounds(s);
    lemma_trailing_spaces_bounds(s);
    if leading_spaces(s) < s.len() {
        let a = leading_spaces(s) as int;
        let b = s.len() - trailing_spaces(s);
        assert(t[0] == s[a]);
        assert(t.last() == s[b - 1]);
        assert(!is_space(s[a]));
        assert(b == a + t.len());
        assert(s.subrange(a, a + t.len()) == t);
        assert(forall|j: int| 0 <= j < a ==> is_space(#[trigger] s[j]));
        assert(forall|j: int| a + t.len() <= j < s.len() ==> is_space(#[trigger] s[j]));
        assert(framed_by_space(s, a, t));
    } else {
        assert(t.len() == 0);
        assert(s.subrange(0, 0) =~= t);
        assert(forall|j: int| 0 <= j < 0 ==> is_space(#[trigger] s[j]));
        assert(forall|j: int| 0 + t.len() <= j < s.len() ==> is_space(#[trigger] s[j]));
        assert(framed_by_space(s, 0, t));
    }
    if forall|j: int| 0 <= j < s.len() ==> is_space(#[trigger] s[j]) {
        lemma_leading_spaces(s, s.len() as int);
    }
}

/// Trimming a text padded with whitespace on both sides gives it back,
/// when it neither starts nor ends with whitespace itself.
pub proof fn law_trim_strips_padding(p: Seq<char>, t: Seq<char>, q: Seq<char>)
    requires
        forall|j: int| 0 <= j < p.len() ==> is_space(#[trigger] p[j]),
        forall|j: int| 0 <= j < q.len() ==> is_space(#[trigger] q[j]),
        t.len() > 0,
        !is_space(t[0]),
        !is_space(t.last()),
    ensures
        trimmed(p + t + q) == t,
{
    let s = p + t + q;
    let a = p.len() as int;
    let b = (p.len() + t.len()) as int;
    assert forall|j: int| 0 <= j < a implies is_space(#[trigger] s[j]) by {
        assert(s[j] == p[j]);
    }
    assert(s[a] == t[0]);
    lemma_leading_spaces(s, a);
    assert forall|j: int| b <= j < s.len() implies is_space(#[trigger] s[j]) by {
        assert(s[j] == q[j - b]);
    }
    assert(s[b - 1] == t.last());
    lemma_trailing_spaces(s, b);
    assert(s.subrange(a, b) =~= t);
}

/// The first non-space character stands at `leading_spaces(s)`, when
/// there is one.
proof fn lemma_leading_spaces_bounds(s: Seq<char>)
    ensures
        leading_spaces(s) <= s.len(),
        leading_spaces(s) < s.len() ==> !is_space(s[leading_spaces(s) as int]),
        forall|j: int| 0 <= j < leading_spaces(s) ==> is_space(s[j]),
    decreases s.len(),
{
    if s.len() > 0 && is_space(s[0]) {
        let t = s.drop_first();
        lemma_leading_spaces_bounds(t);
        assert forall|j: int| 0 <= j < leading_spaces(s) implies is_space(s[j]) by {
            if j > 0 {
                assert(s[j] == t[j - 1]);
            }
        }
    }
}

/// The last non-space character stands just before the trailing spaces,
/// and it is not before the first non-space character.
proof fn lemma_trailing_spaces_bounds(s: Seq<char>)
    ensures
        trailing_spaces(s) <= s.len(),
        trailing_spaces(s) < s.len() ==> !is_space(s[s.len() - trailing_spaces(s) - 1]),
        forall|j: int| s.len() - trailing_spaces(s) <= j < s.len() ==> is_space(s[j]),
        leading_spaces(s) < s.len() ==> leading_spaces(s) < s.len() - trailing_spaces(s),
    decreases s.len(),
{
    lemma_leading_spaces_bounds(s);
    if s.len() > 0 && is_space(s.last()) {
        let t = s.drop_last();
        lemma_trailing_spaces_bounds(t);
        assert forall|j: int| s.len() - trailing_spaces(s) <= j < s.len() implies is_space(
            s[j],
        ) by {
            if j < s.len() - 1 {
                assert(s[j] == t[j]);
            }
        }
        if leading_spaces(s) < s.len() {
            lemma_leading_prefix(s);
        }
    }
}

/// Dropping the last character of a text that ends in a space leaves its
/// leading spaces as they are, unless the text is all spaces.
proof fn lemma_leading_prefix(s: Seq<char>)
    requires
        s.len() > 0,
        is_space(s.last()),
        leading_spaces(s) < s.len(),
    ensures
        leading_spaces(s.drop_last()) == leading_spaces(s),
    decreases s.len(),
{
    let t = s.drop_last();
    if is_space(s[0]) {
        assert(s.len() > 1);
        let u = s.drop_first();
        assert(u.last() == s.last());
        lemma_leading_prefix(u);
        assert(u.drop_last() =~= t.drop_first());
        assert(t[0] == s[0]);
    } else {
        assert(t.len() > 0 ==> t[0] == s[0]);
        if t.len() == 0 {
            assert(false);
        }
    }
}

proof fn lemma_leading_spaces(s: Seq<char>, i: int)
    requires
        0 <= i <= s.len(),
        forall|j: int| 0 <= j < i ==> is_space(s[j]),
        i == s.len() || !is_space(s[i]),
    ensures
        leading_spaces(s) == i,
    decreases i,
{
    if i > 0 {
        lemma_leading_spaces(s.drop_first(), i - 1);
    }
}

proof fn lemma_trailing_spaces(s: Seq<char>, k: int)
    requires
        0 <= k <= s.len(),
        forall|j: int| k <= j < s.len() ==> is_space(s[j]),
        k == 0 || !is_space(s[k - 1]),
    ensures
        trailing_spaces(s) == s.len() - k,
    decreases s.len() - k,
{
    if k < s.len() {
        lemma_trailing_spaces(s.drop_last(), k);
    }
}

/// `s` without its leading and trailing whitespace.
pub fn trim(s: &[char]) -> (r: Vec<char>)
    ensures
        r@ == trimmed(s@),
{
    let n = s.len();
    let mut i: usize = 0;
    while i < n && is_whitespace(s[i])
        invariant
            n == s@.len(),
            i <= n,
            forall|j: int| 0 <= j < i ==> is_space(s@[j]),
        decreases n - i,
    {
        i = i + 1;
    }
    proof {
        lemma_leading_spaces(s@, i as int);
    }
    if i == n {
        return Vec::new();
    }
    let mut k: usize = n;
    while k > i && is_whitespace(s[k - 1])
        invariant
            n == s@.len(),
            i < n,
            !is_space(s@[i as int]),
            i <= k <= n,
            forall|j: int| k <= j < n ==> is_space(s@[j]),
        decreases k,
    {
        k = k - 1;
    }
    proof {
        lemma_trailing_spaces(s@, k as int);
    }
    slice_chars(s, i, k)
}

// ---------------------------------------------------------------------
// Decimal numbers
// ---------------------------------------------------------------------

pub open spec fn is_digit(c: char) -> bool {
    '0' <= c && c <= '9'
}

pub open spec fn all_digits(s: Seq<char>) -> bool {
    forall|i: int| 0 <= i < s.len() ==> is_digit(#[trigger] s[i])
}

pub open spec fn digit_value(c: char) -> int {
    c as int - '0' as int
}

/// The number that the decimal digits `s` spell.
pub open spec fn digits_value(s: Seq<char>) -> int
    decreases s.len(),
{
    if s.len() == 0 {
        0
    } else {
        10 * digits_value(s.drop_last()) + digit_value(s.last())
    }
}

/// The length of the optional sign in front of the digits of a number.
pub open spec fn sign_len(s: Seq<char>, signed: bool) -> int {
    if s.len() > 0 && (s[0] == '+' || (signed && s[0] == '-')) {
        1
    } else {
        0
    }
}

/// The value of `s` read as a decimal integer: an optional sign (`'-'`
/// only when `signed`), then one or more digits. `None` when `s` has
/// another shape. The range is not checked here.
pub open spec fn integer_value(s: Seq<char>, signed: bool) -> Option<int> {
    let ds = s.skip(sign_len(s, signed));
    if ds.len() == 0 || !all_digits(ds) {
        None
    } else if sign_len(s, signed) == 1 && s[0] == '-' {
        Some(-digits_value(ds))
    } else {
        Some(digits_value(ds))
    }
}

/// What `str::parse::<i32>` gives for `s`: the value when `s` is a
/// decimal integer within the range of `i32`.
pub open spec fn parse_i32_spec(s: Seq<char>) -> Option<i32> {
    match integer_value(s, true) {
        Some(v) => if i32::MIN <= v <= i32::MAX {
            Some(v as i32)
        } else {
            None
        },
        None => None,
    }
}

/// What `str::parse::<usize>` gives for `s`: the value when `s` is an
/// optional `'+'` and one or more digits, within the range of `usize`.
pub open spec fn parse_usize_spec(s: Seq<char>) -> Option<usize> {
    match integer_value(s, false) {
        Some(v) => if 0 <= v <= usize::MAX {
            Some(v as usize)
        } else {
            None
        },
        None => None,
    }
}

/// What `str::parse::<bool>` gives for `s`.
pub open spec fn parse_bool_spec(s: Seq<char>) -> Option<bool> {
    if s == "true"@ {
        Some(true)
    } else if s == "false"@ {
        Some(false)
    } else {
        None
    }
}

proof fn lemma_digits_value_nonneg(s: Seq<char>)
    requires
        all_digits(s),
    ensures
        digits_value(s) >= 0,
    decreases s.len(),
{
    if s.len() > 0 {
        assert(is_digit(s[s.len() - 1]));
        lemma_digits_value_nonneg(s.drop_last());
    }
}

/// A digit string is worth at least as much as each of its prefixes.
proof fn lemma_digits_value_prefix(s: Seq<char>, k: int)
    requires
        all_digits(s),
        0 <= k <= s.len(),
    ensures
        digits_value(s.take(k)) <= digits_value(s),
    decreases s.len() - k,
{
    if k < s.len() {
        let p = s.drop_last();
        assert(all_digits(p)) by {
            assert forall|i: int| 0 <= i < p.len() implies is_digit(#[trigger] p[i]) by {
                assert(p[i] == s[i]);
            }
        }
        assert(p.take(k) =~= s.take(k));
        lemma_digits_value_prefix(p, k);
        lemma_digits_value_nonneg(p);
        assert(is_digit(s[s.len() - 1]));
    } else {
        assert(s.take(k) =~= s);
    }
}

/// Reads the digits `s[start..]`, giving up as soon as the value passed
/// `limit`: the result is `Some(v)` when all characters are digits and
/// their value `v` is at most `limit`, and `None` otherwise.
fn read_digits(s: &[char], start: usize, limit: u128) -> (r: Option<u128>)
    requires
        start <= s@.len(),
        limit <= u64::MAX,
    ensures
        ({
            let ds = s@.skip(start as int);
            match r {
                Some(v) => all_digits(ds) && v == digits_value(ds) && v <= limit,
                None => !all_digits(ds) || digits_value(ds) > limit,
            }
        }),
{
    let ghost ds = s@.skip(start as int);
    let mut acc: u128 = 0;
    let mut i: usize = start;
    assert(ds.take(0) =~= Seq::<char>::empty());
    while i < s.len()
        invariant
            start <= i <= s@.len(),
            ds == s@.skip(start as int),
            all_digits(ds.take(i - start)),
            acc == digits_value(ds.take(i - start)),
            acc <= limit <= u64::MAX,
        decreases s@.len() - i,
    {
        let c = s[i];
        let ghost pre = ds.take(i - start);
        let ghost next = ds.take(i - start + 1);
        assert(next.drop_last() =~= pre);
        assert(next.last() == c);
        if !('0' <= c && c <= '9') {
            assert(ds[i - start] == c);
            return None;
        }
        let d = (c as u32 - '0' as u32) as u128;
        acc = acc * 10 + d;
        proof {
            assert(all_digits(next)) by {
                assert forall|j: int| 0 <= j < next.len() implies is_digit(#[trigger] next[j]) by {
                    if j < next.len() - 1 {
                        assert(next[j] == pre[j]);
                    }
                }
            }
        }
        if acc > limit {
            proof {
                if all_digits(ds) {
                    lemma_digits_value_prefix(ds, i - start + 1);
                }
            }
            return None;
        }
        i = i + 1;
    }
    assert(ds.take(i - start) =~= ds);
    Some(acc)
}

/// Reads `s` as a decimal integer, like `str::parse::<i32>`.
pub fn parse_i32(s: &[char]) -> (r: Option<i32>)
    ensures
        r == parse_i32_spec(s@),
{
    let neg = s.len() > 0 && s[0] == '-';
    let start: usize = if s.len() > 0 && (s[0] == '+' || s[0] == '-') {
        1
    } else {
        0
    };
    if start == s.len() {
        return None;
    }
    match read_digits(s, start, 2147483648) {
        Some(v) => {
            if neg {
                let x: i64 = 0i64 - (v as i64);
                Some(x as i32)
            } else if v <= 2147483647 {
                Some(v as i32)
            } else {
                None
            }
        },
        None => None,
    }
}

/// Reads `s` as a decimal integer, like `str::parse::<usize>`.
pub fn parse_usize(s: &[char]) -> (r: Option<usize>)
    ensures
        r == parse_usize_spec(s@),
{
    let start: usize = if s.len() > 0 && s[0] == '+' {
        1
    } else {
        0
    };
    if start == s.len() {
        return None;
    }
    match read_digits(s, start, usize::MAX as u128) {
        Some(v) => Some(v as usize),
        None => None,
    }
}

/// Reads `s` as a boolean, like `str::parse::<bool>`.
pub fn parse_bool(s: &[char]) -> (r: Option<bool>)
    ensures
        r == parse_bool_spec(s@),
{
    if same_text(s, "true") {
        Some(true)
    } else if same_text(s, "false") {
        Some(false)
    } else {
        None
    }
}


/// The character of the decimal digit `d`.
pub open spec fn digit_char(d: int) -> char {
    ('0' as int + d) as char
}

/// The decimal digits of `n`, most significant first, without leading zeros.
pub open spec fn decimal(n: nat) -> Seq<char>
    decreases n,
{
    if n < 10 {
        seq![digit_char(n as int)]
    } else {
        decimal(n / 10).push(digit_char((n % 10) as int))
    }
}

/// How `i32` and `usize` values are written (their `Display`): an optional
/// `'-'` and the decimal digits.
pub open spec fn int_text(x: int) -> Seq<char> {
    if x < 0 {
        seq!['-'] + decimal((-x) as nat)
    } else {
        decimal(x as nat)
    }
}

fn digit_to_char(d: u64) -> (c: char)
    requires
        d < 10,
    ensures
        c == digit_char(d as int),
{
    let b: u8 = 48u8 + d as u8;
    b as char
}

/// Appends the decimal digits of `n` to `out`.
pub fn push_decimal(n: u64, out: &mut Vec<char>)
    ensures
        final(out)@ == old(out)@ + decimal(n as nat),
    decreases n,
{
    if n >= 10 {
        push_decimal(n / 10, out);
    }
    let c = digit_to_char(n % 10);
    out.push(c);
    assert(out@ =~= old(out)@ + decimal(n as nat));
}

/// The text of an `i32` (its `Display`).
pub fn i32_text(x: i32) -> (r: Vec<char>)
    ensures
        r@ == int_text(x as int),
{
    let mut out: Vec<char> = Vec::new();
    if x < 0 {
        out.push('-');
        let m: i64 = 0i64 - x as i64;
        push_decimal(m as u64, &mut out);
    } else {
        push_decimal(x as u64, &mut out);
    }
    assert(out@ =~= int_text(x as int));
    out
}

/// The text of a `usize` (its `Display`).
pub fn usize_text(x: usize) -> (r: Vec<char>)
    ensures
        r@ == int_text(x as int),
{
    let mut out: Vec<char> = Vec::new();
    push_decimal(x as u64, &mut out);
    assert(out@ =~= int_text(x as int));
    out
}

proof fn lemma_digit_char(d: int)
    requires
        0 <= d < 10,
    ensures
        is_digit(digit_char(d)),
        digit_value(digit_char(d)) == d,
{
    assert(('0' as int + d) as char as int == 48 + d);
}

proof fn lemma_decimal(n: nat)
    ensures
        decimal(n).len() >= 1,
        all_digits(decimal(n)),
        digits_value(decimal(n)) == n,
    decreases n,
{
    lemma_digit_char((n % 10) as int);
    if n >= 10 {
        lemma_decimal(n / 10);
        let p = decimal(n / 10);
        let s = decimal(n);
        assert(s.drop_last() =~= p);
        assert(s.last() == digit_char((n % 10) as int));
        assert(digits_value(s) == 10 * digits_value(p) + digit_value(s.last()));
        assert(10 * (n / 10) + n % 10 == n);
        assert forall|i: int| 0 <= i < s.len() implies is_digit(#[trigger] s[i]) by {
            if i < s.len() - 1 {
                assert(s[i] == p[i]);
            }
        }
    } else {
        let s = decimal(n);
        assert(s.drop_last() =~= Seq::<char>::empty());
        assert(s.last() == digit_char(n as int));
        assert(digits_value(s) == 10 * digits_value(s.drop_last()) + digit_value(s.last()));
    }
}

/// The text of an integer is not empty and starts and ends with a
/// character that is not whitespace.
pub proof fn lemma_int_text_shape(x: int)
    ensures
        int_text(x).len() > 0,
        !is_space(int_text(x)[0]),
        !is_space(int_text(x).last()),
{
    let d = if x < 0 {
        (-x) as nat
    } else {
        x as nat
    };
    lemma_decimal(d);
    let ds = decimal(d);
    assert(is_digit(ds[0]));
    assert(is_digit(ds[ds.len() - 1]));
    if x < 0 {
        assert(int_text(x)[0] == '-');
        assert(int_text(x).last() == ds.last());
    }
}

/// Writing an integer and reading it back gives the integer: for every
/// `i32` `x`, `str::parse::<i32>` of the text of `x` is `x`.
pub proof fn law_i32_text_parses_back(x: i32)
    ensures
        parse_i32_spec(int_text(x as int)) == Some(x),
{
    let s = int_text(x as int);
    if x < 0 {
        let m = (-x) as nat;
        lemma_decimal(m);
        assert(s.skip(1) =~= decimal(m));
        assert(s[0] == '-');
    } else {
        lemma_decimal(x as nat);
        assert(s.skip(0) =~= s);
        assert(is_digit(s[0]));
    }
}

/// A zero in front of digits does not change their value.
proof fn lemma_leading_zero(d: Seq<char>)
    ensures
        digits_value(seq!['0'] + d) == digits_value(d),
    decreases d.len(),
{
    if d.len() > 0 {
        lemma_leading_zero(d.drop_last());
        assert((seq!['0'] + d).drop_last() =~= seq!['0'] + d.drop_last());
        assert((seq!['0'] + d).last() == d.last());
    } else {
        assert((seq!['0'] + d).drop_last() =~= Seq::<char>::empty());
        assert((seq!['0'] + d).last() == '0');
        assert(digits_value(Seq::<char>::empty()) == 0);
        assert(digit_value('0') == 0);
    }
}

/// Reading integers as `str::parse::<i32>` does: a `'+'` sign or a
/// leading zero leaves the number as it is, a `'-'` negates it (`-0` is
/// 0); a number outside the range of `i32` is refused, and so are the
/// empty text and a sign alone.
pub proof fn law_i32_reading(x: int)
    ensures
        0 <= x <= i32::MAX ==> parse_i32_spec(seq!['+'] + int_text(x)) == Some(x as i32),
        0 <= x <= i32::MAX ==> parse_i32_spec(seq!['0'] + int_text(x)) == Some(x as i32),
        0 <= x <= i32::MAX ==> parse_i32_spec(seq!['-'] + int_text(x)) == Some((-x) as i32),
        !(i32::MIN <= x <= i32::MAX) ==> parse_i32_spec(int_text(x)) is None,
        parse_i32_spec(Seq::empty()) is None,
        parse_i32_spec(seq!['+']) is None,
        parse_i32_spec(seq!['-']) is None,
{
    let n: nat = if x < 0 {
        (-x) as nat
    } else {
        x as nat
    };
    lemma_decimal(n);
    let d = decimal(n);
    if x >= 0 {
        assert((seq!['+'] + d).skip(1) =~= d);
        assert((seq!['-'] + d).skip(1) =~= d);
        assert((seq!['0'] + d).skip(0) =~= seq!['0'] + d);
        lemma_leading_zero(d);
        assert(all_digits(seq!['0'] + d)) by {
            assert forall|i: int| 0 <= i < (seq!['0'] + d).len() implies is_digit(
                #[trigger] (seq!['0'] + d)[i],
            ) by {
                if i > 0 {
                    assert((seq!['0'] + d)[i] == d[i - 1]);
                }
            }
        }
        assert(is_digit(d[0]));
        assert(d.skip(0) =~= d);
    } else {
        assert(int_text(x).skip(1) =~= d);
    }
    assert(seq!['+'].skip(1) =~= Seq::<char>::empty());
    assert(seq!['-'].skip(1) =~= Seq::<char>::empty());
    assert(Seq::<char>::empty().skip(0) =~= Seq::<char>::empty());
}

/// The first digit of a positive number is not a zero.
proof fn lemma_decimal_first(n: nat)
    requires
        n >= 1,
    ensures
        decimal(n)[0] != '0',
    decreases n,
{
    if n < 10 {
        lemma_digit_char(n as int);
    } else {
        lemma_decimal_first(n / 10);
        lemma_decimal(n / 10);
    }
}

/// Integers are written in plain decimal: a `'-'` for negative numbers
/// only, then digits, without a leading zero save for 0 itself.
pub proof fn law_int_text_is_plain_decimal(x: int)
    ensures
        x < 0 ==> int_text(x)[0] == '-' && int_text(x).len() >= 2 && all_digits(
            int_text(x).skip(1),
        ) && int_text(x)[1] != '0',
        x > 0 ==> all_digits(int_text(x)) && int_text(x)[0] != '0',
        x == 0 ==> int_text(x) == seq!['0'],
{
    let n: nat = if x < 0 {
        (-x) as nat
    } else {
        x as nat
    };
    lemma_decimal(n);
    if x < 0 {
        lemma_decimal_first(n);
        assert(int_text(x).skip(1) =~= decimal(n));
        assert(int_text(x)[1] == decimal(n)[0]);
    } else if x > 0 {
        lemma_decimal_first(n);
    } else {
        assert(digit_char(0) == '0');
        assert(int_text(x) =~= seq!['0']);
    }
}

/// Reading an address as `str::parse::<usize>` does: a `'+'` sign is
/// allowed, a `'-'` sign is not.
pub proof fn law_usize_reading(x: usize)
    ensures
        parse_usize_spec(seq!['+'] + int_text(x as int)) == Some(x),
        parse_usize_spec(seq!['-'] + int_text(x as int)) is None,
{
    lemma_decimal(x as nat);
    let d = decimal(x as nat);
    assert((seq!['+'] + d).skip(1) =~= d);
    let m = seq!['-'] + d;
    assert(m.skip(0) =~= m);
    assert(!is_digit(m[0]));
}

/// The same for `usize` values and `str::parse::<usize>`.
pub proof fn law_usize_text_parses_back(x: usize)
    ensures
        parse_usize_spec(int_text(x as int)) == Some(x),
{
    let s = int_text(x as int);
    lemma_decimal(x as nat);
    assert(s.skip(0) =~= s);
    assert(is_digit(s[0]));
}

// ---------------------------------------------------------------------
// Removing a pattern
// ---------------------------------------------------------------------

/// `a` with every occurrence of `pat` removed, occurrences taken left to
/// right without overlap (what `a.replace(pat, "")` gives). An empty
/// pattern removes nothing.
pub open spec fn remove_all(a: Seq<char>, pat: Seq<char>) -> Seq<char>
    decreases a.len(),
{
    if pat.len() == 0 || a.len() == 0 {
        a
    } else if pat.len() <= a.len() && a.take(pat.len() as int) == pat {
        remove_all(a.skip(pat.len() as int), pat)
    } else {
        seq![a[0]] + remove_all(a.drop_first(), pat)
    }
}

/// The characters other than `c`.
pub open spec fn other_than(c: char) -> spec_fn(char) -> bool {
    |d: char| d != c
}

/// Removing a one-character text removes every occurrence of that
/// character and keeps the other characters in their order.
pub proof fn law_remove_char(a: Seq<char>, c: char)
    ensures
        remove_all(a, seq![c]) == a.filter(other_than(c)),
    decreases a.len(),
{
    if a.len() > 0 {
        let rest = a.drop_first();
        law_remove_char(rest, c);
        Seq::filter_distributes_over_add(seq![a[0]], rest, other_than(c));
        assert(seq![a[0]] + rest =~= a);
        reveal_with_fuel(Seq::filter, 2);
        assert(seq![a[0]].drop_last() =~= Seq::<char>::empty());
        assert(a.take(1) =~= seq![a[0]]);
        assert(a.skip(1) =~= rest);
        if a[0] == c {
            assert(seq![a[0]].filter(other_than(c)) =~= Seq::<char>::empty());
            assert(Seq::<char>::empty() + rest.filter(other_than(c)) =~= rest.filter(
                other_than(c),
            ));
        } else {
            assert(seq![a[0]].filter(other_than(c)) =~= seq![a[0]]);
        }
    } else {
        assert(a.filter(other_than(c)) =~= a);
    }
}

/// Whether `pat` occurs in `a` at position `i`.
fn occurs_at(a: &[char], i: usize, pat: &[char]) -> (b: bool)
    requires
        i <= a@.len(),
    ensures
        b == (i + pat@.len() <= a@.len() && a@.subrange(i as int, i + pat@.len()) == pat@),
{
    let m = pat.len();
    if m > a.len() - i {
        return false;
    }
    let mut j: usize = 0;
    while j < m
        invariant
            m == pat@.len(),
            i + m <= a@.len(),
            j <= m,
            forall|k: int| 0 <= k < j ==> a@[i + k] == pat@[k],
        decreases m - j,
    {
        assert(i + j < a.len());
        if a[i + j] != pat[j] {
            assert(a@.subrange(i as int, i + m)[j as int] == a@[i + j]);
            return false;
        }
        j = j + 1;
    }
    assert(a@.subrange(i as int, i + m) =~= pat@);
    true
}

/// `a` with every occurrence of `pat` removed, left to right.
pub fn remove_occurrences(a: &[char], pat: &[char]) -> (r: Vec<char>)
    ensures
        r@ == remove_all(a@, pat@),
{
    let n = a.len();
    let m = pat.len();
    if m == 0 {
        return slice_chars(a, 0, n);
    }
    let mut out: Vec<char> = Vec::new();
    let mut i: usize = 0;
    assert(a@.skip(0) =~= a@);
    while i < n
        invariant
            n == a@.len(),
            m == pat@.len() > 0,
            i <= n,
            out@ + remove_all(a@.skip(i as int), pat@) == remove_all(a@, pat@),
        decreases n - i,
    {
        let ghost rest = a@.skip(i as int);
        if occurs_at(a, i, pat) {
            proof {
                assert(rest.take(m as int) =~= a@.subrange(i as int, i + m));
                assert(rest.skip(m as int) =~= a@.skip(i + m));
            }
            i = i + m;
        } else {
            proof {
                if m <= rest.len() {
                    assert(rest.take(m as int) =~= a@.subrange(i as int, i + m));
                }
                assert(rest.drop_first() =~= a@.skip(i + 1));
                assert(out@.push(a@[i as int]) + remove_all(a@.skip(i + 1), pat@) =~= out@ + (seq![
                    rest[0],
                ] + remove_all(rest.drop_first(), pat@)));
            }
            out.push(a[i]);
            i = i + 1;
        }
    }
    proof {
        assert(a@.skip(n as int) =~= Seq::<char>::empty());
        assert(out@ + Seq::<char>::empty() =~= out@);
    }
    out
}

// ---------------------------------------------------------------------
// Order of texts
// ---------------------------------------------------------------------

/// Whether `a` comes before `b` in lexicographic order of characters,
/// which is the order of `str` (byte order of UTF-8 agrees with the
/// order of code points).
pub open spec fn text_lt(a: Seq<char>, b: Seq<char>) -> bool
    decreases a.len(),
{
    if a.len() == 0 {
        b.len() > 0
    } else if b.len() == 0 {
        false
    } else if a[0] != b[0] {
        (a[0] as u32) < (b[0] as u32)
    } else {
        text_lt(a.drop_first(), b.drop_first())
    }
}

/// Whether `a` comes before `b`.
pub fn text_less(a: &[char], b: &[char]) -> (r: bool)
    ensures
        r == text_lt(a@, b@),
{
    let mut i: usize = 0;
    assert(a@.skip(0) =~= a@);
    assert(b@.skip(0) =~= b@);
    while i < a.len() && i < b.len()
        invariant
            i <= a@.len(),
            i <= b@.len(),
            text_lt(a@, b@) == text_lt(a@.skip(i as int), b@.skip(i as int)),
        decreases a@.len() - i,
    {
        let x = a[i];
        let y = b[i];
        let ghost ra = a@.skip(i as int);
        let ghost rb = b@.skip(i as int);
        assert(ra[0] == x);
        assert(rb[0] == y);
        if x != y {
            return (x as u32) < (y as u32);
        }
        assert(ra.drop_first() =~= a@.skip(i + 1));
        assert(rb.drop_first() =~= b@.skip(i + 1));
        i = i + 1;
    }
    i < b.len()
}

} // verus!
