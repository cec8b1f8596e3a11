//! The lexer: turns schema-language source text into positioned tokens.
//!
//! A keyword is recognized only when it is followed by a single space; at
//! end-of-input, or before any other character, the same spelling lexes as a
//! plain identifier. `///` line comments become doc-comment tokens whose
//! payload keeps two of the slashes and the terminating newline; `//` line
//! comments are discarded. String literals have no escapes: the next `"`
//! always ends them, and an unterminated literal is dropped with the rest of
//! the input. Line and column counters are coarse: a column advances once
//! per token or whitespace character (control characters excepted),
//! comments reset the column without advancing the line, and string
//! contents advance neither.

use vstd::prelude::*;
use vstd::string::StrSliceExecFns;
use vstd::string::StringExecFns;
use crate::span::{Positioned, Span};
use crate::text::{
    ascii_control_char,
    dec_digits,
    digit_char,
    digit_value,
    ident_char,
    ident_start_char,
    is_ascii_control_char,
    is_digit_char,
    is_ident_char,
    is_ident_start_char,
    is_whitespace_char,
    render_usize,
    whitespace_char,
};
use crate::token::{Comment, CommentV, Delimiter, DelimiterV, PTokenV, SyntaxError, Token, TokenV,
    ptoken_view, ptokens_view};

verus! {

/// A lexical failure: either a character outside the language, or an integer
/// literal that does not fit a 64-bit signed value.
pub enum LexFailV {
    UnrecognizedChar { character: char, offset: int, line: int, column: int },
    NumberOverflow { offset: int, line: int, column: int },
}

/// The outcome of scanning one lexical element at a given position.
pub enum LexStepV {
    Emit { token: Option<PTokenV>, next: int, line2: int, col2: int },
    Fail(LexFailV),
}

/// `pat` occurs in `s` starting exactly at `from`.
pub open spec fn spec_match_at(s: Seq<char>, from: int, pat: Seq<char>) -> bool {
    from + pat.len() <= s.len() && s.subrange(from, from + pat.len()) == pat
}

/// The position of the first occurrence of `c` at or after `from`, or the
/// length of `s` if there is none.
pub open spec fn find_from(s: Seq<char>, from: int, c: char) -> int
    decreases s.len() - from,
{
    if from < 0 || from >= s.len() {
        s.len() as int
    } else if s[from] == c {
        from
    } else {
        find_from(s, from + 1, c)
    }
}

/// The end of the run of decimal digits starting at `from`.
pub open spec fn digit_run_end(s: Seq<char>, from: int) -> int
    decreases s.len() - from,
{
    if from < 0 || from >= s.len() || !is_digit_char(s[from]) {
        from
    } else {
        digit_run_end(s, from + 1)
    }
}

/// The end of the run of identifier characters starting at `from`.
pub open spec fn ident_run_end(s: Seq<char>, from: int) -> int
    decreases s.len() - from,
{
    if from < 0 || from >= s.len() || !is_ident_char(s[from]) {
        from
    } else {
        ident_run_end(s, from + 1)
    }
}

/// The numeric value of a sequence of decimal digits.
pub open spec fn dec_value(s: Seq<char>) -> int
    decreases s.len(),
{
    if s.len() == 0 {
        0
    } else {
        dec_value(s.drop_last()) * 10 + digit_value(s.last())
    }
}

pub open spec fn spec_span(start: int, end: int, line: int, col: int) -> Span {
    Span { start: start as usize, end: end as usize, line: line as usize, column: col as usize }
}

pub open spec fn kw_step(i: int, line: int, col: int, t: TokenV, taillen: int) -> LexStepV {
    LexStepV::Emit {
        token: Some(PTokenV { token: t, span: spec_span(i, i + taillen - 1, line, col) }),
        next: i + taillen,
        line2: line,
        col2: col + 1,
    }
}

pub open spec fn punct_step(i: int, line: int, col: int, t: TokenV) -> LexStepV {
    LexStepV::Emit {
        token: Some(PTokenV { token: t, span: spec_span(i, i, line, col) }),
        next: i + 1,
        line2: line,
        col2: col + 1,
    }
}

/// One step of the lexer at position `i` with the current line and column:
/// which token (if any) is produced, and where scanning resumes.
pub open spec fn lex_step(s: Seq<char>, i: int, line: int, col: int) -> LexStepV
    recommends
        0 <= i < s.len(),
{
    let c = s[i];
    if c == '/' && spec_match_at(s, i + 1, "//"@) {
        let j = find_from(s, i + 1, '\n');
        if j < s.len() {
            LexStepV::Emit {
                token: Some(
                    PTokenV {
                        token: TokenV::Comment(CommentV::LineDoc(s.subrange(i + 1, j + 1))),
                        span: spec_span(i, j, line, 0),
                    },
                ),
                next: j + 1,
                line2: line,
                col2: 0,
            }
        } else {
            LexStepV::Fail(
                LexFailV::UnrecognizedChar {
                    character: '/',
                    offset: i,
                    line,
                    column: col + (s.len() - 1 - i),
                },
            )
        }
    } else if c == '/' && spec_match_at(s, i + 1, "/"@) {
        let j = find_from(s, i + 1, '\n');
        if j < s.len() {
            LexStepV::Emit { token: None, next: j + 1, line2: line, col2: 0 }
        } else {
            LexStepV::Fail(
                LexFailV::UnrecognizedChar {
                    character: '/',
                    offset: i,
                    line,
                    column: col + (s.len() - 1 - i),
                },
            )
        }
    } else if is_whitespace_char(c) {
        if c == '\n' {
            LexStepV::Emit { token: None, next: i + 1, line2: line + 1, col2: 0 }
        } else if is_ascii_control_char(c) {
            LexStepV::Emit { token: None, next: i + 1, line2: line, col2: col }
        } else {
            LexStepV::Emit { token: None, next: i + 1, line2: line, col2: col + 1 }
        }
    } else if c == 'm' && spec_match_at(s, i + 1, "eta "@) {
        kw_step(i, line, col, TokenV::Meta, 4)
    } else if c == 'm' && spec_match_at(s, i + 1, "odel "@) {
        kw_step(i, line, col, TokenV::Model, 5)
    } else if c == 't' && spec_match_at(s, i + 1, "ype "@) {
        kw_step(i, line, col, TokenV::Type, 4)
    } else if c == 'e' && spec_match_at(s, i + 1, "num "@) {
        kw_step(i, line, col, TokenV::Enum, 4)
    } else if c == 'e' && spec_match_at(s, i + 1, "ntity "@) {
        kw_step(i, line, col, TokenV::Entity, 6)
    } else if c == 'c' && spec_match_at(s, i + 1, "onstructor "@) {
        kw_step(i, line, col, TokenV::Constructor, 11)
    } else if c == 'c' && spec_match_at(s, i + 1, "lient "@) {
        kw_step(i, line, col, TokenV::Client, 6)
    } else if c == 's' && spec_match_at(s, i + 1, "erver "@) {
        kw_step(i, line, col, TokenV::Server, 6)
    } else if c == 'r' && spec_match_at(s, i + 1, "equired "@) {
        kw_step(i, line, col, TokenV::Required, 8)
    } else if c == 'o' && spec_match_at(s, i + 1, "ptional "@) {
        kw_step(i, line, col, TokenV::Optional, 8)
    } else if c == '=' {
        punct_step(i, line, col, TokenV::Eq)
    } else if c == '{' {
        punct_step(i, line, col, TokenV::Delimiter(DelimiterV::BraceOpen))
    } else if c == '}' {
        punct_step(i, line, col, TokenV::Delimiter(DelimiterV::BraceClose))
    } else if c == '(' {
        punct_step(i, line, col, TokenV::Delimiter(DelimiterV::ParenOpen))
    } else if c == ')' {
        punct_step(i, line, col, TokenV::Delimiter(DelimiterV::ParenClose))
    } else if c == ':' {
        punct_step(i, line, col, TokenV::Colon)
    } else if c == ';' {
        punct_step(i, line, col, TokenV::Semi)
    } else if c == ',' {
        punct_step(i, line, col, TokenV::Comma)
    } else if c == '>' {
        punct_step(i, line, col, TokenV::Gt)
    } else if c == '<' {
        punct_step(i, line, col, TokenV::Lt)
    } else if c == '?' {
        punct_step(i, line, col, TokenV::Question)
    } else if c == '.' {
        punct_step(i, line, col, TokenV::Dot)
    } else if c == '"' {
        let j = find_from(s, i + 1, '"');
        if j < s.len() {
            LexStepV::Emit {
                token: Some(
                    PTokenV {
                        token: TokenV::String(s.subrange(i + 1, j)),
                        span: spec_span(i + 1, j, line, col + 1),
                    },
                ),
                next: j + 1,
                line2: line,
                col2: col + 1,
            }
        } else {
            // An unterminated string literal swallows the rest of the input
            // without producing a token.
            LexStepV::Emit { token: None, next: s.len() as int, line2: line, col2: col + 1 }
        }
    } else if is_digit_char(c) {
        let k = digit_run_end(s, i);
        let v = dec_value(s.subrange(i, k));
        if v > i64::MAX as int {
            LexStepV::Fail(LexFailV::NumberOverflow { offset: i, line, column: col })
        } else {
            LexStepV::Emit {
                token: Some(
                    PTokenV {
                        token: TokenV::Number(v),
                        span: spec_span(i, k - 1, line, col),
                    },
                ),
                next: k,
                line2: line,
                col2: col + 1,
            }
        }
    } else if is_ident_start_char(c) {
        let k = ident_run_end(s, i + 1);
        LexStepV::Emit {
            token: Some(
                PTokenV {
                    token: TokenV::Ident(s.subrange(i, k)),
                    span: spec_span(i, k - 1, line, col),
                },
            ),
            next: k,
            line2: line,
            col2: col + 1,
        }
    } else {
        LexStepV::Fail(LexFailV::UnrecognizedChar { character: c, offset: i, line, column: col })
    }
}

pub proof fn lemma_find_from_bounds(s: Seq<char>, from: int, c: char)
    requires
        0 <= from <= s.len(),
    ensures
        from <= find_from(s, from, c) <= s.len(),
        find_from(s, from, c) < s.len() ==> s[find_from(s, from, c)] == c,
        forall|k: int| from <= k < find_from(s, from, c) ==> s[k] != c,
    decreases s.len() - from,
{
    if from < s.len() && s[from] != c {
        lemma_find_from_bounds(s, from + 1, c);
    }
}

pub proof fn lemma_digit_run_bounds(s: Seq<char>, from: int)
    requires
        0 <= from <= s.len(),
    ensures
        from <= digit_run_end(s, from) <= s.len(),
        digit_run_end(s, from) < s.len() ==> !is_digit_char(s[digit_run_end(s, from)]),
        forall|k: int| from <= k < digit_run_end(s, from) ==> is_digit_char(s[k]),
    decreases s.len() - from,
{
    if from < s.len() && is_digit_char(s[from]) {
        lemma_digit_run_bounds(s, from + 1);
    }
}

pub proof fn lemma_ident_run_bounds(s: Seq<char>, from: int)
    requires
        0 <= from <= s.len(),
    ensures
        from <= ident_run_end(s, from) <= s.len(),
        ident_run_end(s, from) < s.len() ==> !is_ident_char(s[ident_run_end(s, from)]),
        forall|k: int| from <= k < ident_run_end(s, from) ==> is_ident_char(s[k]),
    decreases s.len() - from,
{
    if from < s.len() && is_ident_char(s[from]) {
        lemma_ident_run_bounds(s, from + 1);
    }
}

/// Every emitting step advances the scan position and stays in bounds.
pub proof fn lemma_lex_step_advances(s: Seq<char>, i: int, line: int, col: int)
    requires
        0 <= i < s.len(),
    ensures
        match lex_step(s, i, line, col) {
            LexStepV::Emit { next, .. } => i < next <= s.len(),
            LexStepV::Fail(_) => true,
        },
{
    reveal_strlit("//");
    reveal_strlit("/");
    reveal_strlit("eta ");
    reveal_strlit("odel ");
    reveal_strlit("ype ");
    reveal_strlit("num ");
    reveal_strlit("ntity ");
    reveal_strlit("onstructor ");
    reveal_strlit("lient ");
    reveal_strlit("erver ");
    reveal_strlit("equired ");
    reveal_strlit("ptional ");
    lemma_find_from_bounds(s, i + 1, '\n');
    lemma_find_from_bounds(s, i + 1, '"');
    lemma_ident_run_bounds(s, i + 1);
    lemma_digit_run_bounds(s, i + 1);
    assert(digit_run_end(s, i) == if is_digit_char(s[i]) { digit_run_end(s, i + 1) } else { i });
}

/// The tokens produced from position `i` on, with the given line and column
/// counters, or the first lexical failure.
pub open spec fn spec_lex(s: Seq<char>, i: int, line: int, col: int) -> Result<
    Seq<PTokenV>,
    LexFailV,
>
    decreases s.len() - i,
    when 0 <= i
    via spec_lex_decreases
{
    if i >= s.len() {
        Ok(Seq::empty())
    } else {
        match lex_step(s, i, line, col) {
            LexStepV::Fail(f) => Err(f),
            LexStepV::Emit { token, next, line2, col2 } => match spec_lex(s, next, line2, col2) {
                Err(f) => Err(f),
                Ok(rest) => Ok(
                    match token {
                        Some(t) => seq![t] + rest,
                        None => rest,
                    },
                ),
            },
        }
    }
}

#[via_fn]
proof fn spec_lex_decreases(s: Seq<char>, i: int, line: int, col: int) {
    if 0 <= i < s.len() {
        lemma_lex_step_advances(s, i, line, col);
    }
}

/// The token stream of a whole source text, or its first lexical failure.
pub open spec fn spec_tokenize(s: Seq<char>) -> Result<Seq<PTokenV>, LexFailV> {
    spec_lex(s, 0, 0, 0)
}

/// The exact diagnostic text reported for a lexical failure.
pub open spec fn lex_fail_message(f: LexFailV) -> Seq<char> {
    match f {
        LexFailV::UnrecognizedChar { character, offset, line, column } => "unrecognized character "@
            + seq![character] + " (position: "@ + dec_digits(offset) + ", "@ + dec_digits(line)
            + ":"@ + dec_digits(column) + ")"@,
        LexFailV::NumberOverflow { offset, line, column } =>
            "number literal out of range (position: "@ + dec_digits(offset) + ", "@ + dec_digits(
            line) + ":"@ + dec_digits(column) + ")"@,
    }
}

pub fn match_at_exec(s: &str, from: usize, pat: &str) -> (r: bool)
    requires
        from <= s@.len(),
    ensures
        r == spec_match_at(s@, from as int, pat@),
{
    let n = s.unicode_len();
    let m = pat.unicode_len();
    if m > n - from {
        return false;
    }
    let mut j: usize = 0;
    while j < m
        invariant
            0 <= j <= m,
            m <= n - from,
            from <= n,
            n == s@.len(),
            m == pat@.len(),
            forall|k: int| 0 <= k < j ==> s@[from + k] == pat@[k],
        decreases m - j,
    {
        if s.get_char(from + j) != pat.get_char(j) {
            proof {
                assert(s@.subrange(from as int, from + m) != pat@) by {
                    assert(s@.subrange(from as int, from + m)[j as int] == s@[from + j]);
                }
            }
            return false;
        }
        j += 1;
    }
    proof {
        assert(s@.subrange(from as int, from + m) =~= pat@);
    }
    true
}

pub fn find_char_from_exec(s: &str, from: usize, c: char) -> (r: usize)
    requires
        from <= s@.len(),
    ensures
        r == find_from(s@, from as int, c),
        from <= r <= s@.len(),
        r < s@.len() ==> s@[r as int] == c,
{
    let n = s.unicode_len();
    let mut j: usize = from;
    loop
        invariant
            from <= j <= n,
            n == s@.len(),
            find_from(s@, from as int, c) == find_from(s@, j as int, c),
        decreases n - j,
    {
        if j == n {
            proof {
                lemma_find_from_bounds(s@, j as int, c);
            }
            return j;
        }
        if s.get_char(j) == c {
            return j;
        }
        j += 1;
    }
}

pub fn digit_run_end_exec(s: &str, from: usize) -> (r: usize)
    requires
        from <= s@.len(),
    ensures
        r == digit_run_end(s@, from as int),
        from <= r <= s@.len(),
{
    let n = s.unicode_len();
    let mut j: usize = from;
    loop
        invariant
            from <= j <= n,
            n == s@.len(),
            digit_run_end(s@, from as int) == digit_run_end(s@, j as int),
        decreases n - j,
    {
        if j == n {
            return j;
        }
        if !digit_char(s.get_char(j)) {
            return j;
        }
        j += 1;
    }
}

fn ident_run_end_exec(s: &str, from: usize) -> (r: usize)
    requires
        from <= s@.len(),
    ensures
        r == ident_run_end(s@, from as int),
        from <= r <= s@.len(),
{
    let n = s.unicode_len();
    let mut j: usize = from;
    loop
        invariant
            from <= j <= n,
            n == s@.len(),
            ident_run_end(s@, from as int) == ident_run_end(s@, j as int),
        decreases n - j,
    {
        if j == n {
            return j;
        }
        if !ident_char(s.get_char(j)) {
            return j;
        }
        j += 1;
    }
}

proof fn lemma_dec_value_nonneg(s: Seq<char>)
    requires
        forall|k: int| 0 <= k < s.len() ==> is_digit_char(s[k]),
    ensures
        dec_value(s) >= 0,
    decreases s.len(),
{
    if s.len() > 0 {
        lemma_dec_value_nonneg(s.drop_last());
    }
}

/// Appending more digits never lowers the value of a digit run.
proof fn lemma_dec_value_append_ge(a: Seq<char>, b: Seq<char>)
    requires
        forall|k: int| 0 <= k < a.len() ==> is_digit_char(a[k]),
        forall|k: int| 0 <= k < b.len() ==> is_digit_char(b[k]),
    ensures
        dec_value(a + b) >= dec_value(a),
    decreases b.len(),
{
    if b.len() == 0 {
        assert(a + b =~= a);
    } else {
        lemma_dec_value_append_ge(a, b.drop_last());
        assert((a + b).drop_last() =~= a + b.drop_last());
        assert((a + b).last() == b.last());
        lemma_dec_value_nonneg(a + b.drop_last());
    }
}

pub(crate) fn parse_digit_run(s: &str, start: usize, k: usize) -> (r: Option<i64>)
    requires
        start <= k <= s@.len(),
        forall|t: int| start <= t < k ==> is_digit_char(s@[t]),
    ensures
        match r {
            Some(v) => dec_value(s@.subrange(start as int, k as int)) == v as int,
            None => dec_value(s@.subrange(start as int, k as int)) > i64::MAX as int,
        },
{
    let mut acc: i64 = 0;
    let mut j: usize = start;
    while j < k
        invariant
            start <= j <= k <= s@.len(),
            forall|t: int| start <= t < k ==> is_digit_char(s@[t]),
            acc >= 0,
            acc as int == dec_value(s@.subrange(start as int, j as int)),
        decreases k - j,
    {
        let c = s.get_char(j);
        let d: i64 = ((c as u32) - 48) as i64;
        proof {
            assert(s@.subrange(start as int, j + 1) =~= s@.subrange(start as int, j as int).push(
                s@[j as int]));
            assert(s@.subrange(start as int, j + 1).drop_last() =~= s@.subrange(
                start as int, j as int));
        }
        if acc > (i64::MAX - d) / 10 {
            proof {
                assert(acc as int * 10 + d as int > i64::MAX as int) by (nonlinear_arith)
                    requires
                        acc as int > (i64::MAX as int - d as int) / 10,
                        0 <= d as int <= 9,
                        acc >= 0,
                ;
                assert(s@.subrange(start as int, k as int) =~= s@.subrange(start as int, j + 1)
                    + s@.subrange(j + 1, k as int));
                lemma_dec_value_append_ge(
                    s@.subrange(start as int, j + 1),
                    s@.subrange(j + 1, k as int),
                );
            }
            return None;
        }
        proof {
            assert(acc as int * 10 + d as int <= i64::MAX as int) by (nonlinear_arith)
                requires
                    acc as int <= (i64::MAX as int - d as int) / 10,
                    0 <= d as int <= 9,
                    acc >= 0,
            ;
        }
        acc = acc * 10 + d;
        j += 1;
    }
    proof {
        assert(s@.subrange(start as int, j as int) =~= s@.subrange(start as int, k as int));
    }
    Some(acc)
}

proof fn lemma_ptokens_view_push(ts: Seq<Positioned<Token>>, t: Positioned<Token>)
    ensures
        ptokens_view(ts.push(t)) =~= ptokens_view(ts).push(ptoken_view(&t)),
{
}

fn lex_fail_error(character: char, offset: usize, line: usize, column: usize, overflow: bool) -> (r:
    SyntaxError)
    ensures
        !overflow ==> r.message_view() == lex_fail_message(
            LexFailV::UnrecognizedChar {
                character,
                offset: offset as int,
                line: line as int,
                column: column as int,
            },
        ),
        overflow ==> r.message_view() == lex_fail_message(
            LexFailV::NumberOverflow {
                offset: offset as int,
                line: line as int,
                column: column as int,
            },
        ),
{
    let mut m = String::new();
    if overflow {
        m.append("number literal out of range (position: ");
    } else {
        m.append("unrecognized character ");
        m.push(character);
        m.append(" (position: ");
    }
    let p = render_usize(offset);
    m.append(p.as_str());
    m.append(", ");
    let l = render_usize(line);
    m.append(l.as_str());
    m.append(":");
    let c = render_usize(column);
    m.append(c.as_str());
    m.append(")");
    SyntaxError::new(m)
}

/// One loop step of the lexer preserves the relation between the tokens
/// already produced and the tokens still to come.
proof fn lemma_lex_iter(
    s: Seq<char>,
    i: int,
    line: int,
    col: int,
    toks_old: Seq<PTokenV>,
    toks_new: Seq<PTokenV>,
    tv: Option<PTokenV>,
    next: int,
    line2: int,
    col2: int,
)
    requires
        0 <= i < s.len(),
        lex_step(s, i, line, col) == (LexStepV::Emit { token: tv, next, line2, col2 }),
        toks_new == match tv {
            Some(t) => toks_old.push(t),
            None => toks_old,
        },
        match spec_lex(s, i, line, col) {
            Ok(rest) => spec_tokenize(s) == Ok::<Seq<PTokenV>, LexFailV>(toks_old + rest),
            Err(f) => spec_tokenize(s) == Err::<Seq<PTokenV>, LexFailV>(f),
        },
    ensures
        match spec_lex(s, next, line2, col2) {
            Ok(rest) => spec_tokenize(s) == Ok::<Seq<PTokenV>, LexFailV>(toks_new + rest),
            Err(f) => spec_tokenize(s) == Err::<Seq<PTokenV>, LexFailV>(f),
        },
{
    lemma_lex_step_advances(s, i, line, col);
    match spec_lex(s, next, line2, col2) {
        Ok(rest) => {
            assert(spec_lex(s, i, line, col) == Ok::<Seq<PTokenV>, LexFailV>(
                match tv {
                    Some(t) => seq![t] + rest,
                    None => rest,
                },
            ));
            match tv {
                Some(t) => {
                    assert(toks_old + (seq![t] + rest) =~= toks_old.push(t) + rest);
                },
                None => {},
            }
        },
        Err(f) => {
            assert(spec_lex(s, i, line, col) == Err::<Seq<PTokenV>, LexFailV>(f));
        },
    }
}

/// Lexes a whole source text into positioned tokens.
///
/// On success the tokens are exactly `spec_tokenize` of the input; on failure
/// the input has a lexical failure and the error carries its exact diagnostic
/// text.
#[verifier::rlimit(100)]
pub fn tokenizer(input: &str) -> (r: Result<Vec<Positioned<Token>>, SyntaxError>)
    ensures
        match r {
            Ok(toks) => spec_tokenize(input@) == Ok::<Seq<PTokenV>, LexFailV>(
                ptokens_view(toks@),
            ),
            Err(e) => {
                &&& spec_tokenize(input@) is Err
                &&& e.message_view() == lex_fail_message(spec_tokenize(input@)->Err_0)
            },
        },
{
    let n = input.unicode_len();
    let mut tokens: Vec<Positioned<Token>> = Vec::new();
    let mut i: usize = 0;
    let mut line: usize = 0;
    let mut col: usize = 0;
    loop
        invariant
            i <= n,
            n == input@.len(),
            line <= i,
            col <= i,
            match spec_lex(input@, i as int, line as int, col as int) {
                Ok(rest) => spec_tokenize(input@) == Ok::<Seq<PTokenV>, LexFailV>(
                    ptokens_view(tokens@) + rest,
                ),
                Err(f) => spec_tokenize(input@) == Err::<Seq<PTokenV>, LexFailV>(f),
            },
        ensures
            i >= n,
            match spec_lex(input@, i as int, line as int, col as int) {
                Ok(rest) => spec_tokenize(input@) == Ok::<Seq<PTokenV>, LexFailV>(
                    ptokens_view(tokens@) + rest,
                ),
                Err(f) => spec_tokenize(input@) == Err::<Seq<PTokenV>, LexFailV>(f),
            },
        decreases n - i,
    {
        if i >= n {
            break;
        }
        let ghost i0 = i as int;
        let ghost l0 = line as int;
        let ghost c0 = col as int;
        let ghost toks0 = ptokens_view(tokens@);
        let ghost tseq0 = tokens@;
        let c = input.get_char(i);
        // Doc comments: three slashes up to and including the next newline.
        if c == '/' && match_at_exec(input, i + 1, "//") {
            let j = find_char_from_exec(input, i + 1, '\n');
            if j < n {
                let body = input.substring_char(i + 1, j + 1).to_owned();
                let span = Span { start: i, end: j, line, column: 0 };
                tokens.push(Positioned::new(Token::Comment(Comment::LineDoc(body)), span));
                i = j + 1;
                col = 0;
                proof {
                    lemma_ptokens_view_push(tseq0, tokens@.last());
                    assert(tokens@ == tseq0.push(tokens@.last()));
                    lemma_lex_iter(input@, i0, l0, c0, toks0, ptokens_view(tokens@),
                        Some(ptoken_view(&tokens@.last())), i as int, line as int, col as int);
                }
            } else {
                let column = col + (n - 1 - i);
                proof {
                    assert(lex_step(input@, i0, l0, c0) == LexStepV::Fail(
                        LexFailV::UnrecognizedChar {
                            character: '/',
                            offset: i0,
                            line: l0,
                            column: c0 + (input@.len() - 1 - i0),
                        },
                    ));
                    assert(spec_lex(input@, i0, l0, c0) is Err);
                }
                return Err(lex_fail_error('/', i, line, column, false));
            }
        } else if c == '/' && match_at_exec(input, i + 1, "/") {
            // Plain comments are scanned and discarded.
            let j = find_char_from_exec(input, i + 1, '\n');
            if j < n {
                i = j + 1;
                col = 0;
                proof {
                    lemma_lex_iter(input@, i0, l0, c0, toks0, ptokens_view(tokens@), None,
                        i as int, line as int, col as int);
                }
            } else {
                let column = col + (n - 1 - i);
                proof {
                    assert(lex_step(input@, i0, l0, c0) == LexStepV::Fail(
                        LexFailV::UnrecognizedChar {
                            character: '/',
                            offset: i0,
                            line: l0,
                            column: c0 + (input@.len() - 1 - i0),
                        },
                    ));
                    assert(spec_lex(input@, i0, l0, c0) is Err);
                }
                return Err(lex_fail_error('/', i, line, column, false));
            }
        } else if whitespace_char(c) {
            if c == '\n' {
                line = line + 1;
                col = 0;
            } else if !ascii_control_char(c) {
                col = col + 1;
            }
            i = i + 1;
            proof {
                lemma_lex_iter(input@, i0, l0, c0, toks0, ptokens_view(tokens@), None, i as int,
                    line as int, col as int);
            }
        } else if c == 'm' && match_at_exec(input, i + 1, "eta ") {
            proof {
                reveal_strlit("eta ");
            }
            let span = Span { start: i, end: i + 3, line, column: col };
            tokens.push(Positioned::new(Token::Meta, span));
            i = i + 4;
            col = col + 1;
            proof {
                lemma_ptokens_view_push(tseq0, tokens@.last());
                assert(tokens@ == tseq0.push(tokens@.last()));
                lemma_lex_iter(input@, i0, l0, c0, toks0, ptokens_view(tokens@),
                    Some(ptoken_view(&tokens@.last())), i as int, line as int, col as int);
            }
        } else if c == 'm' && match_at_exec(input, i + 1, "odel ") {
            proof {
                reveal_strlit("odel ");
            }
            let span = Span { start: i, end: i + 4, line, column: col };
            tokens.push(Positioned::new(Token::Model, span));
            i = i + 5;
            col = col + 1;
            proof {
                lemma_ptokens_view_push(tseq0, tokens@.last());
                assert(tokens@ == tseq0.push(tokens@.last()));
                lemma_lex_iter(input@, i0, l0, c0, toks0, ptokens_view(tokens@),
                    Some(ptoken_view(&tokens@.last())), i as int, line as int, col as int);
            }
        } else if c == 't' && match_at_exec(input, i + 1, "ype ") {
            proof {
                reveal_strlit("ype ");
            }
            let span = Span { start: i, end: i + 3, line, column: col };
            tokens.push(Positioned::new(Token::Type, span));
            i = i + 4;
            col = col + 1;
            proof {
                lemma_ptokens_view_push(tseq0, tokens@.last());
                assert(tokens@ == tseq0.push(tokens@.last()));
                lemma_lex_iter(input@, i0, l0, c0, toks0, ptokens_view(tokens@),
                    Some(ptoken_view(&tokens@.last())), i as int, line as int, col as int);
            }
        } else if c == 'e' && match_at_exec(input, i + 1, "num ") {
            proof {
                reveal_strlit("num ");
            }
            let span = Span { start: i, end: i + 3, line, column: col };
            tokens.push(Positioned::new(Token::Enum, span));
            i = i + 4;
            col = col + 1;
            proof {
                lemma_ptokens_view_push(tseq0, tokens@.last());
                assert(tokens@ == tseq0.push(tokens@.last()));
                lemma_lex_iter(input@, i0, l0, c0, toks0, ptokens_view(tokens@),
                    Some(ptoken_view(&tokens@.last())), i as int, line as int, col as int);
            }
        } else if c == 'e' && match_at_exec(input, i + 1, "ntity ") {
            proof {
                reveal_strlit("ntity ");
            }
            let span = Span { start: i, end: i + 5, line, column: col };
            tokens.push(Positioned::new(Token::Entity, span));
            i = i + 6;
            col = col + 1;
            proof {
                lemma_ptokens_view_push(tseq0, tokens@.last());
                assert(tokens@ == tseq0.push(tokens@.last()));
                lemma_lex_iter(input@, i0, l0, c0, toks0, ptokens_view(tokens@),
                    Some(ptoken_view(&tokens@.last())), i as int, line as int, col as int);
            }
        } else if c == 'c' && match_at_exec(input, i + 1, "onstructor ") {
            proof {
                reveal_strlit("onstructor ");
            }
            let span = Span { start: i, end: i + 10, line, column: col };
            tokens.push(Positioned::new(Token::Constructor, span));
            i = i + 11;
            col = col + 1;
            proof {
                lemma_ptokens_view_push(tseq0, tokens@.last());
                assert(tokens@ == tseq0.push(tokens@.last()));
                lemma_lex_iter(input@, i0, l0, c0, toks0, ptokens_view(tokens@),
                    Some(ptoken_view(&tokens@.last())), i as int, line as int, col as int);
            }
        } else if c == 'c' && match_at_exec(input, i + 1, "lient ") {
            proof {
                reveal_strlit("lient ");
            }
            let span = Span { start: i, end: i + 5, line, column: col };
            tokens.push(Positioned::new(Token::Client, span));
            i = i + 6;
            col = col + 1;
            proof {
                lemma_ptokens_view_push(tseq0, tokens@.last());
                assert(tokens@ == tseq0.push(tokens@.last()));
                lemma_lex_iter(input@, i0, l0, c0, toks0, ptokens_view(tokens@),
                    Some(ptoken_view(&tokens@.last())), i as int, line as int, col as int);
            }
        } else if c == 's' && match_at_exec(input, i + 1, "erver ") {
            proof {
                reveal_strlit("erver ");
            }
            let span = Span { start: i, end: i + 5, line, column: col };
            tokens.push(Positioned::new(Token::Server, span));
            i = i + 6;
            col = col + 1;
            proof {
                lemma_ptokens_view_push(tseq0, tokens@.last());
                assert(tokens@ == tseq0.push(tokens@.last()));
                lemma_lex_iter(input@, i0, l0, c0, toks0, ptokens_view(tokens@),
                    Some(ptoken_view(&tokens@.last())), i as int, line as int, col as int);
            }
        } else if c == 'r' && match_at_exec(input, i + 1, "equired ") {
            proof {
                reveal_strlit("equired ");
            }
            let span = Span { start: i, end: i + 7, line, column: col };
            tokens.push(Positioned::new(Token::Required, span));
            i = i + 8;
            col = col + 1;
            proof {
                lemma_ptokens_view_push(tseq0, tokens@.last());
                assert(tokens@ == tseq0.push(tokens@.last()));
                lemma_lex_iter(input@, i0, l0, c0, toks0, ptokens_view(tokens@),
                    Some(ptoken_view(&tokens@.last())), i as int, line as int, col as int);
            }
        } else if c == 'o' && match_at_exec(input, i + 1, "ptional ") {
            proof {
                reveal_strlit("ptional ");
            }
            let span = Span { start: i, end: i + 7, line, column: col };
            tokens.push(Positioned::new(Token::Optional, span));
            i = i + 8;
            col = col + 1;
            proof {
                lemma_ptokens_view_push(tseq0, tokens@.last());
                assert(tokens@ == tseq0.push(tokens@.last()));
                lemma_lex_iter(input@, i0, l0, c0, toks0, ptokens_view(tokens@),
                    Some(ptoken_view(&tokens@.last())), i as int, line as int, col as int);
            }
        } else if c == '=' || c == '{' || c == '}' || c == '(' || c == ')' || c == ':' || c == ';'
            || c == ',' || c == '>' || c == '<' || c == '?' || c == '.' {
            let t = if c == '=' {
                Token::Eq
            } else if c == '{' {
                Token::Delimiter(Delimiter::BraceOpen)
            } else if c == '}' {
                Token::Delimiter(Delimiter::BraceClose)
            } else if c == '(' {
                Token::Delimiter(Delimiter::ParenOpen)
            } else if c == ')' {
                Token::Delimiter(Delimiter::ParenClose)
            } else if c == ':' {
                Token::Colon
            } else if c == ';' {
                Token::Semi
            } else if c == ',' {
                Token::Comma
            } else if c == '>' {
                Token::Gt
            } else if c == '<' {
                Token::Lt
            } else if c == '?' {
                Token::Question
            } else {
                Token::Dot
            };
            let span = Span { start: i, end: i, line, column: col };
            tokens.push(Positioned::new(t, span));
            i = i + 1;
            col = col + 1;
            proof {
                lemma_ptokens_view_push(tseq0, tokens@.last());
                assert(tokens@ == tseq0.push(tokens@.last()));
                lemma_lex_iter(input@, i0, l0, c0, toks0, ptokens_view(tokens@),
                    Some(ptoken_view(&tokens@.last())), i as int, line as int, col as int);
            }
        } else if c == '"' {
            let j = find_char_from_exec(input, i + 1, '"');
            if j < n {
                let body = input.substring_char(i + 1, j).to_owned();
                let span = Span { start: i + 1, end: j, line, column: col + 1 };
                tokens.push(Positioned::new(Token::String(body), span));
                i = j + 1;
                col = col + 1;
                proof {
                    lemma_ptokens_view_push(tseq0, tokens@.last());
                    assert(tokens@ == tseq0.push(tokens@.last()));
                    lemma_lex_iter(input@, i0, l0, c0, toks0, ptokens_view(tokens@),
                        Some(ptoken_view(&tokens@.last())), i as int, line as int, col as int);
                }
            } else {
                // An unterminated literal swallows the rest of the input.
                col = col + 1;
                i = n;
                proof {
                    lemma_lex_iter(input@, i0, l0, c0, toks0, ptokens_view(tokens@), None,
                        i as int, line as int, col as int);
                }
            }
        } else if digit_char(c) {
            let k = digit_run_end_exec(input, i);
            proof {
                lemma_digit_run_bounds(input@, i0);
                assert(digit_run_end(input@, i0) == digit_run_end(input@, i0 + 1));
                lemma_digit_run_bounds(input@, i0 + 1);
            }
            match parse_digit_run(input, i, k) {
                Some(v) => {
                    let span = Span { start: i, end: k - 1, line, column: col };
                    tokens.push(Positioned::new(Token::Number(v), span));
                    i = k;
                    col = col + 1;
                    proof {
                        lemma_ptokens_view_push(tseq0, tokens@.last());
                        assert(tokens@ == tseq0.push(tokens@.last()));
                        lemma_lex_iter(input@, i0, l0, c0, toks0, ptokens_view(tokens@),
                            Some(ptoken_view(&tokens@.last())), i as int, line as int,
                            col as int);
                    }
                },
                None => {
                    proof {
                        assert(lex_step(input@, i0, l0, c0) == LexStepV::Fail(
                            LexFailV::NumberOverflow { offset: i0, line: l0, column: c0 }));
                        assert(spec_lex(input@, i0, l0, c0) == Err::<Seq<PTokenV>, LexFailV>(
                            LexFailV::NumberOverflow { offset: i0, line: l0, column: c0 }));
                    }
                    return Err(lex_fail_error(c, i, line, col, true));
                },
            }
        } else if ident_start_char(c) {
            let k = ident_run_end_exec(input, i + 1);
            proof {
                lemma_ident_run_bounds(input@, i0 + 1);
            }
            let body = input.substring_char(i, k).to_owned();
            let span = Span { start: i, end: k - 1, line, column: col };
            tokens.push(Positioned::new(Token::Ident(body), span));
            i = k;
            col = col + 1;
            proof {
                lemma_ptokens_view_push(tseq0, tokens@.last());
                assert(tokens@ == tseq0.push(tokens@.last()));
                lemma_lex_iter(input@, i0, l0, c0, toks0, ptokens_view(tokens@),
                    Some(ptoken_view(&tokens@.last())), i as int, line as int, col as int);
            }
        } else {
            let err = lex_fail_error(c, i, line, col, false);
            proof {
                assert(lex_step(input@, i0, l0, c0) == LexStepV::Fail(
                    LexFailV::UnrecognizedChar { character: c, offset: i0, line: l0, column: c0 },
                ));
                assert(spec_lex(input@, i0, l0, c0) == Err::<Seq<PTokenV>, LexFailV>(
                    LexFailV::UnrecognizedChar { character: c, offset: i0, line: l0, column: c0 },
                ));
                assert(spec_tokenize(input@) == Err::<Seq<PTokenV>, LexFailV>(
                    LexFailV::UnrecognizedChar { character: c, offset: i0, line: l0, column: c0 },
                ));
                assert(err.message_view() == lex_fail_message(spec_tokenize(input@)->Err_0));
            }
            return Err(err);
        }
    }
    proof {
        assert(spec_lex(input@, i as int, line as int, col as int) == Ok::<Seq<PTokenV>, LexFailV>(
            Seq::<PTokenV>::empty()));
        assert(ptokens_view(tokens@) + Seq::<PTokenV>::empty() =~= ptokens_view(tokens@));
    }
    Ok(tokens)
}

} // verus!
