//! Demand-driven recovery of missing definitions from legacy compiled-codec
//! sources.
//!
//! This is a dedicated pattern matcher over a restricted sub-grammar of the
//! legacy source text, not a parser of that language: text that does not fit
//! the fixed templates yields no match. The templates work line by line; a
//! 64-bit identity is reconstructed from its two 32-bit decimal-or-hex words
//! with the packing rule of [`crate::ids`].

use vstd::prelude::*;
use vstd::string::StrSliceExecFns;
use vstd::string::StringExecFns;
use crate::lexer::{find_from, ident_run_end, spec_match_at};
use crate::text::{digit_char, is_digit_char, is_whitespace_char, whitespace_char};
use crate::resolve::ResolutionContext;
use crate::token::SyntaxError;

verus! {

/// The position of the first occurrence of `pat` at or after `from`, or the
/// length of `s` when there is none (for a non-empty `pat`).
pub open spec fn find_sub(s: Seq<char>, from: int, pat: Seq<char>) -> int
    decreases s.len() - from,
{
    if from < 0 || from >= s.len() {
        s.len() as int
    } else if spec_match_at(s, from, pat) {
        from
    } else {
        find_sub(s, from + 1, pat)
    }
}

pub proof fn lemma_find_sub_bounds(s: Seq<char>, from: int, pat: Seq<char>)
    requires
        0 <= from <= s.len(),
    ensures
        from <= find_sub(s, from, pat) <= s.len(),
        find_sub(s, from, pat) < s.len() ==> spec_match_at(s, find_sub(s, from, pat), pat),
    decreases s.len() - from,
{
    if from < s.len() && !spec_match_at(s, from, pat) {
        lemma_find_sub_bounds(s, from + 1, pat);
    }
}

/// Finds the first occurrence of `pat` at or after `from`.
pub fn find_sub_from(s: &str, from: usize, pat: &str) -> (r: usize)
    requires
        from <= s@.len(),
    ensures
        r == find_sub(s@, from as int, pat@),
        from <= r <= s@.len(),
        r < s@.len() ==> spec_match_at(s@, r as int, pat@),
{
    let n = s.unicode_len();
    let m = pat.unicode_len();
    let mut j: usize = from;
    loop
        invariant
            from <= j <= n,
            n == s@.len(),
            m == pat@.len(),
            find_sub(s@, from as int, pat@) == find_sub(s@, j as int, pat@),
        decreases n - j,
    {
        if j >= n {
            proof {
                lemma_find_sub_bounds(s@, j as int, pat@);
            }
            return j;
        }
        if crate::lexer::match_at_exec(s, j, pat) {
            return j;
        }
        j += 1;
    }
}

/// True when `pat` occurs anywhere in `s` (for a non-empty `pat`).
pub fn contains_sub(s: &str, pat: &str) -> (r: bool)
    ensures
        r == (find_sub(s@, 0, pat@) < s@.len()),
{
    let j = find_sub_from(s, 0, pat);
    j < s.unicode_len()
}

/// A hexadecimal digit.
pub open spec fn is_hex_char(c: char) -> bool {
    is_digit_char(c) || (97 <= (c as u32) && (c as u32) <= 102) || (65 <= (c as u32) && (c as u32)
        <= 70)
}

/// The numeric value of a hexadecimal digit.
pub open spec fn hex_digit_value(c: char) -> int {
    if is_digit_char(c) {
        (c as u32) - 48
    } else if 97 <= (c as u32) && (c as u32) <= 102 {
        (c as u32) - 87
    } else {
        (c as u32) - 55
    }
}

pub open spec fn all_digits(s: Seq<char>) -> bool {
    forall|k: int| 0 <= k < s.len() ==> is_digit_char(#[trigger] s[k])
}

pub open spec fn all_hex(s: Seq<char>) -> bool {
    forall|k: int| 0 <= k < s.len() ==> is_hex_char(#[trigger] s[k])
}

/// The value of a run of hexadecimal digits.
pub open spec fn hex_value(s: Seq<char>) -> int
    decreases s.len(),
{
    if s.len() == 0 {
        0
    } else {
        hex_value(s.drop_last()) * 16 + hex_digit_value(s.last())
    }
}

/// The 32-bit word written by a legacy identity literal: `0x` and lowercase
/// or uppercase hex digits, a decimal digit run, or a `-` and a decimal
/// digit run; absent or out of range means no word.
pub open spec fn dec_or_hex_val(s: Seq<char>) -> Option<int> {
    if s.len() >= 3 && s[0] == '0' && s[1] == 'x' && all_hex(s.subrange(2, s.len() as int)) {
        Some(hex_value(s.subrange(2, s.len() as int)))
    } else if s.len() >= 2 && s[0] == '-' && all_digits(s.subrange(1, s.len() as int)) {
        Some(-crate::lexer::dec_value(s.subrange(1, s.len() as int)))
    } else if s.len() >= 1 && all_digits(s) {
        Some(crate::lexer::dec_value(s))
    } else {
        None
    }
}

pub open spec fn spec_parse_dec_or_hex(s: Seq<char>) -> Option<i32> {
    match dec_or_hex_val(s) {
        Some(v) => if i32::MIN <= v <= i32::MAX {
            Some(v as i32)
        } else {
            None
        },
        None => None,
    }
}

/// One digit extends a value by one place.
proof fn lemma_value_step(s: Seq<char>, j: int, hex: bool)
    requires
        0 <= j < s.len(),
    ensures
        hex ==> hex_value(s.subrange(0, j + 1)) == hex_value(s.subrange(0, j)) * 16
            + hex_digit_value(s[j]),
        !hex ==> crate::lexer::dec_value(s.subrange(0, j + 1)) == crate::lexer::dec_value(
            s.subrange(0, j),
        ) * 10 + crate::text::digit_value(s[j]),
{
    assert(s.subrange(0, j + 1).drop_last() =~= s.subrange(0, j));
    assert(s.subrange(0, j + 1).last() == s[j]);
}

fn hex_char(c: char) -> (r: bool)
    ensures
        r == is_hex_char(c),
{
    let u = c as u32;
    (48 <= u && u <= 57) || (97 <= u && u <= 102) || (65 <= u && u <= 70)
}

/// Parses a run of digits in the given base, bounded by `2^31`.
fn parse_bounded(s: &str, start: usize, hex: bool) -> (r: Option<u32>)
    requires
        start <= s@.len(),
    ensures
        match r {
            Some(v) => {
                &&& start < s@.len()
                &&& if hex {
                    all_hex(s@.subrange(start as int, s@.len() as int)) && v as int == hex_value(
                        s@.subrange(start as int, s@.len() as int),
                    )
                } else {
                    all_digits(s@.subrange(start as int, s@.len() as int)) && v as int
                        == crate::lexer::dec_value(s@.subrange(start as int, s@.len() as int))
                }
                &&& v <= 0x8000_0000u32
            },
            None => start >= s@.len() || if hex {
                !all_hex(s@.subrange(start as int, s@.len() as int)) || hex_value(
                    s@.subrange(start as int, s@.len() as int),
                ) > 0x8000_0000int
            } else {
                !all_digits(s@.subrange(start as int, s@.len() as int))
                    || crate::lexer::dec_value(s@.subrange(start as int, s@.len() as int))
                    > 0x8000_0000int
            },
        },
{
    let n = s.unicode_len();
    if start >= n {
        return None;
    }
    let ghost run = s@.subrange(start as int, s@.len() as int);
    let mut acc: u32 = 0;
    let mut j: usize = start;
    while j < n
        invariant
            start <= j <= n,
            n == s@.len(),
            run == s@.subrange(start as int, s@.len() as int),
            acc <= 0x8000_0000u32,
            hex ==> all_hex(run.subrange(0, j - start)) && acc as int == hex_value(
                run.subrange(0, j - start),
            ),
            !hex ==> all_digits(run.subrange(0, j - start)) && acc as int
                == crate::lexer::dec_value(run.subrange(0, j - start)),
        decreases n - j,
    {
        let c = s.get_char(j);
        proof {
            assert(run[j - start] == s@[j as int]);
            lemma_value_step(run, j - start, hex);
        }
        let d: u32 = if hex {
            if !hex_char(c) {
                proof {
                    assert(!all_hex(run)) by {
                        assert(!is_hex_char(run[j - start]));
                    }
                }
                return None;
            }
            let u = c as u32;
            if 48 <= u && u <= 57 {
                u - 48
            } else if 97 <= u {
                u - 87
            } else {
                u - 55
            }
        } else {
            if !digit_char(c) {
                proof {
                    assert(!all_digits(run)) by {
                        assert(!is_digit_char(run[j - start]));
                    }
                }
                return None;
            }
            (c as u32) - 48
        };
        let base: u32 = if hex {
            16
        } else {
            10
        };
        if acc > (0x8000_0000u32 - d) / base {
            proof {
                let full = if hex {
                    hex_value(run)
                } else {
                    crate::lexer::dec_value(run)
                };
                assert(acc as int * base as int + d as int > 0x8000_0000int) by (nonlinear_arith)
                    requires
                        acc as int > (0x8000_0000int - d as int) / base as int,
                        base as int == 10 || base as int == 16,
                        d < base,
                        acc >= 0,
                ;
                lemma_run_value_monotone(run, j - start + 1, hex);
            }
            return None;
        }
        proof {
            assert(acc as int * base as int + d as int <= 0x8000_0000int) by (nonlinear_arith)
                requires
                    acc as int <= (0x8000_0000int - d as int) / base as int,
                    base as int == 10 || base as int == 16,
                    d < base,
                    acc >= 0,
            ;
        }
        acc = acc * base + d;
        j += 1;
    }
    proof {
        assert(run.subrange(0, j - start) =~= run);
    }
    Some(acc)
}

/// Digit values never decrease as a run grows.
proof fn lemma_run_value_monotone(run: Seq<char>, j: int, hex: bool)
    requires
        0 <= j <= run.len(),
        hex ==> all_hex(run.subrange(0, j)),
        !hex ==> all_digits(run.subrange(0, j)),
    ensures
        hex && all_hex(run) ==> hex_value(run) >= hex_value(run.subrange(0, j)),
        !hex && all_digits(run) ==> crate::lexer::dec_value(run) >= crate::lexer::dec_value(
            run.subrange(0, j),
        ),
    decreases run.len() - j,
{
    if j < run.len() {
        if hex && all_hex(run) {
            assert(all_hex(run.subrange(0, j + 1))) by {
                assert(forall|k: int| 0 <= k < j + 1 ==> is_hex_char(
                    #[trigger] run.subrange(0, j + 1)[k]));
            }
            lemma_value_step(run, j, hex);
            lemma_hex_value_nonneg(run.subrange(0, j));
            lemma_run_value_monotone(run, j + 1, hex);
        }
        if !hex && all_digits(run) {
            assert(all_digits(run.subrange(0, j + 1))) by {
                assert(forall|k: int| 0 <= k < j + 1 ==> is_digit_char(
                    #[trigger] run.subrange(0, j + 1)[k]));
            }
            lemma_value_step(run, j, hex);
            lemma_dec_value_nonneg_local(run.subrange(0, j));
            lemma_run_value_monotone(run, j + 1, hex);
        }
    } else {
        assert(run.subrange(0, j) =~= run);
    }
}

proof fn lemma_hex_value_nonneg(s: Seq<char>)
    requires
        all_hex(s),
    ensures
        hex_value(s) >= 0,
    decreases s.len(),
{
    if s.len() > 0 {
        assert(all_hex(s.drop_last())) by {
            assert(forall|k: int| 0 <= k < s.len() - 1 ==> is_hex_char(
                #[trigger] s.drop_last()[k]));
        }
        lemma_hex_value_nonneg(s.drop_last());
    }
}

proof fn lemma_dec_value_nonneg_local(s: Seq<char>)
    requires
        all_digits(s),
    ensures
        crate::lexer::dec_value(s) >= 0,
    decreases s.len(),
{
    if s.len() > 0 {
        assert(all_digits(s.drop_last())) by {
            assert(forall|k: int| 0 <= k < s.len() - 1 ==> is_digit_char(
                #[trigger] s.drop_last()[k]));
        }
        lemma_dec_value_nonneg_local(s.drop_last());
    }
}

/// Reads one 32-bit legacy identity word written in decimal, negated
/// decimal, or `0x` hexadecimal.
pub fn parse_id_from_dec_or_hex(value: &str) -> (r: Option<i32>)
    ensures
        r == spec_parse_dec_or_hex(value@),
{
    let n = value.unicode_len();
    if n >= 3 && value.get_char(0) == '0' && value.get_char(1) == 'x' {
        match parse_bounded(value, 2, true) {
            Some(v) => {
                if v <= 0x7fff_ffffu32 {
                    Some(v as i32)
                } else {
                    None
                }
            },
            None => None,
        }
    } else if n >= 2 && value.get_char(0) == '-' {
        match parse_bounded(value, 1, false) {
            Some(v) => {
                proof {
                    if all_digits(value@.subrange(1, value@.len() as int)) {
                        assert(dec_or_hex_val(value@) == Some(
                            -crate::lexer::dec_value(value@.subrange(1, value@.len() as int)),
                        ));
                    }
                }
                if v == 0x8000_0000u32 {
                    Some(i32::MIN)
                } else if v <= 0x7fff_ffffu32 {
                    Some(-(v as i32))
                } else {
                    None
                }
            },
            None => None,
        }
    } else {
        match parse_bounded(value, 0, false) {
            Some(v) => {
                proof {
                    assert(value@.subrange(0, value@.len() as int) =~= value@);
                }
                if v <= 0x7fff_ffffu32 {
                    Some(v as i32)
                } else {
                    None
                }
            },
            None => {
                proof {
                    if 0 < value@.len() {
                        assert(value@.subrange(0, value@.len() as int) =~= value@);
                    }
                }
                None
            },
        }
    }
}

/// The position just past the last `>` in `s`, or 0 when there is none.
pub open spec fn rfind_gt_end(s: Seq<char>) -> int
    decreases s.len(),
{
    if s.len() == 0 {
        0
    } else if s.last() == '>' {
        s.len() as int
    } else {
        rfind_gt_end(s.drop_last())
    }
}

/// The position of the next comma at angle-bracket depth zero, starting at
/// `i` with the given depth, or the length of `s` when there is none.
pub open spec fn next_top_comma(s: Seq<char>, i: int, depth: int) -> int
    decreases s.len() - i,
{
    if i < 0 || i >= s.len() {
        s.len() as int
    } else if s[i] == ',' && depth <= 0 {
        i
    } else if s[i] == '<' {
        next_top_comma(s, i + 1, depth + 1)
    } else if s[i] == '>' {
        next_top_comma(s, i + 1, depth - 1)
    } else {
        next_top_comma(s, i + 1, depth)
    }
}

pub proof fn lemma_next_top_comma_bounds(s: Seq<char>, i: int, depth: int)
    requires
        0 <= i <= s.len(),
    ensures
        i <= next_top_comma(s, i, depth) <= s.len(),
    decreases s.len() - i,
{
    if i < s.len() && !(s[i] == ',' && depth <= 0) {
        if s[i] == '<' {
            lemma_next_top_comma_bounds(s, i + 1, depth + 1);
        } else if s[i] == '>' {
            lemma_next_top_comma_bounds(s, i + 1, depth - 1);
        } else {
            lemma_next_top_comma_bounds(s, i + 1, depth);
        }
    }
}

pub proof fn lemma_rfind_gt_end_bounds(s: Seq<char>)
    ensures
        0 <= rfind_gt_end(s) <= s.len(),
    decreases s.len(),
{
    if s.len() > 0 && s.last() != '>' {
        lemma_rfind_gt_end_bounds(s.drop_last());
    }
}

/// Trailing nullable markers removed.
pub open spec fn strip_question(s: Seq<char>) -> Seq<char>
    decreases s.len(),
{
    if s.len() > 0 && s.last() == '?' {
        strip_question(s.drop_last())
    } else {
        s
    }
}

/// One argument of a generic signature, reduced to its bare name: trimmed,
/// with trailing nullable markers removed.
pub open spec fn bare_arg(s: Seq<char>) -> Seq<char> {
    strip_question(crate::lower::trim_of(s))
}

/// The bare names a type signature depends on: for a signature with a
/// generic part (the first `<` to the last `>`), the names of each of its
/// depth-zero comma-separated arguments, flattened recursively; for anything
/// else, the signature itself, trimmed and stripped of its nullable markers.
pub open spec fn type_arg_names(s: Seq<char>) -> Seq<Seq<char>>
    decreases s.len(), 0int,
    when s.len() >= 0
    via type_arg_names_decreases
{
    let a = find_from(s, 0, '<');
    let b = rfind_gt_end(s);
    if a < s.len() && a + 1 < b {
        flat_arg_names(s.subrange(a + 1, b - 1))
    } else {
        seq![bare_arg(s)]
    }
}

/// The flattened names of a depth-zero comma-separated argument list.
pub open spec fn flat_arg_names(s: Seq<char>) -> Seq<Seq<char>>
    decreases s.len(), 1int,
    when s.len() >= 0
    via flat_arg_names_decreases
{
    let c = next_top_comma(s, 0, 0);
    if c >= s.len() {
        type_arg_names(s)
    } else {
        type_arg_names(s.subrange(0, c)) + flat_arg_names(s.subrange(c + 1, s.len() as int))
    }
}

#[via_fn]
proof fn type_arg_names_decreases(s: Seq<char>) {
    crate::lexer::lemma_find_from_bounds(s, 0, '<');
    lemma_rfind_gt_end_bounds(s);
}

#[via_fn]
proof fn flat_arg_names_decreases(s: Seq<char>) {
    lemma_next_top_comma_bounds(s, 0, 0);
}

/// Strips trailing nullable markers from a trimmed argument.
fn bare_arg_exec(s: &str) -> (r: String)
    ensures
        r@ == bare_arg(s@),
{
    let t = crate::lower::trim_string(s);
    let mut e = t.as_str().unicode_len();
    proof {
        assert(t@.subrange(0, t@.len() as int) =~= t@);
    }
    while e > 0 && t.as_str().get_char(e - 1) == '?'
        invariant
            0 <= e <= t@.len(),
            strip_question(t@) == strip_question(t@.subrange(0, e as int)),
        decreases e,
    {
        proof {
            assert(t@.subrange(0, e as int).drop_last() =~= t@.subrange(0, e - 1));
        }
        e -= 1;
    }
    proof {
        if e > 0 {
            assert(strip_question(t@.subrange(0, e as int)) == t@.subrange(0, e as int));
        } else {
            assert(t@.subrange(0, 0) =~= Seq::<char>::empty());
        }
    }
    t.as_str().substring_char(0, e).to_owned()
}

/// Finds the next comma at angle-bracket depth zero.
fn next_top_comma_exec(s: &str) -> (r: usize)
    ensures
        r == next_top_comma(s@, 0, 0),
        r <= s@.len(),
{
    let n = s.unicode_len();
    let mut k: usize = 0;
    let mut opens: usize = 0;
    let mut closes: usize = 0;
    loop
        invariant
            0 <= k <= n,
            n == s@.len(),
            opens <= k,
            closes <= k,
            next_top_comma(s@, 0, 0) == next_top_comma(s@, k as int, opens - closes),
        decreases n - k,
    {
        if k >= n {
            return k;
        }
        let c = s.get_char(k);
        if c == ',' && opens <= closes {
            return k;
        }
        if c == '<' {
            opens += 1;
        } else if c == '>' {
            closes += 1;
        }
        k += 1;
    }
}

/// The type names a signature depends on: one level of generic arguments,
/// nested arguments flattened down to bare names, or the bare signature
/// itself.
#[verifier::rlimit(100)]
pub fn get_types_from_generic(value: &str) -> (r: Vec<String>)
    ensures
        crate::hl::strings_view(r@) == type_arg_names(value@),
    decreases value@.len(), 0int,
{
    let n = value.unicode_len();
    let a = crate::lexer::find_char_from_exec(value, 0, '<');
    let mut b: usize = n;
    proof {
        assert(value@.subrange(0, n as int) =~= value@);
    }
    while b > 0 && value.get_char(b - 1) != '>'
        invariant
            0 <= b <= n,
            n == value@.len(),
            rfind_gt_end(value@) == rfind_gt_end(value@.subrange(0, b as int)),
        decreases b,
    {
        proof {
            assert(value@.subrange(0, b as int).drop_last() =~= value@.subrange(0, b - 1));
        }
        b -= 1;
    }
    proof {
        if b > 0 {
            assert(rfind_gt_end(value@.subrange(0, b as int)) == b as int);
        } else {
            assert(value@.subrange(0, 0) =~= Seq::<char>::empty());
        }
        assert(value@.subrange(0, n as int) =~= value@);
    }
    if a < n && a + 1 < b {
        let content = value.substring_char(a + 1, b - 1);
        flat_args_exec(content)
    } else {
        let mut out: Vec<String> = Vec::new();
        out.push(bare_arg_exec(value));
        proof {
            assert(crate::hl::strings_view(out@) =~= seq![bare_arg(value@)]);
        }
        out
    }
}

/// Flattens a depth-zero comma-separated argument list to bare names.
fn flat_args_exec(s: &str) -> (r: Vec<String>)
    ensures
        crate::hl::strings_view(r@) == flat_arg_names(s@),
    decreases s@.len(), 1int,
{
    let n = s.unicode_len();
    let c = next_top_comma_exec(s);
    if c >= n {
        get_types_from_generic(s)
    } else {
        let head = s.substring_char(0, c);
        let mut out = get_types_from_generic(head);
        let rest = s.substring_char(c + 1, n);
        let mut tail = flat_args_exec(rest);
        proof {
            assert(crate::hl::strings_view(out@) + crate::hl::strings_view(tail@)
                =~= flat_arg_names(s@));
        }
        out.append(&mut tail);
        out
    }
}

/// Finds the value of the first semantic-model annotation with the given
/// key.
pub fn find_meta_hl<'a>(metas: &'a Vec<crate::hl::Meta>, key: &str) -> (r: Option<&'a String>)
    ensures
        match r {
            Some(v) => crate::resolve::meta_value(crate::hl::hl_metas_view(metas@), key@) == Some(
                v@,
            ),
            None => crate::resolve::meta_value(crate::hl::hl_metas_view(metas@), key@) is None,
        },
{
    let ghost msv = crate::hl::hl_metas_view(metas@);
    proof {
        assert(msv.subrange(0, msv.len() as int) =~= msv);
    }
    let mut k: usize = 0;
    while k < metas.len()
        invariant
            0 <= k <= metas@.len(),
            msv == crate::hl::hl_metas_view(metas@),
            msv.len() == metas@.len(),
            forall|t: int| 0 <= t < metas@.len() ==> #[trigger] msv[t] == crate::hl::hl_meta_view(
                metas@[t],
            ),
            crate::resolve::meta_value(msv, key@) == crate::resolve::meta_value(
                msv.subrange(k as int, msv.len() as int),
                key@,
            ),
        decreases metas@.len() - k,
    {
        proof {
            assert(msv.subrange(k as int, msv.len() as int).subrange(
                1,
                msv.len() - k as int,
            ) =~= msv.subrange(k + 1, msv.len() as int));
        }
        if crate::text::str_eq(metas[k].key.as_str(), key) {
            return Some(&metas[k].value);
        }
        k += 1;
    }
    proof {
        assert(msv.subrange(k as int, msv.len() as int)
            =~= Seq::<crate::ast::MetaDeclV>::empty());
    }
    None
}

/// Turns a model constructor into a standalone payload type named by its
/// `client_name` annotation; a constructor without one is rejected.
pub fn convert_constructor_to_type(constructor: crate::hl::ModelConstructor) -> (r: Result<
    crate::hl::Type,
    SyntaxError,
>)
    ensures
        match r {
            Ok(t) => {
                &&& crate::resolve::meta_value(
                    crate::hl::hl_metas_view(constructor.meta@),
                    "client_name"@,
                ) == Some(t.name@)
                &&& crate::hl::hl_type_view(t) == (crate::hl::TypeHlV {
                    name: t.name@,
                    fields: crate::hl::hl_fields_view(constructor.fields@),
                    meta: crate::hl::hl_metas_view(constructor.meta@),
                    comments: crate::hl::strings_view(constructor.comments@),
                })
            },
            Err(_) => crate::resolve::meta_value(
                crate::hl::hl_metas_view(constructor.meta@),
                "client_name"@,
            ) is None,
        },
{
    let name = match find_meta_hl(&constructor.meta, "client_name") {
        Some(v) => v.clone(),
        None => {
            return Err(SyntaxError::new(String::from_str(
                "constructor lacks a client_name annotation",
            )));
        },
    };
    Ok(crate::hl::Type {
        name,
        fields: constructor.fields,
        meta: constructor.meta,
        comments: constructor.comments,
    })
}

/// The two identity words written after the first occurrence of `prefix` at
/// or beyond `from`: the text between the prefix and the next `,`, and
/// between that `,` and the next `)`, both read as decimal-or-hex words.
/// `None` when the prefix does not occur or the words do not parse.
pub open spec fn spec_id_after(s: Seq<char>, from: int, prefix: Seq<char>) -> Option<
    (i32, i32, int),
> {
    let p = find_sub(s, from, prefix);
    if p >= s.len() {
        None
    } else {
        let h0 = p + prefix.len();
        let c = find_from(s, h0, ',');
        if c >= s.len() {
            None
        } else {
            let e = find_from(s, c + 1, ')');
            if e >= s.len() {
                None
            } else {
                match (spec_parse_dec_or_hex(s.subrange(h0, c)), spec_parse_dec_or_hex(
                    s.subrange(c + 1, e),
                )) {
                    (Some(h), Some(l)) => Some((h, l, e + 1)),
                    _ => None,
                }
            }
        }
    }
}

/// Reads the two 32-bit identity words written after the first occurrence
/// of `prefix` at or beyond `from`.
pub fn extract_id_after(s: &str, from: usize, prefix: &str) -> (r: Option<(i32, i32, usize)>)
    requires
        from <= s@.len(),
    ensures
        match r {
            Some((h, l, next)) => spec_id_after(s@, from as int, prefix@) == Some(
                (h, l, next as int),
            ) && from < next <= s@.len(),
            None => spec_id_after(s@, from as int, prefix@) is None,
        },
{
    let n = s.unicode_len();
    let p = find_sub_from(s, from, prefix);
    if p >= n {
        return None;
    }
    let h0 = p + prefix.unicode_len();
    proof {
        assert(h0 <= s@.len());
    }
    let c = crate::lexer::find_char_from_exec(s, h0, ',');
    if c >= n {
        return None;
    }
    let e = crate::lexer::find_char_from_exec(s, c + 1, ')');
    if e >= n {
        return None;
    }
    let high_text = s.substring_char(h0, c);
    let low_text = s.substring_char(c + 1, e);
    let h = match parse_id_from_dec_or_hex(high_text) {
        Some(v) => v,
        None => {
            return None;
        },
    };
    let l = match parse_id_from_dec_or_hex(low_text) {
        Some(v) => v,
        None => {
            return None;
        },
    };
    Some((h, l, e + 1))
}

/// The 64-bit model identity declared by a legacy model-base source: the two
/// words after `this.modelId = Long.getLong(`, packed.
pub fn extract_model_id(content: &str) -> (r: Option<i64>)
    ensures
        match r {
            Some(id) => match spec_id_after(content@, 0, "this.modelId = Long.getLong("@) {
                Some((h, l, _)) => id == crate::ids::pack_id(h, l),
                None => false,
            },
            None => spec_id_after(content@, 0, "this.modelId = Long.getLong("@) is None,
        },
{
    match extract_id_after(content, 0, "this.modelId = Long.getLong(") {
        Some((h, l, _)) => Some(crate::ids::convert_to_id(h, l)),
        None => None,
    }
}

/// The position just past the last `)` in `s[from..to)`, or `from` when
/// there is none.
pub open spec fn last_paren_end(s: Seq<char>, from: int, to: int) -> int
    decreases to - from,
{
    if to <= from || to > s.len() || to < 1 {
        from
    } else if s[to - 1] == ')' {
        to
    } else {
        last_paren_end(s, from, to - 1)
    }
}

/// Finds the position just past the last `)` in `s[from..to)`.
fn last_paren_end_exec(s: &str, from: usize, to: usize) -> (r: usize)
    requires
        from <= to <= s@.len(),
    ensures
        r == last_paren_end(s@, from as int, to as int),
        from <= r <= to,
{
    let mut e: usize = to;
    while e > from && s.get_char(e - 1) != ')'
        invariant
            from <= e <= to <= s@.len(),
            last_paren_end(s@, from as int, to as int) == last_paren_end(
                s@,
                from as int,
                e as int,
            ),
        decreases e,
    {
        e -= 1;
    }
    e
}

/// The field/codec pairs written by a legacy codec source from position `i`
/// on. A pair is one occurrence of `this.codec_`, a non-empty field name,
/// the literal ` = param1.getCodec(`, and a codec expression that runs to
/// the last `)` before the end of the line; text that breaks the template is
/// skipped.
pub open spec fn spec_extract_fields(s: Seq<char>, i: int) -> Seq<(Seq<char>, Seq<char>)>
    decreases s.len() - i,
    when 0 <= i
    via spec_extract_fields_decreases
{
    let p = find_sub(s, i, "this.codec_"@);
    if p >= s.len() {
        Seq::empty()
    } else {
        let w = ident_run_end(s, p + "this.codec_"@.len());
        if w > p + "this.codec_"@.len() && spec_match_at(s, w, " = param1.getCodec("@) {
            let c0 = w + " = param1.getCodec("@.len();
            let e = find_from(s, c0, '\n');
            let q = last_paren_end(s, c0, e);
            if q > c0 {
                seq![(s.subrange(p + "this.codec_"@.len(), w), s.subrange(c0, q - 1))]
                    + spec_extract_fields(s, crate::grammar::advance(q, i + 1, s.len() as int))
            } else {
                spec_extract_fields(s, crate::grammar::advance(p + 1, i + 1, s.len() as int))
            }
        } else {
            spec_extract_fields(s, crate::grammar::advance(p + 1, i + 1, s.len() as int))
        }
    }
}

#[via_fn]
proof fn spec_extract_fields_decreases(s: Seq<char>, i: int) {
    if 0 <= i <= s.len() {
        lemma_find_sub_bounds(s, i, "this.codec_"@);
    }
}

/// The mathematical value of a list of name/text pairs.
pub open spec fn pairs_view(v: Seq<(String, String)>) -> Seq<(Seq<char>, Seq<char>)> {
    v.map_values(|p: (String, String)| (p.0@, p.1@))
}

/// Extracts every field-name/codec pair a legacy codec source declares.
pub fn extract_fields(content: &str) -> (r: Vec<(String, String)>)
    ensures
        pairs_view(r@) == spec_extract_fields(content@, 0),
{
    let n = content.unicode_len();
    let mut out: Vec<(String, String)> = Vec::new();
    let mut i: usize = 0;
    proof {
        reveal_strlit("this.codec_");
        reveal_strlit(" = param1.getCodec(");
        assert(pairs_view(out@) + spec_extract_fields(content@, 0) =~= spec_extract_fields(
            content@,
            0,
        ));
    }
    loop
        invariant
            0 <= i <= n,
            n == content@.len(),
            "this.codec_"@.len() == 11,
            " = param1.getCodec("@.len() == 19,
            pairs_view(out@) + spec_extract_fields(content@, i as int) =~= spec_extract_fields(
                content@,
                0,
            ),
        decreases n - i,
    {
        let ghost out0 = pairs_view(out@);
        let p = find_sub_from(content, i, "this.codec_");
        if p >= n {
            proof {
                assert(spec_extract_fields(content@, i as int) =~= Seq::<(Seq<char>, Seq<
                    char,
                >)>::empty());
                assert(pairs_view(out@) + Seq::<(Seq<char>, Seq<char>)>::empty() =~= pairs_view(
                    out@,
                ));
            }
            return out;
        }
        let w = ident_run_end_at(content, p + 11);
        let matched = w > p + 11 && crate::lexer::match_at_exec(content, w, " = param1.getCodec(");
        if matched {
            let c0 = w + 19;
            let e = crate::lexer::find_char_from_exec(content, c0, '\n');
            let q = last_paren_end_exec(content, c0, e);
            if q > c0 {
                let name = content.substring_char(p + 11, w).to_owned();
                let codec = content.substring_char(c0, q - 1).to_owned();
                out.push((name, codec));
                proof {
                    assert(pairs_view(out@) =~= out0.push(
                        (content@.subrange(p + 11, w as int), content@.subrange(
                            c0 as int,
                            q - 1,
                        )),
                    ));
                    assert(pairs_view(out@) + spec_extract_fields(content@, q as int)
                        =~= pairs_view(out@.drop_last()) + spec_extract_fields(
                        content@,
                        i as int,
                    ));
                }
                i = q;
            } else {
                i = p + 1;
            }
        } else {
            i = p + 1;
        }
    }
}

/// The end of the run of identifier characters starting at `from`, reading
/// an executable string.
fn ident_run_end_at(s: &str, from: usize) -> (r: usize)
    requires
        from <= s@.len(),
    ensures
        r == ident_run_end(s@, from as int),
        from <= r <= s@.len(),
{
    let n = s.unicode_len();
    let mut j: usize = from;
    loop
        invariant
            from <= j <= n,
            n == s@.len(),
            ident_run_end(s@, from as int) == ident_run_end(s@, j as int),
        decreases n - j,
    {
        if j == n {
            return j;
        }
        if !crate::text::ident_char(s.get_char(j)) {
            return j;
        }
        j += 1;
    }
}

/// The start of the maximal run of identifier characters that ends at
/// `end`.
pub open spec fn word_start(s: Seq<char>, end: int) -> int
    decreases end,
{
    if end <= 0 || end > s.len() || !crate::text::is_ident_char(s[end - 1]) {
        end
    } else {
        word_start(s, end - 1)
    }
}

fn word_start_exec(s: &str, end: usize) -> (r: usize)
    requires
        end <= s@.len(),
    ensures
        r == word_start(s@, end as int),
        r <= end,
{
    let mut j: usize = end;
    while j > 0 && crate::text::ident_char(s.get_char(j - 1))
        invariant
            0 <= j <= end <= s@.len(),
            word_start(s@, end as int) == word_start(s@, j as int),
        decreases j,
    {
        j -= 1;
    }
    j
}

/// The last `.`-prefixed word terminated by `;` strictly inside
/// `s[from..t)`: its name and the position just past its `;`.
pub open spec fn last_dotted_word(s: Seq<char>, from: int, t: int) -> Option<(Seq<char>, int)>
    decreases t,
    when from >= 0
    via last_dotted_word_decreases
{
    if t <= from || t > s.len() {
        None
    } else if s[t - 1] == ';' && word_start(s, t - 1) < t - 1 && word_start(s, t - 1) - 1 >= from
        && s[word_start(s, t - 1) - 1] == '.' {
        Some((s.subrange(word_start(s, t - 1), t - 1), t))
    } else {
        last_dotted_word(s, from, t - 1)
    }
}

#[via_fn]
proof fn last_dotted_word_decreases(s: Seq<char>, from: int, t: int) {
}

fn last_dotted_word_exec(s: &str, from: usize, to: usize) -> (r: Option<(String, usize)>)
    requires
        from <= to <= s@.len(),
    ensures
        match r {
            Some((name, q)) => last_dotted_word(s@, from as int, to as int) == Some(
                (name@, q as int),
            ) && from < q <= to,
            None => last_dotted_word(s@, from as int, to as int) is None,
        },
{
    let mut t: usize = to;
    loop
        invariant
            from <= t <= to <= s@.len(),
            last_dotted_word(s@, from as int, to as int) == last_dotted_word(
                s@,
                from as int,
                t as int,
            ),
        decreases t,
    {
        if t <= from {
            return None;
        }
        if s.get_char(t - 1) == ';' {
            let ws = word_start_exec(s, t - 1);
            if ws < t - 1 && ws >= from + 1 && s.get_char(ws - 1) == '.' {
                let name = s.substring_char(ws, t - 1).to_owned();
                return Some((name, t));
            }
        }
        t -= 1;
    }
}

/// The variant-name/value pairs a legacy enum codec source declares from
/// position `i` on, or nothing when a value overflows. A pair is one
/// occurrence of `case `, a non-empty run of decimal digits, a `:`, and —
/// before the end of that line — a final `.`-prefixed word terminated by
/// `;`; a matching case whose value does not fit a 64-bit identity fails
/// the whole extraction.
pub open spec fn spec_extract_variants(s: Seq<char>, i: int) -> Option<Seq<(Seq<char>, int)>>
    decreases s.len() - i,
    when 0 <= i
    via spec_extract_variants_decreases
{
    let p = find_sub(s, i, "case "@);
    if p >= s.len() {
        Some(Seq::empty())
    } else {
        let d = crate::lexer::digit_run_end(s, p + "case "@.len());
        if d > p + "case "@.len() && d < s.len() && s[d] == ':' {
            let e = find_from(s, d, '\n');
            match last_dotted_word(s, d + 1, e) {
                Some((name, q)) => {
                    if crate::lexer::dec_value(s.subrange(p + "case "@.len(), d)) <= i64::MAX
                        as int {
                        match spec_extract_variants(
                            s,
                            crate::grammar::advance(q, i + 1, s.len() as int),
                        ) {
                            Some(rest) => Some(
                                seq![
                                    (name, crate::lexer::dec_value(
                                        s.subrange(p + "case "@.len(), d),
                                    )),
                                ] + rest,
                            ),
                            None => None,
                        }
                    } else {
                        None
                    }
                },
                None => spec_extract_variants(
                    s,
                    crate::grammar::advance(p + 1, i + 1, s.len() as int),
                ),
            }
        } else {
            spec_extract_variants(s, crate::grammar::advance(p + 1, i + 1, s.len() as int))
        }
    }
}

#[via_fn]
proof fn spec_extract_variants_decreases(s: Seq<char>, i: int) {
    if 0 <= i <= s.len() {
        lemma_find_sub_bounds(s, i, "case "@);
    }
}

/// The mathematical value of a list of name/value pairs.
pub open spec fn variants_pairs_view(v: Seq<(String, i64)>) -> Seq<(Seq<char>, int)> {
    v.map_values(|p: (String, i64)| (p.0@, p.1 as int))
}

/// Extracts every variant-name/value pair a legacy enum codec source
/// declares; fails on a matching case whose value does not fit a 64-bit
/// identity.
pub fn extract_variants(content: &str) -> (r: Result<Vec<(String, i64)>, SyntaxError>)
    ensures
        match r {
            Ok(out) => spec_extract_variants(content@, 0) == Some(variants_pairs_view(out@)),
            Err(_) => spec_extract_variants(content@, 0) is None,
        },
{
    let n = content.unicode_len();
    let mut out: Vec<(String, i64)> = Vec::new();
    let mut i: usize = 0;
    proof {
        reveal_strlit("case ");
        assert(variants_pairs_view(out@) + spec_extract_variants(content@, 0)->0
            =~= spec_extract_variants(content@, 0)->0);
    }
    loop
        invariant
            0 <= i <= n,
            n == content@.len(),
            "case "@.len() == 5,
            spec_extract_variants(content@, 0) is Some <==> spec_extract_variants(
                content@,
                i as int,
            ) is Some,
            spec_extract_variants(content@, i as int) is Some ==> variants_pairs_view(out@)
                + spec_extract_variants(content@, i as int)->0 =~= spec_extract_variants(
                content@,
                0,
            )->0,
        decreases n - i,
    {
        let ghost out0 = variants_pairs_view(out@);
        let p = find_sub_from(content, i, "case ");
        if p >= n {
            proof {
                assert(spec_extract_variants(content@, i as int) == Some(Seq::<(Seq<char>,
                    int)>::empty()));
                assert(variants_pairs_view(out@) + Seq::<(Seq<char>, int)>::empty()
                    =~= variants_pairs_view(out@));
            }
            return Ok(out);
        }
        let d = crate::lexer::digit_run_end_exec(content, p + 5);
        let shape_ok = d > p + 5 && d < n && content.get_char(d) == ':';
        if shape_ok {
            proof {
                crate::lexer::lemma_digit_run_bounds(content@, p + 5);
            }
            let e = crate::lexer::find_char_from_exec(content, d, '\n');
            match last_dotted_word_exec(content, d + 1, e) {
                Some((name, q)) => {
                    match crate::lexer::parse_digit_run(content, p + 5, d) {
                        Some(value) => {
                            out.push((name, value));
                            proof {
                                assert(variants_pairs_view(out@) =~= out0.push(
                                    (out@.last().0@, out@.last().1 as int),
                                ));
                            }
                            i = q;
                        },
                        None => {
                            return Err(SyntaxError::new(String::from_str(
                                "a case value does not fit a 64-bit identity",
                            )));
                        },
                    }
                },
                None => {
                    i = p + 1;
                },
            }
        } else {
            i = p + 1;
        }
    }
}

/// The signature spelling of a legacy wire-type name: the legacy scalar
/// names map onto the schema language's primitives, and two renamed host
/// types map onto their current names; anything else stands as written.
pub open spec fn rename_legacy(name: Seq<char>) -> Seq<char> {
    if name == "Boolean"@ {
        "bool"@
    } else if name == "Byte"@ {
        "i8"@
    } else if name == "Short"@ {
        "i16"@
    } else if name == "Int"@ || name == "int"@ {
        "i32"@
    } else if name == "Long"@ {
        "i64"@
    } else if name == "Float"@ {
        "f32"@
    } else if name == "Number"@ || name == "Double"@ {
        "f64"@
    } else if name == "Tanks3DSResource"@ {
        "Object3DResource"@
    } else if name == "Date"@ {
        "Instant"@
    } else {
        name
    }
}

/// The type signature a codec descriptor denotes, and the position just past
/// the descriptor: `TypeCodecInfo` and `EnumCodecInfo` yield their renamed
/// name, `CollectionCodecInfo` a `List`, `MapCodecInfo` a `Map`, each with
/// `?` exactly when its nullable flag is `true`.
pub open spec fn spec_codec_type(s: Seq<char>, i: int) -> Option<(Seq<char>, int)>
    decreases s.len() - i, 1int,
    when 0 <= i
    via spec_codec_type_decreases
{
    if i >= s.len() {
        None
    } else if spec_match_at(s, i, "TypeCodecInfo("@) || spec_match_at(s, i, "EnumCodecInfo("@) {
        let c = find_from(s, i + "TypeCodecInfo("@.len(), ',');
        if c >= s.len() {
            None
        } else {
            let name = rename_legacy(s.subrange(i + "TypeCodecInfo("@.len(), c));
            if spec_match_at(s, c, ",true)"@) {
                Some((name + "?"@, c + ",true)"@.len()))
            } else if spec_match_at(s, c, ",false)"@) {
                Some((name, c + ",false)"@.len()))
            } else {
                None
            }
        }
    } else if spec_match_at(s, i, "CollectionCodecInfo("@) {
        match spec_codec_type(s, crate::grammar::advance(
            i + "CollectionCodecInfo("@.len(),
            i + 1,
            s.len() as int,
        )) {
            None => None,
            Some((inner, j)) => {
                if spec_match_at(s, j, ",true,1)"@) {
                    Some(("List<"@ + inner + ">?"@, j + ",true,1)"@.len()))
                } else if spec_match_at(s, j, ",false,1)"@) {
                    Some(("List<"@ + inner + ">"@, j + ",false,1)"@.len()))
                } else {
                    None
                }
            },
        }
    } else if spec_match_at(s, i, "MapCodecInfo("@) {
        match spec_codec_type(s, crate::grammar::advance(
            i + "MapCodecInfo("@.len(),
            i + 1,
            s.len() as int,
        )) {
            None => None,
            Some((key, j)) => {
                if j < s.len() && s[j] == ',' {
                    match spec_codec_type(s, crate::grammar::advance(j + 1, i + 1, s.len() as int)) {
                        None => None,
                        Some((value, j2)) => {
                            if spec_match_at(s, j2, ",true)"@) {
                                Some(
                                    ("Map<"@ + key + ", "@ + value + ">?"@, j2 + ",true)"@.len()),
                                )
                            } else if spec_match_at(s, j2, ",false)"@) {
                                Some(("Map<"@ + key + ", "@ + value + ">"@, j2 + ",false)"@.len()))
                            } else {
                                None
                            }
                        },
                    }
                } else {
                    None
                }
            },
        }
    } else {
        None
    }
}

#[via_fn]
proof fn spec_codec_type_decreases(s: Seq<char>, i: int) {
}

/// The signature a whole codec descriptor denotes: the descriptor must span
/// the full text, and outside constructor position a result registered as a
/// legacy constructor class renders as that model's `Constructor` reference.
pub open spec fn spec_codec_to_type(
    s: Seq<char>,
    is_constructor: bool,
    model_types: Map<Seq<char>, String>,
) -> Option<Seq<char>> {
    match spec_codec_type(s, 0) {
        Some((rendered, j)) => if j == s.len() {
            if !is_constructor && model_types.contains_key(rendered) {
                Some(model_types[rendered]@ + ".Constructor"@)
            } else {
                Some(rendered)
            }
        } else {
            None
        },
        None => None,
    }
}

fn rename_legacy_exec(name: &str) -> (r: String)
    ensures
        r@ == rename_legacy(name@),
{
    if crate::text::str_eq(name, "Boolean") {
        String::from_str("bool")
    } else if crate::text::str_eq(name, "Byte") {
        String::from_str("i8")
    } else if crate::text::str_eq(name, "Short") {
        String::from_str("i16")
    } else if crate::text::str_eq(name, "Int") || crate::text::str_eq(name, "int") {
        String::from_str("i32")
    } else if crate::text::str_eq(name, "Long") {
        String::from_str("i64")
    } else if crate::text::str_eq(name, "Float") {
        String::from_str("f32")
    } else if crate::text::str_eq(name, "Number") || crate::text::str_eq(name, "Double") {
        String::from_str("f64")
    } else if crate::text::str_eq(name, "Tanks3DSResource") {
        String::from_str("Object3DResource")
    } else if crate::text::str_eq(name, "Date") {
        String::from_str("Instant")
    } else {
        name.to_owned()
    }
}

/// Parses one codec descriptor and renders the signature it denotes.
fn codec_type_at(s: &str, i: usize) -> (r: Option<(String, usize)>)
    requires
        i <= s@.len(),
    ensures
        match r {
            Some((rendered, j)) => spec_codec_type(s@, i as int) == Some((rendered@, j as int))
                && i < j <= s@.len(),
            None => spec_codec_type(s@, i as int) is None,
        },
    decreases s@.len() - i, 1int,
{
    let n = s.unicode_len();
    if i >= n {
        return None;
    }
    proof {
        reveal_strlit("TypeCodecInfo(");
        reveal_strlit("EnumCodecInfo(");
        reveal_strlit("CollectionCodecInfo(");
        reveal_strlit("MapCodecInfo(");
        reveal_strlit(",true)");
        reveal_strlit(",false)");
        reveal_strlit(",true,1)");
        reveal_strlit(",false,1)");
    }
    if crate::lexer::match_at_exec(s, i, "TypeCodecInfo(") || crate::lexer::match_at_exec(
        s,
        i,
        "EnumCodecInfo(",
    ) {
        let c = crate::lexer::find_char_from_exec(s, i + 14, ',');
        if c >= n {
            return None;
        }
        let name = rename_legacy_exec(s.substring_char(i + 14, c));
        if crate::lexer::match_at_exec(s, c, ",true)") {
            let mut out = name;
            out.append("?");
            Some((out, c + 6))
        } else if crate::lexer::match_at_exec(s, c, ",false)") {
            Some((name, c + 7))
        } else {
            None
        }
    } else if crate::lexer::match_at_exec(s, i, "CollectionCodecInfo(") {
        match codec_type_at(s, i + 20) {
            None => None,
            Some((inner, j)) => {
                if crate::lexer::match_at_exec(s, j, ",true,1)") {
                    let mut out = String::from_str("List<");
                    out.append(inner.as_str());
                    out.append(">?");
                    Some((out, j + 8))
                } else if crate::lexer::match_at_exec(s, j, ",false,1)") {
                    let mut out = String::from_str("List<");
                    out.append(inner.as_str());
                    out.append(">");
                    Some((out, j + 9))
                } else {
                    None
                }
            },
        }
    } else if crate::lexer::match_at_exec(s, i, "MapCodecInfo(") {
        match codec_type_at(s, i + 13) {
            None => None,
            Some((key, j)) => {
                if j < n && s.get_char(j) == ',' {
                    match codec_type_at(s, j + 1) {
                        None => None,
                        Some((value, j2)) => {
                            if crate::lexer::match_at_exec(s, j2, ",true)") {
                                let mut out = String::from_str("Map<");
                                out.append(key.as_str());
                                out.append(", ");
                                out.append(value.as_str());
                                out.append(">?");
                                Some((out, j2 + 6))
                            } else if crate::lexer::match_at_exec(s, j2, ",false)") {
                                let mut out = String::from_str("Map<");
                                out.append(key.as_str());
                                out.append(", ");
                                out.append(value.as_str());
                                out.append(">");
                                Some((out, j2 + 7))
                            } else {
                                None
                            }
                        },
                    }
                } else {
                    None
                }
            },
        }
    } else {
        None
    }
}

/// Renders the type signature a codec descriptor denotes, the inverse
/// direction of the descriptor contract. Outside constructor position a
/// result that names a registered legacy constructor class becomes that
/// model's `Constructor` reference. A text that is not one whole descriptor
/// is rejected.
pub fn codec_to_type(
    codec: &str,
    is_constructor: bool,
    model_types: &vstd::hash_map::StringHashMap<String>,
) -> (r: Result<String, SyntaxError>)
    ensures
        match r {
            Ok(rendered) => spec_codec_to_type(codec@, is_constructor, model_types@) == Some(
                rendered@,
            ),
            Err(_) => spec_codec_to_type(codec@, is_constructor, model_types@) is None,
        },
{
    match codec_type_at(codec, 0) {
        Some((rendered, j)) => {
            if j < codec.unicode_len() {
                return Err(SyntaxError::new(String::from_str(
                    "text after the end of the codec descriptor",
                )));
            }
            if !is_constructor {
                if let Some(model) = model_types.get(rendered.as_str()) {
                    let mut out = model.clone();
                    out.append(".Constructor");
                    return Ok(out);
                }
            }
            Ok(rendered)
        },
        None => Err(SyntaxError::new(String::from_str("not a codec descriptor"))),
    }
}

/// The method-identity triples a legacy model source declares from position
/// `i` on. A triple is one occurrence of `this._`, a non-empty method name
/// whose word run ends in `Id`, the literal ` = Long.getLong(`, and the two
/// identity words up to the closing parenthesis; text that breaks the
/// template is skipped.
pub open spec fn spec_extract_method_ids(s: Seq<char>, i: int) -> Seq<(Seq<char>, i32, i32)>
    decreases s.len() - i,
    when 0 <= i
    via spec_extract_method_ids_decreases
{
    let p = find_sub(s, i, "this._"@);
    if p >= s.len() {
        Seq::empty()
    } else {
        let w = ident_run_end(s, p + "this._"@.len());
        if w > p + "this._"@.len() + 2 && s[w - 2] == 'I' && s[w - 1] == 'd' && spec_match_at(
            s,
            w,
            " = Long.getLong("@,
        ) {
            let h0 = w + " = Long.getLong("@.len();
            let c = find_from(s, h0, ',');
            if c >= s.len() {
                spec_extract_method_ids(s, crate::grammar::advance(p + 1, i + 1, s.len() as int))
            } else {
                let e = find_from(s, c + 1, ')');
                if e >= s.len() {
                    spec_extract_method_ids(
                        s,
                        crate::grammar::advance(p + 1, i + 1, s.len() as int),
                    )
                } else {
                    match (spec_parse_dec_or_hex(s.subrange(h0, c)), spec_parse_dec_or_hex(
                        s.subrange(c + 1, e),
                    )) {
                        (Some(h), Some(l)) => seq![
                            (s.subrange(p + "this._"@.len(), w - 2), h, l),
                        ] + spec_extract_method_ids(
                            s,
                            crate::grammar::advance(e + 1, i + 1, s.len() as int),
                        ),
                        _ => spec_extract_method_ids(
                            s,
                            crate::grammar::advance(p + 1, i + 1, s.len() as int),
                        ),
                    }
                }
            }
        } else {
            spec_extract_method_ids(s, crate::grammar::advance(p + 1, i + 1, s.len() as int))
        }
    }
}

#[via_fn]
proof fn spec_extract_method_ids_decreases(s: Seq<char>, i: int) {
    if 0 <= i <= s.len() {
        lemma_find_sub_bounds(s, i, "this._"@);
    }
}

/// The mathematical value of a list of method-identity triples.
pub open spec fn method_ids_view(v: Seq<(String, i32, i32)>) -> Seq<(Seq<char>, i32, i32)> {
    v.map_values(|p: (String, i32, i32)| (p.0@, p.1, p.2))
}

/// Extracts every method name with its two 32-bit identity words from a
/// legacy model source.
pub fn extract_method_ids(content: &str) -> (r: Vec<(String, i32, i32)>)
    ensures
        method_ids_view(r@) == spec_extract_method_ids(content@, 0),
{
    let n = content.unicode_len();
    let mut out: Vec<(String, i32, i32)> = Vec::new();
    let mut i: usize = 0;
    proof {
        reveal_strlit("this._");
        reveal_strlit(" = Long.getLong(");
        assert(method_ids_view(out@) + spec_extract_method_ids(content@, 0)
            =~= spec_extract_method_ids(content@, 0));
    }
    loop
        invariant
            0 <= i <= n,
            n == content@.len(),
            "this._"@.len() == 6,
            " = Long.getLong("@.len() == 16,
            method_ids_view(out@) + spec_extract_method_ids(content@, i as int)
                =~= spec_extract_method_ids(content@, 0),
        decreases n - i,
    {
        let ghost out0 = method_ids_view(out@);
        let p = find_sub_from(content, i, "this._");
        if p >= n {
            proof {
                assert(spec_extract_method_ids(content@, i as int) =~= Seq::<(Seq<char>, i32,
                    i32)>::empty());
                assert(method_ids_view(out@) + Seq::<(Seq<char>, i32, i32)>::empty()
                    =~= method_ids_view(out@));
            }
            return out;
        }
        proof {
            assert(crate::lexer::spec_match_at(content@, p as int, "this._"@));
            assert(p + 6 <= content@.len());
        }
        let w = ident_run_end_at(content, p + 6);
        let run = w - (p + 6);
        let shape_ok = run > 2 && content.get_char(w - 2) == 'I' && content.get_char(w - 1)
            == 'd' && crate::lexer::match_at_exec(content, w, " = Long.getLong(");
        if shape_ok {
            let h0 = w + 16;
            let c = crate::lexer::find_char_from_exec(content, h0, ',');
            if c >= n {
                i = p + 1;
            } else {
                let e = crate::lexer::find_char_from_exec(content, c + 1, ')');
                if e >= n {
                    i = p + 1;
                } else {
                    let high = parse_id_from_dec_or_hex(content.substring_char(h0, c));
                    let low = parse_id_from_dec_or_hex(content.substring_char(c + 1, e));
                    match (high, low) {
                        (Some(h), Some(l)) => {
                            let name = content.substring_char(p + 6, w - 2).to_owned();
                            out.push((name, h, l));
                            proof {
                                assert(method_ids_view(out@) =~= out0.push(
                                    (out@.last().0@, out@.last().1, out@.last().2),
                                ));
                            }
                            i = e + 1;
                        },
                        _ => {
                            i = p + 1;
                        },
                    }
                }
            }
        } else {
            i = p + 1;
        }
    }
}

/// The class header a legacy model source declares at or after `i`: the
/// first occurrence of `class ` followed by a non-empty class name,
/// ` extends ` and a base name, and ` implements ` and an interface name.
pub open spec fn spec_model_class(s: Seq<char>, i: int) -> Option<(Seq<char>, Seq<char>, Seq<char>)>
    decreases s.len() - i,
    when 0 <= i
    via spec_model_class_decreases
{
    let p = find_sub(s, i, "class "@);
    if p >= s.len() {
        None
    } else {
        let w1 = ident_run_end(s, p + "class "@.len());
        if w1 > p + "class "@.len() && spec_match_at(s, w1, " extends "@) {
            let b0 = w1 + " extends "@.len();
            let w2 = ident_run_end(s, b0);
            if w2 > b0 && spec_match_at(s, w2, " implements "@) {
                let f0 = w2 + " implements "@.len();
                let w3 = ident_run_end(s, f0);
                if w3 > f0 {
                    Some(
                        (
                            s.subrange(p + "class "@.len(), w1),
                            s.subrange(b0, w2),
                            s.subrange(f0, w3),
                        ),
                    )
                } else {
                    spec_model_class(s, crate::grammar::advance(p + 1, i + 1, s.len() as int))
                }
            } else {
                spec_model_class(s, crate::grammar::advance(p + 1, i + 1, s.len() as int))
            }
        } else {
            spec_model_class(s, crate::grammar::advance(p + 1, i + 1, s.len() as int))
        }
    }
}

#[via_fn]
proof fn spec_model_class_decreases(s: Seq<char>, i: int) {
    if 0 <= i <= s.len() {
        lemma_find_sub_bounds(s, i, "class "@);
    }
}

/// Extracts the class, base-class and interface names of the first class
/// header a legacy model source declares.
pub fn extract_model_class(content: &str) -> (r: Option<(String, String, String)>)
    ensures
        match r {
            Some((name, base, interface)) => spec_model_class(content@, 0) == Some(
                (name@, base@, interface@),
            ),
            None => spec_model_class(content@, 0) is None,
        },
{
    let n = content.unicode_len();
    let mut i: usize = 0;
    proof {
        reveal_strlit("class ");
        reveal_strlit(" extends ");
        reveal_strlit(" implements ");
    }
    loop
        invariant
            0 <= i <= n,
            n == content@.len(),
            "class "@.len() == 6,
            " extends "@.len() == 9,
            " implements "@.len() == 12,
            spec_model_class(content@, 0) == spec_model_class(content@, i as int),
        decreases n - i,
    {
        let p = find_sub_from(content, i, "class ");
        if p >= n {
            return None;
        }
        proof {
            assert(crate::lexer::spec_match_at(content@, p as int, "class "@));
            assert(p + 6 <= content@.len());
        }
        let w1 = ident_run_end_at(content, p + 6);
        if w1 > p + 6 && crate::lexer::match_at_exec(content, w1, " extends ") {
            let b0 = w1 + 9;
            let w2 = ident_run_end_at(content, b0);
            if w2 > b0 && crate::lexer::match_at_exec(content, w2, " implements ") {
                let f0 = w2 + 12;
                let w3 = ident_run_end_at(content, f0);
                if w3 > f0 {
                    let name = content.substring_char(p + 6, w1).to_owned();
                    let base = content.substring_char(b0, w2).to_owned();
                    let interface = content.substring_char(f0, w3).to_owned();
                    return Some((name, base, interface));
                }
            }
        }
        i = p + 1;
    }
}

/// The position just past the last `_` in `s[from..to)`, or `from` when
/// there is none.
pub open spec fn last_underscore_end(s: Seq<char>, from: int, to: int) -> int
    decreases to - from,
{
    if to <= from || to > s.len() || to < 1 {
        from
    } else if s[to - 1] == '_' {
        to
    } else {
        last_underscore_end(s, from, to - 1)
    }
}

/// Finds the position just past the last `_` in `s[from..to)`.
fn last_underscore_end_exec(s: &str, from: usize, to: usize) -> (r: usize)
    requires
        from <= to <= s@.len(),
    ensures
        r == last_underscore_end(s@, from as int, to as int),
        from <= r <= to,
{
    let mut e: usize = to;
    while e > from && s.get_char(e - 1) != '_'
        invariant
            from <= e <= to <= s@.len(),
            last_underscore_end(s@, from as int, to as int) == last_underscore_end(
                s@,
                from as int,
                e as int,
            ),
        decreases e,
    {
        e -= 1;
    }
    e
}

/// The literal between a method parameter's word run and its codec text:
/// the client methods read their codecs through `this._protocol`, the
/// server methods through `this.protocol`.
pub open spec fn param_codec_link(server: bool) -> Seq<char> {
    if server {
        " = this.protocol.getCodec("@
    } else {
        " = this._protocol.getCodec("@
    }
}

/// The method/parameter/codec triples a legacy model source declares from
/// position `i` on. A triple is one occurrence of `this._`, a word run that
/// splits at its last `_` into a non-empty method name and a non-empty
/// parameter name and ends in `Codec`, the protocol link for the given side,
/// and a codec expression that runs to the last `)` before the end of the
/// line; text that breaks the template is skipped.
pub open spec fn spec_extract_method_params(s: Seq<char>, i: int, server: bool) -> Seq<
    (Seq<char>, Seq<char>, Seq<char>),
>
    decreases s.len() - i,
    when 0 <= i
    via spec_extract_method_params_decreases
{
    let p = find_sub(s, i, "this._"@);
    if p >= s.len() {
        Seq::empty()
    } else {
        let w = ident_run_end(s, p + "this._"@.len());
        let u = last_underscore_end(s, p + "this._"@.len(), w);
        if w >= u + 5 + 1 && u > p + "this._"@.len() + 1 && s.subrange(w - 5, w) == "Codec"@
            && spec_match_at(s, w, param_codec_link(server)) {
            let c0 = w + param_codec_link(server).len();
            let e = find_from(s, c0, '\n');
            let q = last_paren_end(s, c0, e);
            if q > c0 {
                seq![
                    (s.subrange(p + "this._"@.len(), u - 1), s.subrange(u, w - 5), s.subrange(
                        c0,
                        q - 1,
                    )),
                ] + spec_extract_method_params(
                    s,
                    crate::grammar::advance(q, i + 1, s.len() as int),
                    server,
                )
            } else {
                spec_extract_method_params(
                    s,
                    crate::grammar::advance(p + 1, i + 1, s.len() as int),
                    server,
                )
            }
        } else {
            spec_extract_method_params(
                s,
                crate::grammar::advance(p + 1, i + 1, s.len() as int),
                server,
            )
        }
    }
}

#[via_fn]
proof fn spec_extract_method_params_decreases(s: Seq<char>, i: int, server: bool) {
    if 0 <= i <= s.len() {
        lemma_find_sub_bounds(s, i, "this._"@);
    }
}

/// The mathematical value of a list of method/parameter/codec triples.
pub open spec fn triples_view(v: Seq<(String, String, String)>) -> Seq<
    (Seq<char>, Seq<char>, Seq<char>),
> {
    v.map_values(|p: (String, String, String)| (p.0@, p.1@, p.2@))
}

/// Extracts every method/parameter/codec triple a legacy model source
/// declares for the given side.
pub fn extract_method_params(content: &str, server: bool) -> (r: Vec<(String, String, String)>)
    ensures
        triples_view(r@) == spec_extract_method_params(content@, 0, server),
{
    let n = content.unicode_len();
    let link = if server {
        " = this.protocol.getCodec("
    } else {
        " = this._protocol.getCodec("
    };
    let link_len = link.unicode_len();
    let mut out: Vec<(String, String, String)> = Vec::new();
    let mut i: usize = 0;
    proof {
        reveal_strlit("this._");
        reveal_strlit("Codec");
        reveal_strlit(" = this.protocol.getCodec(");
        reveal_strlit(" = this._protocol.getCodec(");
        assert(triples_view(out@) + spec_extract_method_params(content@, 0, server)
            =~= spec_extract_method_params(content@, 0, server));
    }
    loop
        invariant
            0 <= i <= n,
            n == content@.len(),
            "this._"@.len() == 6,
            "Codec"@.len() == 5,
            link@ == param_codec_link(server),
            link_len == link@.len(),
            link_len == 26 || link_len == 27,
            triples_view(out@) + spec_extract_method_params(content@, i as int, server)
                =~= spec_extract_method_params(content@, 0, server),
        decreases n - i,
    {
        let ghost out0 = triples_view(out@);
        let p = find_sub_from(content, i, "this._");
        if p >= n {
            proof {
                assert(spec_extract_method_params(content@, i as int, server) =~= Seq::<(Seq<
                    char,
                >, Seq<char>, Seq<char>)>::empty());
                assert(triples_view(out@) + Seq::<(Seq<char>, Seq<char>, Seq<char>)>::empty()
                    =~= triples_view(out@));
            }
            return out;
        }
        proof {
            assert(crate::lexer::spec_match_at(content@, p as int, "this._"@));
            assert(p + 6 <= content@.len());
        }
        let w = ident_run_end_at(content, p + 6);
        let u = last_underscore_end_exec(content, p + 6, w);
        let shape_ok = w - u >= 6 && u - (p + 6) >= 2 && crate::lexer::match_at_exec(
            content,
            w - 5,
            "Codec",
        ) && crate::lexer::match_at_exec(content, w, link);
        proof {
            if w - u >= 6 && u - (p + 6) >= 2 {
                if crate::lexer::spec_match_at(content@, w - 5, "Codec"@) {
                    assert(content@.subrange(w - 5, w as int) =~= "Codec"@);
                } else {
                    assert(content@.subrange(w - 5, w as int) != "Codec"@) by {
                        if content@.subrange(w - 5, w as int) == "Codec"@ {
                            assert(crate::lexer::spec_match_at(content@, w - 5, "Codec"@));
                        }
                    }
                }
            }
        }
        if shape_ok {
            let c0 = w + link_len;
            let e = crate::lexer::find_char_from_exec(content, c0, '\n');
            let q = last_paren_end_exec(content, c0, e);
            if q > c0 {
                let method = content.substring_char(p + 6, u - 1).to_owned();
                let param = content.substring_char(u, w - 5).to_owned();
                let codec = content.substring_char(c0, q - 1).to_owned();
                out.push((method, param, codec));
                proof {
                    assert(triples_view(out@) =~= out0.push(
                        (out@.last().0@, out@.last().1@, out@.last().2@),
                    ));
                }
                i = q;
            } else {
                i = p + 1;
            }
        } else {
            i = p + 1;
        }
    }
}

/// The constructor codec a legacy model-base source registers at or after
/// `i`: the first occurrence of the `registerModelConstructorCodec` line,
/// whose codec expression runs to the last two closing parentheses before
/// the end of the line.
pub open spec fn spec_constructor_codec(s: Seq<char>, i: int) -> Option<Seq<char>>
    decreases s.len() - i,
    when 0 <= i
    via spec_constructor_codec_decreases
{
    let p = find_sub(s, i, "registerModelConstructorCodec(this.modelId,this._protocol.getCodec("@);
    if p >= s.len() {
        None
    } else {
        let c0 = p + "registerModelConstructorCodec(this.modelId,this._protocol.getCodec("@.len();
        let e = find_from(s, c0, '\n');
        let q = last_paren_end(s, c0, e);
        if q >= c0 + 2 && s[q - 2] == ')' {
            Some(s.subrange(c0, q - 2))
        } else {
            spec_constructor_codec(s, crate::grammar::advance(p + 1, i + 1, s.len() as int))
        }
    }
}

#[via_fn]
proof fn spec_constructor_codec_decreases(s: Seq<char>, i: int) {
    if 0 <= i <= s.len() {
        lemma_find_sub_bounds(
            s,
            i,
            "registerModelConstructorCodec(this.modelId,this._protocol.getCodec("@,
        );
    }
}

/// Extracts the codec expression of the constructor a legacy model-base
/// source registers, if it registers one.
pub fn extract_constructor_codec(content: &str) -> (r: Option<String>)
    ensures
        match r {
            Some(codec) => spec_constructor_codec(content@, 0) == Some(codec@),
            None => spec_constructor_codec(content@, 0) is None,
        },
{
    let n = content.unicode_len();
    let prefix = "registerModelConstructorCodec(this.modelId,this._protocol.getCodec(";
    let prefix_len = prefix.unicode_len();
    let mut i: usize = 0;
    proof {
        reveal_strlit("registerModelConstructorCodec(this.modelId,this._protocol.getCodec(");
    }
    loop
        invariant
            0 <= i <= n,
            n == content@.len(),
            prefix@ == "registerModelConstructorCodec(this.modelId,this._protocol.getCodec("@,
            prefix_len == prefix@.len(),
            spec_constructor_codec(content@, 0) == spec_constructor_codec(content@, i as int),
        decreases n - i,
    {
        let p = find_sub_from(content, i, prefix);
        if p >= n {
            return None;
        }
        let c0 = p + prefix_len;
        proof {
            assert(c0 <= content@.len());
        }
        let e = crate::lexer::find_char_from_exec(content, c0, '\n');
        let q = last_paren_end_exec(content, c0, e);
        if q - c0 >= 2 && content.get_char(q - 2) == ')' {
            return Some(content.substring_char(c0, q - 2).to_owned());
        }
        i = p + 1;
    }
}

/// The note a recovered definition carries in place of doc comments.
pub open spec fn legacy_note(name: Seq<char>) -> Seq<char> {
    "This definition was recovered from a legacy codec source for \""@ + name + "\""@
}

/// The annotations a recovered definition carries: its package and its
/// class name.
pub open spec fn legacy_meta(package: Seq<char>, name: Seq<char>) -> Seq<crate::ast::MetaDeclV> {
    seq![
        crate::ast::MetaDeclV { key: "client_package"@, value: package },
        crate::ast::MetaDeclV { key: "client_name"@, value: name },
    ]
}

fn legacy_note_exec(name: &str) -> (r: String)
    ensures
        r@ == legacy_note(name@),
{
    let mut note = String::from_str(
        "This definition was recovered from a legacy codec source for \"",
    );
    note.append(name);
    note.append("\"");
    note
}

fn legacy_meta_exec(package: &str, name: &str) -> (r: Vec<crate::hl::Meta>)
    ensures
        crate::hl::hl_metas_view(r@) == legacy_meta(package@, name@),
{
    let mut out: Vec<crate::hl::Meta> = Vec::new();
    out.push(crate::hl::Meta {
        key: String::from_str("client_package"),
        value: package.to_owned(),
    });
    out.push(crate::hl::Meta { key: String::from_str("client_name"), value: name.to_owned() });
    proof {
        assert(crate::hl::hl_metas_view(out@) =~= legacy_meta(package@, name@));
    }
    out
}

/// The fields of a recovered payload type: each extracted pair in order,
/// its kind read back from its codec descriptor, at wire position `k + 1`.
pub open spec fn legacy_fields(
    pairs: Seq<(Seq<char>, Seq<char>)>,
    mt: Map<Seq<char>, String>,
) -> Seq<crate::hl::FieldV> {
    Seq::new(
        pairs.len(),
        |k: int|
            crate::hl::FieldV {
                name: pairs[k].0,
                kind: spec_codec_to_type(pairs[k].1, false, mt)->0,
                codec: pairs[k].1,
                position: k + 1,
                comments: Seq::empty(),
            },
    )
}

/// Every extracted codec is one whole descriptor.
pub open spec fn legacy_fields_wf(
    pairs: Seq<(Seq<char>, Seq<char>)>,
    mt: Map<Seq<char>, String>,
) -> bool {
    forall|k: int| 0 <= k < pairs.len() ==> spec_codec_to_type(
        (#[trigger] pairs[k]).1,
        false,
        mt,
    ) is Some
}

/// The semantic model of a payload type recovered from a legacy codec
/// source.
pub open spec fn legacy_type_of(
    name: Seq<char>,
    pairs: Seq<(Seq<char>, Seq<char>)>,
    package: Seq<char>,
    mt: Map<Seq<char>, String>,
) -> crate::hl::TypeHlV {
    crate::hl::TypeHlV {
        name,
        fields: legacy_fields(pairs, mt),
        meta: legacy_meta(package, name),
        comments: seq![legacy_note(name)],
    }
}

/// Assembles the payload type a legacy codec source declares from its
/// extracted field/codec pairs; fails exactly when some codec is not one
/// whole descriptor.
pub fn build_legacy_type(
    name: &str,
    pairs: &Vec<(String, String)>,
    package: &str,
    model_types: &vstd::hash_map::StringHashMap<String>,
) -> (r: Result<crate::hl::Type, SyntaxError>)
    ensures
        match r {
            Ok(t) => legacy_fields_wf(pairs_view(pairs@), model_types@) && crate::hl::hl_type_view(
                t,
            ) == legacy_type_of(name@, pairs_view(pairs@), package@, model_types@),
            Err(_) => !legacy_fields_wf(pairs_view(pairs@), model_types@),
        },
{
    let ghost pv = pairs_view(pairs@);
    let mut fields: Vec<crate::hl::Field> = Vec::new();
    let mut k: usize = 0;
    while k < pairs.len()
        invariant
            0 <= k <= pairs@.len(),
            pv == pairs_view(pairs@),
            pv.len() == pairs@.len(),
            forall|t: int| 0 <= t < pairs@.len() ==> #[trigger] pv[t] == (
                pairs@[t].0@,
                pairs@[t].1@,
            ),
            fields@.len() == k,
            forall|t: int| 0 <= t < k ==> spec_codec_to_type(
                (#[trigger] pv[t]).1,
                false,
                model_types@,
            ) is Some,
            forall|t: int| 0 <= t < k ==> #[trigger] crate::hl::hl_field_view(fields@[t])
                == legacy_fields(pv, model_types@)[t],
        decreases pairs@.len() - k,
    {
        let kind = match codec_to_type(pairs[k].1.as_str(), false, model_types) {
            Ok(v) => v,
            Err(e) => {
                proof {
                    assert(!(spec_codec_to_type(pv[k as int].1, false, model_types@) is Some));
                }
                return Err(e);
            },
        };
        fields.push(crate::hl::Field {
            name: pairs[k].0.clone(),
            kind,
            codec: pairs[k].1.clone(),
            position: k + 1,
            comments: Vec::new(),
        });
        proof {
            assert(crate::hl::strings_view(Seq::<String>::empty()) =~= Seq::<Seq<char>>::empty());
        }
        k += 1;
    }
    let out = crate::hl::Type {
        name: name.to_owned(),
        fields,
        meta: legacy_meta_exec(package, name),
        comments: {
            let mut cs: Vec<String> = Vec::new();
            cs.push(legacy_note_exec(name));
            cs
        },
    };
    proof {
        assert(crate::hl::hl_fields_view(out.fields@) =~= legacy_fields(pv, model_types@));
        assert(crate::hl::strings_view(out.comments@) =~= seq![legacy_note(name@)]);
    }
    Ok(out)
}

/// The variants of a recovered enum: each extracted pair in order, with no
/// comments.
pub open spec fn legacy_variants(pairs: Seq<(Seq<char>, int)>) -> Seq<crate::hl::VariantV> {
    Seq::new(
        pairs.len(),
        |k: int|
            crate::hl::VariantV { name: pairs[k].0, value: pairs[k].1, comments: Seq::empty() },
    )
}

/// The semantic model of an enum recovered from a legacy codec source: its
/// extracted variants over a 32-bit representation.
pub open spec fn legacy_enum_of(
    name: Seq<char>,
    pairs: Seq<(Seq<char>, int)>,
    package: Seq<char>,
) -> crate::hl::EnumV {
    crate::hl::EnumV {
        name,
        repr: "i32"@,
        variants: legacy_variants(pairs),
        meta: legacy_meta(package, name),
        comments: seq![legacy_note(name)],
    }
}

/// Assembles the enum a legacy codec source declares from its extracted
/// variant/value pairs.
pub fn build_legacy_enum(
    name: &str,
    pairs: &Vec<(String, i64)>,
    package: &str,
) -> (r: crate::hl::Enum)
    ensures
        crate::hl::hl_enum_view(r) == legacy_enum_of(name@, variants_pairs_view(pairs@), package@),
{
    let ghost pv = variants_pairs_view(pairs@);
    let mut variants: Vec<crate::hl::Variant> = Vec::new();
    let mut k: usize = 0;
    while k < pairs.len()
        invariant
            0 <= k <= pairs@.len(),
            pv == variants_pairs_view(pairs@),
            pv.len() == pairs@.len(),
            forall|t: int| 0 <= t < pairs@.len() ==> #[trigger] pv[t] == (
                pairs@[t].0@,
                pairs@[t].1 as int,
            ),
            variants@.len() == k,
            forall|t: int| 0 <= t < k ==> #[trigger] crate::hl::hl_variant_view(variants@[t])
                == legacy_variants(pv)[t],
        decreases pairs@.len() - k,
    {
        variants.push(crate::hl::Variant {
            name: pairs[k].0.clone(),
            value: pairs[k].1,
            comments: Vec::new(),
        });
        proof {
            assert(crate::hl::strings_view(Seq::<String>::empty()) =~= Seq::<Seq<char>>::empty());
        }
        k += 1;
    }
    let out = crate::hl::Enum {
        name: name.to_owned(),
        repr: String::from_str("i32"),
        variants,
        meta: legacy_meta_exec(package, name),
        comments: {
            let mut cs: Vec<String> = Vec::new();
            cs.push(legacy_note_exec(name));
            cs
        },
    };
    proof {
        assert(crate::hl::hl_variants_view(out.variants@) =~= legacy_variants(pv));
        assert(crate::hl::strings_view(out.comments@) =~= seq![legacy_note(name@)]);
    }
    out
}

/// The parameters of one recovered method: the extracted triples that name
/// it, in order, each kind read back from its codec descriptor.
pub open spec fn legacy_params(
    ts: Seq<(Seq<char>, Seq<char>, Seq<char>)>,
    method: Seq<char>,
    mt: Map<Seq<char>, String>,
) -> Seq<crate::hl::ParamV>
    decreases ts.len(),
{
    if ts.len() == 0 {
        Seq::empty()
    } else {
        let rest = legacy_params(ts.drop_last(), method, mt);
        if ts.last().0 == method {
            rest.push(
                crate::hl::ParamV {
                    name: ts.last().1,
                    kind: spec_codec_to_type(ts.last().2, false, mt)->0,
                    codec: ts.last().2,
                },
            )
        } else {
            rest
        }
    }
}

/// Every triple that names the method carries one whole codec descriptor.
pub open spec fn legacy_params_wf(
    ts: Seq<(Seq<char>, Seq<char>, Seq<char>)>,
    method: Seq<char>,
    mt: Map<Seq<char>, String>,
) -> bool {
    forall|k: int| 0 <= k < ts.len() && (#[trigger] ts[k]).0 == method ==> spec_codec_to_type(
        ts[k].2,
        false,
        mt,
    ) is Some
}

/// Some extracted method declares this name.
pub open spec fn method_known(ids: Seq<(Seq<char>, i32, i32)>, name: Seq<char>) -> bool {
    exists|k: int| 0 <= k < ids.len() && (#[trigger] ids[k]).0 == name
}

/// The methods of a recovered model: the extracted identities in order,
/// each packed to 64 bits, with its parameters attached by method name.
pub open spec fn legacy_methods(
    ids: Seq<(Seq<char>, i32, i32)>,
    ts: Seq<(Seq<char>, Seq<char>, Seq<char>)>,
    mt: Map<Seq<char>, String>,
) -> Seq<crate::hl::MethodV> {
    Seq::new(
        ids.len(),
        |k: int|
            crate::hl::MethodV {
                name: ids[k].0,
                id: crate::ids::pack_id(ids[k].1, ids[k].2) as int,
                params: legacy_params(ts, ids[k].0, mt),
                comments: Seq::empty(),
            },
    )
}

/// A recovered model is well formed when every parameter triple names an
/// extracted method and every parameter codec is one whole descriptor.
pub open spec fn legacy_model_wf(
    client_ids: Seq<(Seq<char>, i32, i32)>,
    client_ts: Seq<(Seq<char>, Seq<char>, Seq<char>)>,
    server_ids: Seq<(Seq<char>, i32, i32)>,
    server_ts: Seq<(Seq<char>, Seq<char>, Seq<char>)>,
    mt: Map<Seq<char>, String>,
) -> bool {
    &&& forall|k: int| 0 <= k < client_ts.len() ==> method_known(
        client_ids,
        (#[trigger] client_ts[k]).0,
    )
    &&& forall|k: int| 0 <= k < server_ts.len() ==> method_known(
        server_ids,
        (#[trigger] server_ts[k]).0,
    )
    &&& forall|k: int| 0 <= k < client_ids.len() ==> legacy_params_wf(
        client_ts,
        (#[trigger] client_ids[k]).0,
        mt,
    )
    &&& forall|k: int| 0 <= k < server_ids.len() ==> legacy_params_wf(
        server_ts,
        (#[trigger] server_ids[k]).0,
        mt,
    )
}

/// The constructor payload of a recovered model, taken from its class's
/// recovered payload type.
pub fn constructor_from_type(t: crate::hl::Type) -> (r: crate::hl::ModelConstructor)
    ensures
        crate::hl::hl_ctor_view(r) == (crate::hl::CtorV {
            fields: crate::hl::hl_fields_view(t.fields@),
            meta: crate::hl::hl_metas_view(t.meta@),
            comments: crate::hl::strings_view(t.comments@),
        }),
{
    crate::hl::ModelConstructor { fields: t.fields, meta: t.meta, comments: t.comments }
}

/// Collects the parameters of one recovered method; fails on a matching
/// triple whose codec is not one whole descriptor.
fn legacy_params_for(
    method: &str,
    triples: &Vec<(String, String, String)>,
    model_types: &vstd::hash_map::StringHashMap<String>,
) -> (r: Result<Vec<crate::hl::Param>, SyntaxError>)
    ensures
        match r {
            Ok(ps) => legacy_params_wf(triples_view(triples@), method@, model_types@)
                && crate::hl::hl_params_view(ps@) == legacy_params(
                triples_view(triples@),
                method@,
                model_types@,
            ),
            Err(_) => !legacy_params_wf(triples_view(triples@), method@, model_types@),
        },
{
    let ghost tsv = triples_view(triples@);
    let mut out: Vec<crate::hl::Param> = Vec::new();
    let mut k: usize = 0;
    while k < triples.len()
        invariant
            0 <= k <= triples@.len(),
            tsv == triples_view(triples@),
            tsv.len() == triples@.len(),
            forall|t: int| 0 <= t < triples@.len() ==> #[trigger] tsv[t] == (
                triples@[t].0@,
                triples@[t].1@,
                triples@[t].2@,
            ),
            forall|t: int| 0 <= t < k && (#[trigger] tsv[t]).0 == method@ ==> spec_codec_to_type(
                tsv[t].2,
                false,
                model_types@,
            ) is Some,
            crate::hl::hl_params_view(out@) == legacy_params(
                tsv.subrange(0, k as int),
                method@,
                model_types@,
            ),
        decreases triples@.len() - k,
    {
        let ghost out0 = crate::hl::hl_params_view(out@);
        proof {
            assert(tsv.subrange(0, k + 1).drop_last() =~= tsv.subrange(0, k as int));
            assert(tsv.subrange(0, k + 1).last() == tsv[k as int]);
        }
        if crate::text::str_eq(triples[k].0.as_str(), method) {
            let kind = match codec_to_type(triples[k].2.as_str(), false, model_types) {
                Ok(v) => v,
                Err(e) => {
                    proof {
                        assert(!(spec_codec_to_type(tsv[k as int].2, false, model_types@)
                            is Some));
                    }
                    return Err(e);
                },
            };
            out.push(crate::hl::Param {
                name: triples[k].1.clone(),
                kind,
                codec: triples[k].2.clone(),
            });
            proof {
                assert(crate::hl::hl_params_view(out@) =~= out0.push(
                    crate::hl::hl_param_view(out@.last()),
                ));
            }
        }
        k += 1;
    }
    proof {
        assert(tsv.subrange(0, k as int) =~= tsv);
    }
    Ok(out)
}

/// Some extracted method declares this name.
fn has_method(ids: &Vec<(String, i32, i32)>, name: &str) -> (r: bool)
    ensures
        r == method_known(method_ids_view(ids@), name@),
{
    let ghost idv = method_ids_view(ids@);
    let mut k: usize = 0;
    while k < ids.len()
        invariant
            0 <= k <= ids@.len(),
            idv == method_ids_view(ids@),
            idv.len() == ids@.len(),
            forall|t: int| 0 <= t < ids@.len() ==> #[trigger] idv[t] == (
                ids@[t].0@,
                ids@[t].1,
                ids@[t].2,
            ),
            forall|t: int| 0 <= t < k ==> (#[trigger] idv[t]).0 != name@,
        decreases ids@.len() - k,
    {
        if crate::text::str_eq(ids[k].0.as_str(), name) {
            proof {
                assert((idv[k as int]).0 == name@);
                assert(method_known(idv, name@));
            }
            return true;
        }
        k += 1;
    }
    false
}

/// Assembles the model a pair of legacy sources declares: the packed model
/// identity, the client and server methods in extraction order with their
/// parameters attached by name, and the recovered constructor payload.
/// Fails exactly when a parameter triple names no extracted method or a
/// parameter codec is not one whole descriptor.
pub fn build_legacy_model(
    name: &str,
    id: i64,
    client_ids: &Vec<(String, i32, i32)>,
    client_params: &Vec<(String, String, String)>,
    server_ids: &Vec<(String, i32, i32)>,
    server_params: &Vec<(String, String, String)>,
    constructor: Option<crate::hl::ModelConstructor>,
    model_types: &vstd::hash_map::StringHashMap<String>,
    package: &str,
) -> (r: Result<crate::hl::Model, SyntaxError>)
    ensures
        match r {
            Ok(m) => {
                &&& legacy_model_wf(
                    method_ids_view(client_ids@),
                    triples_view(client_params@),
                    method_ids_view(server_ids@),
                    triples_view(server_params@),
                    model_types@,
                )
                &&& crate::hl::hl_model_view(m) == (crate::hl::ModelV {
                    name: name@,
                    id: id as int,
                    constructor: match constructor {
                        Some(c) => Some(crate::hl::hl_ctor_view(c)),
                        None => None,
                    },
                    client_methods: legacy_methods(
                        method_ids_view(client_ids@),
                        triples_view(client_params@),
                        model_types@,
                    ),
                    server_methods: legacy_methods(
                        method_ids_view(server_ids@),
                        triples_view(server_params@),
                        model_types@,
                    ),
                    meta: legacy_meta(package@, name@),
                    comments: seq![legacy_note(name@)],
                })
            },
            Err(_) => !legacy_model_wf(
                method_ids_view(client_ids@),
                triples_view(client_params@),
                method_ids_view(server_ids@),
                triples_view(server_params@),
                model_types@,
            ),
        },
{
    let ghost cidv = method_ids_view(client_ids@);
    let ghost ctv = triples_view(client_params@);
    let ghost sidv = method_ids_view(server_ids@);
    let ghost stv = triples_view(server_params@);
    // Every parameter triple must name an extracted method.
    let mut k: usize = 0;
    while k < client_params.len()
        invariant
            0 <= k <= client_params@.len(),
            ctv == triples_view(client_params@),
            ctv.len() == client_params@.len(),
            forall|t: int| 0 <= t < client_params@.len() ==> #[trigger] ctv[t] == (
                client_params@[t].0@,
                client_params@[t].1@,
                client_params@[t].2@,
            ),
            forall|t: int| 0 <= t < k ==> method_known(
                method_ids_view(client_ids@),
                (#[trigger] ctv[t]).0,
            ),
        decreases client_params@.len() - k,
    {
        if !has_method(client_ids, client_params[k].0.as_str()) {
            proof {
                assert(!method_known(method_ids_view(client_ids@), (ctv[k as int]).0));
            }
            return Err(SyntaxError::new(String::from_str(
                "a parameter names no extracted client method",
            )));
        }
        k += 1;
    }
    let mut k: usize = 0;
    while k < server_params.len()
        invariant
            0 <= k <= server_params@.len(),
            stv == triples_view(server_params@),
            stv.len() == server_params@.len(),
            forall|t: int| 0 <= t < server_params@.len() ==> #[trigger] stv[t] == (
                server_params@[t].0@,
                server_params@[t].1@,
                server_params@[t].2@,
            ),
            forall|t: int| 0 <= t < k ==> method_known(
                method_ids_view(server_ids@),
                (#[trigger] stv[t]).0,
            ),
        decreases server_params@.len() - k,
    {
        if !has_method(server_ids, server_params[k].0.as_str()) {
            proof {
                assert(!method_known(method_ids_view(server_ids@), (stv[k as int]).0));
            }
            return Err(SyntaxError::new(String::from_str(
                "a parameter names no extracted server method",
            )));
        }
        k += 1;
    }
    // Build the methods in extraction order.
    let mut client_methods: Vec<crate::hl::ClientMethod> = Vec::new();
    let mut k: usize = 0;
    while k < client_ids.len()
        invariant
            0 <= k <= client_ids@.len(),
            cidv == method_ids_view(client_ids@),
            ctv == triples_view(client_params@),
            cidv.len() == client_ids@.len(),
            forall|t: int| 0 <= t < client_ids@.len() ==> #[trigger] cidv[t] == (
                client_ids@[t].0@,
                client_ids@[t].1,
                client_ids@[t].2,
            ),
            client_methods@.len() == k,
            forall|t: int| 0 <= t < k ==> legacy_params_wf(ctv, (#[trigger] cidv[t]).0,
                model_types@),
            forall|t: int| 0 <= t < k ==> #[trigger] crate::hl::hl_client_method_view(
                client_methods@[t],
            ) == legacy_methods(cidv, ctv, model_types@)[t],
        decreases client_ids@.len() - k,
    {
        let params = match legacy_params_for(client_ids[k].0.as_str(), client_params, model_types) {
            Ok(v) => v,
            Err(e) => {
                proof {
                    assert(!legacy_params_wf(ctv, cidv[k as int].0, model_types@));
                }
                return Err(e);
            },
        };
        client_methods.push(crate::hl::ClientMethod {
            name: client_ids[k].0.clone(),
            id: crate::ids::convert_to_id(client_ids[k].1, client_ids[k].2),
            params,
            comments: Vec::new(),
        });
        proof {
            assert(crate::hl::strings_view(Seq::<String>::empty()) =~= Seq::<Seq<char>>::empty());
        }
        k += 1;
    }
    let mut server_methods: Vec<crate::hl::ServerMethod> = Vec::new();
    let mut k: usize = 0;
    while k < server_ids.len()
        invariant
            0 <= k <= server_ids@.len(),
            sidv == method_ids_view(server_ids@),
            stv == triples_view(server_params@),
            sidv.len() == server_ids@.len(),
            forall|t: int| 0 <= t < server_ids@.len() ==> #[trigger] sidv[t] == (
                server_ids@[t].0@,
                server_ids@[t].1,
                server_ids@[t].2,
            ),
            server_methods@.len() == k,
            forall|t: int| 0 <= t < k ==> legacy_params_wf(stv, (#[trigger] sidv[t]).0,
                model_types@),
            forall|t: int| 0 <= t < k ==> #[trigger] crate::hl::hl_server_method_view(
                server_methods@[t],
            ) == legacy_methods(sidv, stv, model_types@)[t],
        decreases server_ids@.len() - k,
    {
        let params = match legacy_params_for(server_ids[k].0.as_str(), server_params, model_types) {
            Ok(v) => v,
            Err(e) => {
                proof {
                    assert(!legacy_params_wf(stv, sidv[k as int].0, model_types@));
                }
                return Err(e);
            },
        };
        server_methods.push(crate::hl::ServerMethod {
            name: server_ids[k].0.clone(),
            id: crate::ids::convert_to_id(server_ids[k].1, server_ids[k].2),
            params,
            comments: Vec::new(),
        });
        proof {
            assert(crate::hl::strings_view(Seq::<String>::empty()) =~= Seq::<Seq<char>>::empty());
        }
        k += 1;
    }
    let out = crate::hl::Model {
        name: name.to_owned(),
        id,
        constructor,
        client_methods,
        server_methods,
        meta: legacy_meta_exec(package, name),
        comments: {
            let mut cs: Vec<String> = Vec::new();
            cs.push(legacy_note_exec(name));
            cs
        },
    };
    proof {
        assert(crate::hl::hl_client_methods_view(out.client_methods@) =~= legacy_methods(
            cidv,
            ctv,
            model_types@,
        ));
        assert(crate::hl::hl_server_methods_view(out.server_methods@) =~= legacy_methods(
            sidv,
            stv,
            model_types@,
        ));
        assert(crate::hl::strings_view(out.comments@) =~= seq![legacy_note(name@)]);
    }
    Ok(out)
}

/// The names of a list that are not yet marked existing, in order.
pub open spec fn filter_unknown(names: Seq<Seq<char>>, ex: Set<Seq<char>>) -> Seq<Seq<char>>
    decreases names.len(),
{
    if names.len() == 0 {
        Seq::empty()
    } else {
        let rest = filter_unknown(names.drop_last(), ex);
        if !ex.contains(names.last()) {
            rest.push(names.last())
        } else {
            rest
        }
    }
}

/// The type names a recovered type's fields depend on that are not yet
/// marked existing: each field kind's bare names, in field order.
pub open spec fn fields_deps(fs: Seq<crate::hl::FieldV>, ex: Set<Seq<char>>) -> Seq<Seq<char>>
    decreases fs.len(),
{
    if fs.len() == 0 {
        Seq::empty()
    } else {
        fields_deps(fs.drop_last(), ex) + filter_unknown(type_arg_names(fs.last().kind), ex)
    }
}

/// Collects the dependency names of a recovered type's fields that are not
/// yet marked existing.
fn deps_of_fields(fields: &Vec<crate::hl::Field>, existing: &vstd::hash_set::StringHashSet) -> (r:
    Vec<String>)
    ensures
        crate::hl::strings_view(r@) == fields_deps(crate::hl::hl_fields_view(fields@), existing@),
{
    let ghost fsv = crate::hl::hl_fields_view(fields@);
    let mut out: Vec<String> = Vec::new();
    let mut k: usize = 0;
    while k < fields.len()
        invariant
            0 <= k <= fields@.len(),
            fsv == crate::hl::hl_fields_view(fields@),
            fsv.len() == fields@.len(),
            forall|t: int| 0 <= t < fields@.len() ==> #[trigger] fsv[t]
                == crate::hl::hl_field_view(fields@[t]),
            crate::hl::strings_view(out@) == fields_deps(fsv.subrange(0, k as int), existing@),
        decreases fields@.len() - k,
    {
        let ghost out0 = crate::hl::strings_view(out@);
        let names = get_types_from_generic(fields[k].kind.as_str());
        let ghost nv = type_arg_names(fsv[k as int].kind);
        let mut j: usize = 0;
        while j < names.len()
            invariant
                0 <= j <= names@.len(),
                nv == crate::hl::strings_view(names@),
                nv.len() == names@.len(),
                forall|t: int| 0 <= t < names@.len() ==> #[trigger] nv[t] == names@[t]@,
                crate::hl::strings_view(out@) == out0 + filter_unknown(
                    nv.subrange(0, j as int),
                    existing@,
                ),
            decreases names@.len() - j,
        {
            let ghost mid0 = crate::hl::strings_view(out@);
            proof {
                assert(nv.subrange(0, j + 1).drop_last() =~= nv.subrange(0, j as int));
                assert(nv.subrange(0, j + 1).last() == nv[j as int]);
            }
            if !existing.contains(names[j].as_str()) {
                out.push(names[j].clone());
                proof {
                    assert(crate::hl::strings_view(out@) =~= mid0.push(out@.last()@));
                    assert(crate::hl::strings_view(out@) =~= out0 + filter_unknown(
                        nv.subrange(0, j + 1),
                        existing@,
                    ));
                }
            }
            j += 1;
        }
        proof {
            assert(nv.subrange(0, nv.len() as int) =~= nv);
            assert(fsv.subrange(0, k + 1).drop_last() =~= fsv.subrange(0, k as int));
            assert(fsv.subrange(0, k + 1).last() == fsv[k as int]);
        }
        k += 1;
    }
    proof {
        assert(fsv.subrange(0, k as int) =~= fsv);
    }
    out
}

/// A legacy codec source holds an enum exactly when it switches over its
/// wire values.
pub open spec fn has_switch(s: Seq<char>) -> bool {
    find_sub(s, 0, " switch("@) < s.len()
}

/// A definition recovered from a legacy codec source.
#[derive(Debug)]
pub enum LegacyDefinition {
    Type(crate::hl::Type),
    Enum(crate::hl::Enum),
}

/// One step of the demand-driven recovery closure: reconstructs the missing
/// definition the given legacy codec source holds, registers it in the
/// context under the given qualified path, and returns it together with the
/// dependency names that still need recovery. A source with a `switch` is an
/// enum and has no dependencies of its own; any other source is a payload
/// type whose field kinds may name further missing definitions.
pub fn recover_legacy_definition(
    ctx: &mut ResolutionContext,
    name: &str,
    path: String,
    package: &str,
    content: &str,
) -> (r: Result<(LegacyDefinition, Vec<String>), SyntaxError>)
    ensures
        match r {
            Ok((def, deps)) => {
                &&& final(ctx).builtin@ == old(ctx).builtin@
                &&& final(ctx).overrides@ == old(ctx).overrides@
                &&& final(ctx).model_types@ == old(ctx).model_types@
                &&& final(ctx).index@ == old(ctx).index@.insert(name@, path)
                &&& final(ctx).existing@ == old(ctx).existing@.insert(name@)
                &&& match def {
                    LegacyDefinition::Enum(e) => {
                        &&& has_switch(content@)
                        &&& spec_extract_variants(content@, 0) is Some
                        &&& crate::hl::hl_enum_view(e) == legacy_enum_of(
                            name@,
                            spec_extract_variants(content@, 0)->0,
                            package@,
                        )
                        &&& final(ctx).enum_types@ == old(ctx).enum_types@.insert(name@)
                        &&& deps@.len() == 0
                    },
                    LegacyDefinition::Type(t) => {
                        &&& !has_switch(content@)
                        &&& legacy_fields_wf(
                            spec_extract_fields(content@, 0),
                            old(ctx).model_types@,
                        )
                        &&& crate::hl::hl_type_view(t) == legacy_type_of(
                            name@,
                            spec_extract_fields(content@, 0),
                            package@,
                            old(ctx).model_types@,
                        )
                        &&& final(ctx).enum_types@ == old(ctx).enum_types@
                        &&& crate::hl::strings_view(deps@) == fields_deps(
                            legacy_fields(
                                spec_extract_fields(content@, 0),
                                old(ctx).model_types@,
                            ),
                            final(ctx).existing@,
                        )
                    },
                }
            },
            Err(_) => {
                &&& *final(ctx) == *old(ctx)
                &&& if has_switch(content@) {
                    spec_extract_variants(content@, 0) is None
                } else {
                    !legacy_fields_wf(spec_extract_fields(content@, 0), old(ctx).model_types@)
                }
            },
        },
{
    if contains_sub(content, " switch(") {
        let variants = match extract_variants(content) {
            Ok(v) => v,
            Err(e) => {
                return Err(e);
            },
        };
        let recovered = build_legacy_enum(name, &variants, package);
        ctx.register_definition(name.to_owned(), path);
        ctx.register_enum_name(name.to_owned());
        ctx.register_existing(name.to_owned());
        Ok((LegacyDefinition::Enum(recovered), Vec::new()))
    } else {
        let fields = extract_fields(content);
        let recovered = match build_legacy_type(name, &fields, package, &ctx.model_types) {
            Ok(v) => v,
            Err(e) => {
                return Err(e);
            },
        };
        ctx.register_definition(name.to_owned(), path);
        ctx.register_existing(name.to_owned());
        let deps = deps_of_fields(&recovered.fields, &ctx.existing);
        proof {
            assert(crate::hl::hl_fields_view(recovered.fields@) == legacy_fields(
                spec_extract_fields(content@, 0),
                old(ctx).model_types@,
            ));
        }
        Ok((LegacyDefinition::Type(recovered), deps))
    }
}

/// The position just past the last `/` in `s`, or 0 when there is none.
pub open spec fn last_slash_end(s: Seq<char>) -> int
    decreases s.len(),
{
    if s.len() == 0 {
        0
    } else if s.last() == '/' {
        s.len() as int
    } else {
        last_slash_end(s.drop_last())
    }
}

/// `s` with its `.as` extension removed, if it carries one.
pub open spec fn drop_as_suffix(s: Seq<char>) -> Seq<char> {
    if s.len() >= 3 && s.subrange(s.len() - 3, s.len() as int) == ".as"@ {
        s.subrange(0, s.len() - 3)
    } else {
        s
    }
}

/// `s` with a `Codec` prefix removed from its file stem, if the stem
/// carries one.
pub open spec fn strip_codec_stem(s: Seq<char>) -> Seq<char> {
    let st = last_slash_end(s);
    if spec_match_at(s, st, "Codec"@) {
        s.subrange(0, st) + s.subrange(st + "Codec"@.len(), s.len() as int)
    } else {
        s
    }
}

/// Every path separator replaced by a dot.
pub open spec fn dotted(s: Seq<char>) -> Seq<char> {
    Seq::new(
        s.len(),
        |k: int|
            if s[k] == '/' {
                '.'
            } else {
                s[k]
            },
    )
}

/// The qualified path a recovered definition registers under, derived from
/// the legacy source's location relative to its root: the `.as` extension
/// and the stem's `Codec` prefix removed, the separators dot-joined.
pub open spec fn legacy_path_of(rel: Seq<char>) -> Seq<char> {
    dotted(strip_codec_stem(drop_as_suffix(rel)))
}

/// Derives the qualified path a recovered definition registers under from
/// the legacy source's slash-separated location relative to its root.
pub fn legacy_definition_path(rel: &str) -> (r: String)
    ensures
        r@ == legacy_path_of(rel@),
{
    let n = rel.unicode_len();
    proof {
        reveal_strlit(".as");
        reveal_strlit("Codec");
    }
    // Drop the extension.
    let stem_all = if n >= 3 && crate::lexer::match_at_exec(rel, n - 3, ".as") {
        proof {
            assert(rel@.subrange(n - 3, n as int) =~= ".as"@);
        }
        rel.substring_char(0, n - 3)
    } else {
        proof {
            if n >= 3 {
                assert(rel@.subrange(n - 3, n as int) != ".as"@) by {
                    if rel@.subrange(n - 3, n as int) == ".as"@ {
                        assert(crate::lexer::spec_match_at(rel@, n - 3, ".as"@));
                    }
                }
            }
            assert(rel@.subrange(0, n as int) =~= rel@);
        }
        rel.substring_char(0, n)
    };
    let ghost base = drop_as_suffix(rel@);
    let m = stem_all.unicode_len();
    // Find the stem and strip its marker prefix.
    let mut st: usize = m;
    proof {
        assert(stem_all@.subrange(0, m as int) =~= stem_all@);
    }
    while st > 0 && stem_all.get_char(st - 1) != '/'
        invariant
            0 <= st <= m,
            m == stem_all@.len(),
            last_slash_end(stem_all@) == last_slash_end(stem_all@.subrange(0, st as int)),
        decreases st,
    {
        proof {
            assert(stem_all@.subrange(0, st as int).drop_last() =~= stem_all@.subrange(
                0,
                st - 1,
            ));
        }
        st -= 1;
    }
    proof {
        if st > 0 {
            assert(last_slash_end(stem_all@.subrange(0, st as int)) == st as int);
        } else {
            assert(stem_all@.subrange(0, 0) =~= Seq::<char>::empty());
        }
    }
    let mut flat = String::new();
    if crate::lexer::match_at_exec(stem_all, st, "Codec") {
        let head = stem_all.substring_char(0, st);
        flat.append(head);
        let tail = stem_all.substring_char(st + 5, m);
        flat.append(tail);
        proof {
            assert(flat@ =~= strip_codec_stem(base));
        }
    } else {
        flat.append(stem_all);
        proof {
            assert(flat@ =~= strip_codec_stem(base));
        }
    }
    // Dot-join the separators.
    let fl = flat.as_str().unicode_len();
    let mut out = String::new();
    let mut k: usize = 0;
    while k < fl
        invariant
            0 <= k <= fl,
            fl == flat@.len(),
            out@.len() == k,
            forall|t: int| 0 <= t < k ==> out@[t] == dotted(flat@)[t],
        decreases fl - k,
    {
        let c = flat.as_str().get_char(k);
        if c == '/' {
            out.push('.');
        } else {
            out.push(c);
        }
        k += 1;
    }
    proof {
        assert(out@ =~= dotted(flat@));
    }
    out
}

/// The package part of a dot-joined qualified path: everything before its
/// last dot, or nothing when it has none.
pub open spec fn package_of(s: Seq<char>) -> Seq<char> {
    let d = last_dot_end(s);
    if d > 0 {
        s.subrange(0, d - 1)
    } else {
        Seq::empty()
    }
}

/// The position just past the last `.` in `s`, or 0 when there is none.
pub open spec fn last_dot_end(s: Seq<char>) -> int
    decreases s.len(),
{
    if s.len() == 0 {
        0
    } else if s.last() == '.' {
        s.len() as int
    } else {
        last_dot_end(s.drop_last())
    }
}

/// The package part of a dot-joined qualified path.
pub fn parent_package(path: &str) -> (r: String)
    ensures
        r@ == package_of(path@),
{
    let n = path.unicode_len();
    let mut d: usize = n;
    proof {
        assert(path@.subrange(0, n as int) =~= path@);
    }
    while d > 0 && path.get_char(d - 1) != '.'
        invariant
            0 <= d <= n,
            n == path@.len(),
            last_dot_end(path@) == last_dot_end(path@.subrange(0, d as int)),
        decreases d,
    {
        proof {
            assert(path@.subrange(0, d as int).drop_last() =~= path@.subrange(0, d - 1));
        }
        d -= 1;
    }
    proof {
        if d > 0 {
            assert(last_dot_end(path@.subrange(0, d as int)) == d as int);
        } else {
            assert(path@.subrange(0, 0) =~= Seq::<char>::empty());
        }
    }
    if d > 0 {
        path.substring_char(0, d - 1).to_owned()
    } else {
        proof {
            assert(package_of(path@) =~= Seq::<char>::empty());
        }
        String::new()
    }
}

} // verus!
