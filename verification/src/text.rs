//! Character classes and small string helpers used by the lexer and the
//! renderers.

use vstd::prelude::*;
use vstd::string::StrSliceExecFns;

verus! {

/// Relies on `std::string::String::push`: appends exactly the given
/// character at the end of the string.
pub assume_specification[ std::string::String::push ](s: &mut std::string::String, c: char)
    ensures
        final(s)@ == old(s)@.push(c),
;

/// An ASCII decimal digit.
pub open spec fn is_digit_char(c: char) -> bool {
    48 <= (c as u32) && (c as u32) <= 57
}

/// An ASCII letter.
pub open spec fn is_alpha_char(c: char) -> bool {
    (65 <= (c as u32) && (c as u32) <= 90) || (97 <= (c as u32) && (c as u32) <= 122)
}

/// A character that may start an identifier: a letter or an underscore.
pub open spec fn is_ident_start_char(c: char) -> bool {
    is_alpha_char(c) || c == '_'
}

/// A character that may continue an identifier: a letter, a digit or an
/// underscore.
pub open spec fn is_ident_char(c: char) -> bool {
    is_alpha_char(c) || is_digit_char(c) || c == '_'
}

/// A Unicode whitespace character (the `White_Space` property).
pub open spec fn is_whitespace_char(c: char) -> bool {
    ||| (9 <= (c as u32) && (c as u32) <= 13)
    ||| (c as u32) == 32
    ||| (c as u32) == 0x85
    ||| (c as u32) == 0xA0
    ||| (c as u32) == 0x1680
    ||| (0x2000 <= (c as u32) && (c as u32) <= 0x200A)
    ||| (c as u32) == 0x2028
    ||| (c as u32) == 0x2029
    ||| (c as u32) == 0x202F
    ||| (c as u32) == 0x205F
    ||| (c as u32) == 0x3000
}

/// An ASCII control character: the C0 range or delete.
pub open spec fn is_ascii_control_char(c: char) -> bool {
    (c as u32) < 32 || (c as u32) == 127
}

pub fn digit_char(c: char) -> (r: bool)
    ensures
        r == is_digit_char(c),
{
    let u = c as u32;
    48 <= u && u <= 57
}

pub fn ident_start_char(c: char) -> (r: bool)
    ensures
        r == is_ident_start_char(c),
{
    let u = c as u32;
    (65 <= u && u <= 90) || (97 <= u && u <= 122) || c == '_'
}

pub fn ident_char(c: char) -> (r: bool)
    ensures
        r == is_ident_char(c),
{
    let u = c as u32;
    (65 <= u && u <= 90) || (97 <= u && u <= 122) || (48 <= u && u <= 57) || c == '_'
}

pub fn whitespace_char(c: char) -> (r: bool)
    ensures
        r == is_whitespace_char(c),
{
    let u = c as u32;
    (9 <= u && u <= 13) || u == 32 || u == 0x85 || u == 0xA0 || u == 0x1680 || (0x2000 <= u && u
        <= 0x200A) || u == 0x2028 || u == 0x2029 || u == 0x202F || u == 0x205F || u == 0x3000
}

pub fn ascii_control_char(c: char) -> (r: bool)
    ensures
        r == is_ascii_control_char(c),
{
    let u = c as u32;
    u < 32 || u == 127
}

/// Compares two strings character by character.
pub fn str_eq(a: &str, b: &str) -> (r: bool)
    ensures
        r == (a@ == b@),
{
    let n = a.unicode_len();
    let m = b.unicode_len();
    if n != m {
        return false;
    }
    let mut k: usize = 0;
    while k < n
        invariant
            0 <= k <= n,
            n == a@.len(),
            n == b@.len(),
            forall|t: int| 0 <= t < k ==> a@[t] == b@[t],
        decreases n - k,
    {
        if a.get_char(k) != b.get_char(k) {
            return false;
        }
        k += 1;
    }
    proof {
        assert(a@ =~= b@);
    }
    true
}

/// The numeric value of an ASCII decimal digit.
pub open spec fn digit_value(c: char) -> int {
    (c as u32) - 48
}

/// The decimal rendering of a natural number, most significant digit first.
pub open spec fn dec_digits(n: int) -> Seq<char>
    decreases n,
{
    if n < 10 {
        seq![((48 + if n >= 0 { n } else { 0 }) as u8) as char]
    } else {
        dec_digits(n / 10).push(((48 + n % 10) as u8) as char)
    }
}

/// Renders a number in decimal.
pub fn render_usize(n: usize) -> (r: String)
    ensures
        r@ == dec_digits(n as int),
    decreases n,
{
    if n < 10 {
        let mut s = String::new();
        s.push(((48 + n) as u8) as char);
        s
    } else {
        let mut s = render_usize(n / 10);
        s.push(((48 + n % 10) as u8) as char);
        s
    }
}

/// `s` with every occurrence of `pat` replaced by `rep`, scanning left to
/// right without overlap; an empty pattern leaves `s` unchanged.
pub open spec fn replace_seq(s: Seq<char>, pat: Seq<char>, rep: Seq<char>) -> Seq<char>
    decreases s.len(),
{
    if pat.len() == 0 || s.len() < pat.len() {
        s
    } else if s.subrange(0, pat.len() as int) == pat {
        rep + replace_seq(s.skip(pat.len() as int), pat, rep)
    } else {
        seq![s[0]] + replace_seq(s.skip(1), pat, rep)
    }
}

/// Replaces every occurrence of `pat` in `s` by `rep`, left to right without
/// overlap.
pub fn replace_all(s: &str, pat: &str, rep: &str) -> (r: String)
    ensures
        r@ == replace_seq(s@, pat@, rep@),
{
    let n = s.unicode_len();
    let m = pat.unicode_len();
    let mut out = String::new();
    if m == 0 {
        proof {
            assert(s@.subrange(0, n as int) =~= s@);
            assert(Seq::<char>::empty() + s@ =~= s@);
        }
        out.append(s);
        return out;
    }
    let mut j: usize = 0;
    proof {
        assert(s@.subrange(0, n as int) =~= s@);
        assert(Seq::<char>::empty() + replace_seq(s@, pat@, rep@) =~= replace_seq(
            s@,
            pat@,
            rep@,
        ));
    }
    loop
        invariant
            0 <= j <= n,
            n == s@.len(),
            m == pat@.len(),
            m >= 1,
            out@ + replace_seq(s@.subrange(j as int, n as int), pat@, rep@) =~= replace_seq(
                s@,
                pat@,
                rep@,
            ),
        decreases n - j,
    {
        let ghost rest = s@.subrange(j as int, n as int);
        if n - j < m {
            proof {
                assert(replace_seq(rest, pat@, rep@) == rest);
            }
            let tail = s.substring_char(j, n);
            out.append(tail);
            return out;
        }
        if crate::lexer::match_at_exec(s, j, pat) {
            proof {
                assert(rest.subrange(0, m as int) =~= s@.subrange(j as int, j + m));
                assert(rest.skip(m as int) =~= s@.subrange(j + m, n as int));
            }
            out.append(rep);
            j += m;
        } else {
            proof {
                assert(rest.subrange(0, m as int) =~= s@.subrange(j as int, j + m));
                assert(rest.skip(1) =~= s@.subrange(j + 1, n as int));
                assert(seq![rest[0]] =~= seq![s@[j as int]]);
            }
            out.push(s.get_char(j));
            j += 1;
        }
    }
}

} // verus!
