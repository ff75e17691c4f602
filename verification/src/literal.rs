use vstd::prelude::*;

use crate::error::CompileError;
use crate::error::ErrV;

verus! {

/// The value of `c` as a digit of the given base (10 or 16), if it is one.
/// Hexadecimal digits may be upper or lower case.
pub open spec fn digit_value(c: char, base: u32) -> Option<u32> {
    let cp = c as u32;
    if 48 <= cp && cp <= 57 {
        Some((cp - 48) as u32)
    } else if base == 16 && 97 <= cp && cp <= 102 {
        Some((cp - 97 + 10) as u32)
    } else if base == 16 && 65 <= cp && cp <= 70 {
        Some((cp - 65 + 10) as u32)
    } else {
        None
    }
}

pub open spec fn digit_or_zero(c: char, base: u32) -> nat {
    match digit_value(c, base) {
        Some(d) => d as nat,
        None => 0,
    }
}

pub open spec fn all_digits(s: Seq<char>, base: u32) -> bool {
    forall|i: int| 0 <= i < s.len() ==> (#[trigger] digit_value(s[i], base)) is Some
}

/// The numeric value of a digit string, most significant digit first; a
/// character that is no digit of the base counts as zero.
pub open spec fn digits_num(s: Seq<char>, base: u32) -> nat
    decreases s.len(),
{
    if s.len() == 0 {
        0
    } else {
        digits_num(s.drop_last(), base) * (base as nat) + digit_or_zero(s.last(), base)
    }
}

/// The value of a digit string as a `u32`: defined exactly when the text is
/// nonempty, every character is a digit of the base, and the value fits.
pub open spec fn radix_value(s: Seq<char>, base: u32) -> Option<u32> {
    if s.len() > 0 && all_digits(s, base) && digits_num(s, base) <= u32::MAX {
        Some(digits_num(s, base) as u32)
    } else {
        None
    }
}

/// The value of an operand literal. Three forms, in this priority order: a
/// quoted character (the text's second character is the value, as its code
/// point), a hexadecimal literal after a `0x` prefix, and a decimal literal.
pub open spec fn literal_value(s: Seq<char>) -> Option<u32> {
    if s.len() >= 1 && s[0] == '"' {
        if s.len() >= 2 {
            Some(s[1] as u32)
        } else {
            None
        }
    } else if s.len() >= 2 && s[0] == '0' && s[1] == 'x' {
        radix_value(s.subrange(2, s.len() as int), 16)
    } else {
        radix_value(s, 10)
    }
}

/// Extending a digit string by one character cannot lower its value.
proof fn lemma_digits_num_step(s: Seq<char>, base: u32, i: int)
    requires
        1 <= base,
        0 <= i < s.len(),
    ensures
        digits_num(s.subrange(0, i + 1), base) == digits_num(s.subrange(0, i), base) * (
        base as nat) + digit_or_zero(s[i], base),
        digits_num(s.subrange(0, i), base) <= digits_num(s.subrange(0, i + 1), base),
{
    let pre = s.subrange(0, i);
    let ext = s.subrange(0, i + 1);
    assert(ext.drop_last() =~= pre);
    assert(ext.last() == s[i]);
    assert(digits_num(pre, base) * (base as nat) >= digits_num(pre, base) * 1) by (nonlinear_arith)
        requires
            base >= 1,
    ;
}

/// A prefix of a digit string never has a larger value than the whole.
proof fn lemma_digits_num_prefix_le(s: Seq<char>, base: u32, i: int)
    requires
        1 <= base,
        0 <= i <= s.len(),
    ensures
        digits_num(s.subrange(0, i), base) <= digits_num(s, base),
    decreases s.len() - i,
{
    if i == s.len() {
        assert(s.subrange(0, i) =~= s);
    } else {
        lemma_digits_num_step(s, base, i);
        lemma_digits_num_prefix_le(s, base, i + 1);
    }
}

/// Classifies `c` as a digit of the base and returns its value.
fn digit_value_exec(c: char, base: u32) -> (r: Option<u32>)
    ensures
        r == digit_value(c, base),
{
    let cp = c as u32;
    if 48 <= cp && cp <= 57 {
        Some(cp - 48)
    } else if base == 16 && 97 <= cp && cp <= 102 {
        Some(cp - 97 + 10)
    } else if base == 16 && 65 <= cp && cp <= 70 {
        Some(cp - 65 + 10)
    } else {
        None
    }
}

/// Parses the characters of `text` from position `start` to the end as an
/// unsigned integer of the given base.
fn parse_radix(text: &str, start: usize, base: u32) -> (r: Result<u32, CompileError>)
    requires
        base == 10 || base == 16,
        start <= text@.len(),
    ensures
        (match r {
            Ok(v) => radix_value(text@.subrange(start as int, text@.len() as int), base) == Some(
                v,
            ),
            Err(e) => radix_value(text@.subrange(start as int, text@.len() as int), base) is None
                && e@ == ErrV::MalformedLiteral(text@),
        }),
{
    let ghost s = text@.subrange(start as int, text@.len() as int);
    let n = text.unicode_len();
    if n == start {
        return Err(CompileError::MalformedLiteral(text.to_owned()));
    }
    let mut acc: u32 = 0;
    let mut i = start;
    while i < n
        invariant
            start <= i <= n,
            n == text@.len(),
            start < n,
            base == 10 || base == 16,
            s == text@.subrange(start as int, n as int),
            all_digits(s.subrange(0, i - start), base),
            acc as nat == digits_num(s.subrange(0, i - start), base),
        decreases n - i,
    {
        let c = text.get_char(i);
        assert(c == s[i - start]);
        let ghost k = i - start;
        match digit_value_exec(c, base) {
            None => {
                assert(digit_value(s[k], base) is None);
                return Err(CompileError::MalformedLiteral(text.to_owned()));
            },
            Some(d) => {
                proof {
                    lemma_digits_num_step(s, base, k);
                }
                let grown = match acc.checked_mul(base) {
                    Some(m) => m.checked_add(d),
                    None => None,
                };
                match grown {
                    Some(v) => {
                        acc = v;
                    },
                    None => {
                        proof {
                            lemma_digits_num_prefix_le(s, base, k + 1);
                        }
                        return Err(CompileError::MalformedLiteral(text.to_owned()));
                    },
                }
            },
        }
        i = i + 1;
    }
    assert(s.subrange(0, i - start) =~= s);
    Ok(acc)
}

/// Produces the integer value of an operand literal, or reports
/// `MalformedLiteral` on any text that matches none of the three forms or
/// holds an invalid digit for the selected base.
pub fn parse_constant(text: &str) -> (r: Result<u32, CompileError>)
    ensures
        (match r {
            Ok(v) => literal_value(text@) == Some(v),
            Err(e) => literal_value(text@) is None && e@ == ErrV::MalformedLiteral(text@),
        }),
{
    let n = text.unicode_len();
    if n >= 1 && text.get_char(0) == '"' {
        if n >= 2 {
            Ok(text.get_char(1) as u32)
        } else {
            Err(CompileError::MalformedLiteral(text.to_owned()))
        }
    } else if n >= 2 && text.get_char(0) == '0' && text.get_char(1) == 'x' {
        parse_radix(text, 2, 16)
    } else {
        proof {
            assert(text@.subrange(0, text@.len() as int) =~= text@);
        }
        parse_radix(text, 0, 10)
    }
}

} // verus!
