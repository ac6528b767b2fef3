use vstd::prelude::*;
use vstd::string::*;
use crate::ast::Lit;
use crate::errors::LowerError;
use crate::strutil::str_eq;

verus! {

/// Whether `c` is a base-10 digit.
pub open spec fn is_digit(c: char) -> bool {
    48 <= c as u32 <= 57
}

/// The numeric value of a digit character.
pub open spec fn digit_val(c: char) -> int {
    c as u32 - 48
}

/// Whether every character of `s` is a base-10 digit.
pub open spec fn all_digits(s: Seq<char>) -> bool {
    forall|i: int| 0 <= i < s.len() ==> is_digit(#[trigger] s[i])
}

/// The value of an all-digit lexeme, most significant digit first.
pub open spec fn digits_val(s: Seq<char>) -> int
    decreases s.len(),
{
    if s.len() == 0 {
        0
    } else {
        digits_val(s.drop_last()) * 10 + digit_val(s.last())
    }
}

/// The digit value of an all-digit lexeme is never negative.
pub proof fn lemma_digits_val_nonneg(s: Seq<char>)
    requires
        all_digits(s),
    ensures
        digits_val(s) >= 0,
    decreases s.len(),
{
    if s.len() > 0 {
        assert(all_digits(s.drop_last()));
        lemma_digits_val_nonneg(s.drop_last());
    }
}

/// Dropping trailing digits never increases the value.
pub proof fn lemma_digits_val_take_le(s: Seq<char>, k: int)
    requires
        all_digits(s),
        0 <= k <= s.len(),
    ensures
        digits_val(s.take(k)) <= digits_val(s),
    decreases s.len(),
{
    if k == s.len() {
        assert(s.take(k) =~= s);
    } else {
        assert(all_digits(s.drop_last()));
        assert(s.take(k) =~= s.drop_last().take(k));
        lemma_digits_val_take_le(s.drop_last(), k);
        lemma_digits_val_nonneg(s.drop_last());
    }
}

/// What a base-10 signed 64-bit integer lexeme denotes: an optional sign,
/// then one or more digits, with the value in range; `None` otherwise.
pub open spec fn spec_parse_i64(s: Seq<char>) -> Option<i64> {
    if s.len() > 0 && (s[0] == '-' || s[0] == '+') {
        spec_parse_i64_signed(s.skip(1), s[0] == '-')
    } else {
        spec_parse_i64_signed(s, false)
    }
}

/// The digits part of an integer lexeme, after the sign is stripped.
pub open spec fn spec_parse_i64_signed(ds: Seq<char>, neg: bool) -> Option<i64> {
    if ds.len() == 0 || !all_digits(ds) {
        None
    } else {
        let v = digits_val(ds);
        if neg {
            if v <= 0x8000_0000_0000_0000 {
                Some((-v) as i64)
            } else {
                None
            }
        } else {
            if v <= 0x7fff_ffff_ffff_ffff {
                Some(v as i64)
            } else {
                None
            }
        }
    }
}

/// Parse a base-10 signed 64-bit integer lexeme.
pub fn parse_i64_lexeme(s: &str) -> (r: Option<i64>)
    ensures
        r == spec_parse_i64(s@),
{
    let len = s.unicode_len();
    if len == 0 {
        return None;
    }
    let first = s.get_char(0);
    let neg = first == '-';
    let has_sign = neg || first == '+';
    let start: usize = if has_sign {
        1
    } else {
        0
    };
    let ghost ds = if has_sign {
        s@.skip(1)
    } else {
        s@
    };
    proof {
        assert(ds.len() == len - start);
        assert(forall|j: int| 0 <= j < ds.len() ==> ds[j] == s@[j + start]);
    }
    if start == len {
        return None;
    }
    let mut i: usize = start;
    let mut acc: u64 = 0;
    let mut overflow = false;
    while i < len
        invariant
            len == s@.len(),
            s@.len() > 0,
            start <= i <= len,
            start < len,
            has_sign == (s@[0] == '-' || s@[0] == '+'),
            neg == (s@[0] == '-'),
            start == if has_sign { 1int } else { 0int },
            ds == if has_sign { s@.skip(1) } else { s@ },
            ds.len() == len - start,
            forall|j: int| 0 <= j < ds.len() ==> ds[j] == s@[j + start],
            forall|j: int| 0 <= j < i - start ==> is_digit(#[trigger] ds[j]),
            !overflow ==> acc as int == digits_val(ds.take(i - start)),
            overflow ==> digits_val(ds.take(i - start)) > 0xffff_ffff_ffff_ffff,
        decreases len - i,
    {
        let c = s.get_char(i);
        let cv = c as u32;
        if cv < 48 || cv > 57 {
            proof {
                assert(ds[i - start] == c);
                assert(!is_digit(ds[i - start]));
                assert(!all_digits(ds));
            }
            return None;
        }
        let d: u64 = (cv - 48) as u64;
        proof {
            assert(ds.take(i + 1 - start).drop_last() =~= ds.take(i - start));
            assert(ds.take(i + 1 - start).last() == ds[i - start]);
            assert(ds[i - start] == c);
            assert(digits_val(ds.take(i + 1 - start)) == digits_val(ds.take(i - start)) * 10
                + digit_val(c));
        }
        if overflow {
            proof {
                lemma_digits_val_nonneg_prefix(ds, i - start);
                assert(digits_val(ds.take(i + 1 - start)) > 0xffff_ffff_ffff_ffff);
            }
        } else if acc > 1844674407370955161u64 {
            overflow = true;
            proof {
                assert(digits_val(ds.take(i + 1 - start)) > 0xffff_ffff_ffff_ffff);
            }
        } else {
            let acc10 = acc * 10;
            if acc10 > 0xffff_ffff_ffff_ffffu64 - d {
                overflow = true;
                proof {
                    assert(digits_val(ds.take(i + 1 - start)) > 0xffff_ffff_ffff_ffff);
                }
            } else {
                acc = acc10 + d;
            }
        }
        i = i + 1;
    }
    proof {
        assert(ds.take(i - start) =~= ds);
        assert(all_digits(ds));
    }
    if overflow {
        return None;
    }
    if neg {
        if acc > 0x8000_0000_0000_0000u64 {
            None
        } else if acc == 0x8000_0000_0000_0000u64 {
            Some(i64::MIN)
        } else {
            Some(-(acc as i64))
        }
    } else {
        if acc > 0x7fff_ffff_ffff_ffffu64 {
            None
        } else {
            Some(acc as i64)
        }
    }
}

/// A prefix of digits has a nonnegative value (helper stated on a prefix
/// of a partly checked lexeme).
proof fn lemma_digits_val_nonneg_prefix(s: Seq<char>, k: int)
    requires
        0 <= k <= s.len(),
        forall|j: int| 0 <= j < k ==> is_digit(#[trigger] s[j]),
    ensures
        digits_val(s.take(k)) >= 0,
{
    assert(all_digits(s.take(k)));
    lemma_digits_val_nonneg(s.take(k));
}

/// What a character literal denotes: the ordinal value of its single
/// Unicode scalar, as a signed 64-bit value; `None` if the lexeme does
/// not hold exactly one character.
pub open spec fn spec_char_val(s: Seq<char>) -> Option<i64> {
    if s.len() == 1 {
        Some(((s[0] as u32) as i64))
    } else {
        None
    }
}

/// Parse a character lexeme to its ordinal value.
pub fn parse_char_lexeme(s: &str) -> (r: Option<i64>)
    ensures
        r == spec_char_val(s@),
{
    if s.unicode_len() == 1 {
        let c = s.get_char(0);
        Some((c as u32) as i64)
    } else {
        None
    }
}

/// What a boolean literal denotes: `true` maps to 1, `false` to 0.
pub open spec fn spec_bool_val(s: Seq<char>) -> Option<i64> {
    if s == "true"@ {
        Some(1)
    } else if s == "false"@ {
        Some(0)
    } else {
        None
    }
}

/// Parse a boolean lexeme to its numeric value.
pub fn parse_bool_lexeme(s: &str) -> (r: Option<i64>)
    ensures
        r == spec_bool_val(s@),
{
    if str_eq(s, "true") {
        Some(1)
    } else if str_eq(s, "false") {
        Some(0)
    } else {
        None
    }
}

/// What evaluating a literal node yields: its numeric value, or the
/// taxonomy kind of its failure. Malformed text gives
/// `LiteralParseError`; string and null literals are explicitly
/// unsupported.
pub open spec fn spec_eval_literal(lit: Lit) -> Result<i64, LowerError> {
    match lit {
        Lit::Number(s) => match spec_parse_i64(s@) {
            Some(v) => Ok(v),
            None => Err(LowerError::LiteralParseError),
        },
        Lit::Char(s) => match spec_char_val(s@) {
            Some(v) => Ok(v),
            None => Err(LowerError::LiteralParseError),
        },
        Lit::Boolean(s) => match spec_bool_val(s@) {
            Some(v) => Ok(v),
            None => Err(LowerError::LiteralParseError),
        },
        Lit::Str(s) => Err(LowerError::Unsupported),
        Lit::Null => Err(LowerError::Unsupported),
    }
}

/// Reduce a literal node to its numeric value: integers in base 10,
/// characters to their ordinal, booleans to 1 or 0.
pub fn eval_literal(lit: &Lit) -> (r: Result<i64, LowerError>)
    ensures
        r == spec_eval_literal(*lit),
{
    match lit {
        Lit::Number(s) => match parse_i64_lexeme(s.as_str()) {
            Some(v) => Ok(v),
            None => Err(LowerError::LiteralParseError),
        },
        Lit::Char(s) => match parse_char_lexeme(s.as_str()) {
            Some(v) => Ok(v),
            None => Err(LowerError::LiteralParseError),
        },
        Lit::Boolean(s) => match parse_bool_lexeme(s.as_str()) {
            Some(v) => Ok(v),
            None => Err(LowerError::LiteralParseError),
        },
        Lit::Str(_) => Err(LowerError::Unsupported),
        Lit::Null => Err(LowerError::Unsupported),
    }
}

} // verus!
