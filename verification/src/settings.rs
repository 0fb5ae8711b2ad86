//! Numeric settings typed into the settings dialog's inputs (auto-save
//! interval, font sizes, panel widths, reading progress).
use vstd::prelude::*;
use crate::properties::{
    all_digits, chars_of, digits_value, is_digit, lemma_decimal_digits_value, lemma_digits_value_grows,
};
use crate::text::decimal_digits;

verus! {

/// What `str::parse::<u32>` gives: an optional '+', then at least one
/// decimal digit, and a value that fits in a `u32`.
pub open spec fn parse_u32_spec(s: Seq<char>) -> Option<u32> {
    let body = if s.len() > 0 && s[0] == '+' { s.drop_first() } else { s };
    if body.len() == 0 || !all_digits(body) || digits_value(body) > u32::MAX {
        None
    } else {
        Some(digits_value(body) as u32)
    }
}

/// Parses a decimal `u32` as `str::parse` does; `None` when the text is
/// not one or the value does not fit.
pub fn parse_u32(text: &str) -> (value: Option<u32>)
    ensures
        value == parse_u32_spec(text@),
{
    let chars = chars_of(text);
    let n = chars.len();
    let ghost s = text@;
    let start: usize = if n > 0 && chars[0] == '+' { 1 } else { 0 };
    let ghost body = if s.len() > 0 && s[0] == '+' { s.drop_first() } else { s };
    proof {
        assert(body =~= s.subrange(start as int, n as int));
    }
    if start == n {
        return None;
    }
    let mut value: u64 = 0;
    let mut i = start;
    while i < n
        invariant
            s == text@,
            body == (if s.len() > 0 && s[0] == '+' { s.drop_first() } else { s }),
            chars@ == s,
            n == s.len(),
            start <= i <= n,
            body == s.subrange(start as int, n as int),
            value <= u32::MAX,
            value == digits_value(body.take(i - start)),
            all_digits(body.take(i - start)),
        decreases n - i,
    {
        let c = chars[i];
        proof {
            assert(body.take(i - start + 1).drop_last() =~= body.take(i - start));
            assert(body.take(i - start + 1).last() == c);
            assert(body[i - start] == c);
        }
        if !('0' <= c && c <= '9') {
            assert(!is_digit(body[i - start]));
            assert(!all_digits(body));
            return None;
        }
        value = value * 10 + (c as u64 - '0' as u64);
        assert(value == digits_value(body.take(i - start + 1)));
        proof {
            assert(all_digits(body.take(i - start + 1))) by {
                assert forall|j: int| 0 <= j < i - start + 1 implies is_digit(#[trigger] body.take(i - start + 1)[j]) by {
                    if j < i - start {
                        assert(body.take(i - start + 1)[j] == body.take(i - start)[j]);
                    }
                }
            }
        }
        if value > 4294967295u64 {
            proof {
                if all_digits(body) {
                    lemma_digits_value_grows(body, i - start + 1);
                }
            }
            return None;
        }
        i = i + 1;
    }
    proof {
        assert(body.take(n - start) =~= body);
    }
    Some(value as u32)
}

/// A numeric setting after its input changes: the typed value when the
/// text parses as a `u32`, else the value it had.
pub fn numeric_setting(current: u32, input: &str) -> (value: u32)
    ensures
        value == match parse_u32_spec(input@) {
            Some(v) => v,
            None => current,
        },
{
    match parse_u32(input) {
        Some(v) => v,
        None => current,
    }
}

/// A value typed as its decimal digits is read back as itself, and so is
/// the same with a leading '+'; a text starting with '-' is never a value.
pub proof fn lemma_parse_u32_reads_decimal(n: u32, text: Seq<char>)
    ensures
        parse_u32_spec(decimal_digits(n as nat)) == Some(n),
        parse_u32_spec(seq!['+'] + decimal_digits(n as nat)) == Some(n),
        text.len() > 0 && text[0] == '-' ==> parse_u32_spec(text) is None,
{
    lemma_decimal_digits_value(n as nat);
    let d = decimal_digits(n as nat);
    assert(is_digit(d[0]));
    assert((seq!['+'] + d).drop_first() =~= d);
    if text.len() > 0 && text[0] == '-' {
        assert(!is_digit(text[0]));
    }
}

} // verus!
