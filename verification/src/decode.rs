//! The result decoder: classifying the child process's exit status and its
//! captured standard output into a selection, an index, or a protocol
//! error.
//!
//! The order of the checks is deliberate: a cancellation (non-zero exit)
//! must be distinguishable from a truly empty chosen row, which must be
//! distinguishable from free text that is no number, which must be
//! distinguishable from a number outside the candidate range.

use vstd::prelude::*;

use crate::error::Error;
use crate::numeral::all_digits;
use crate::numeral::digits_val;
use crate::numeral::int_literal_val;
use crate::numeral::is_int_literal;
use crate::numeral::is_digit;
use crate::numeral::lemma_decimal_value;
use crate::numeral::lemma_digits_val_nonneg;
use crate::numeral::parse_digits;
use crate::numeral::spec_decimal;

verus! {

/// The child's output with a single trailing newline removed, if present.
pub open spec fn trim_newline(s: Seq<char>) -> Seq<char> {
    if s.len() > 0 && s.last() == '\n' {
        s.drop_last()
    } else {
        s
    }
}

/// Whether `v` fits the machine-sized signed integer type, whose lowest
/// value sits one below its negated highest.
pub open spec fn in_isize_range(v: int) -> bool {
    -(isize::MAX as int) - 1 <= v <= isize::MAX as int
}

/// What decoding a text-format answer yields: `Interrupted` on a failing
/// exit, otherwise the output minus one trailing newline, unless that
/// leaves nothing, which is `Blank`.
pub open spec fn spec_decode_text(success: bool, out: Seq<char>) -> Result<Seq<char>, Error> {
    if !success {
        Err(Error::Interrupted)
    } else {
        let t = trim_newline(out);
        if t.len() == 0 {
            Err(Error::Blank)
        } else {
            Ok(t)
        }
    }
}

/// What decoding an index-format answer yields against `n` candidates:
/// `Interrupted` on a failing exit; `Blank` on empty trimmed output; a
/// parse error unless the output is a signed decimal literal fitting the
/// machine-sized signed integer type; `NotFound` for a negative value or
/// one strictly above `n`; and the value itself otherwise.
pub open spec fn spec_decode_index(success: bool, out: Seq<char>, n: int) -> Result<usize, Error> {
    if !success {
        Err(Error::Interrupted)
    } else {
        let t = trim_newline(out);
        if t.len() == 0 {
            Err(Error::Blank)
        } else if !is_int_literal(t) || !in_isize_range(int_literal_val(t)) {
            Err(Error::ParseIntError)
        } else if int_literal_val(t) < 0 || int_literal_val(t) > n {
            Err(Error::NotFound)
        } else {
            Ok(int_literal_val(t) as usize)
        }
    }
}

/// Decodes a text-format answer from the child's exit status and captured
/// standard output.
pub fn decode_text(success: bool, output: &str) -> (r: Result<String, Error>)
    ensures
        match r {
            Ok(s) => spec_decode_text(success, output@) == Ok::<Seq<char>, Error>(s@),
            Err(e) => spec_decode_text(success, output@) == Err::<Seq<char>, Error>(e),
        },
{
    if !success {
        return Err(Error::Interrupted);
    }
    let n = output.unicode_len();
    let t: &str = if n > 0 && output.get_char(n - 1) == '\n' {
        let u = output.substring_char(0, n - 1);
        proof {
            assert(u@ =~= trim_newline(output@));
        }
        u
    } else {
        output
    };
    if t.unicode_len() == 0 {
        Err(Error::Blank)
    } else {
        Ok(t.to_owned())
    }
}

/// Decodes an index-format answer from the child's exit status and
/// captured standard output, against `num_elements` offered candidates.
pub fn decode_index(success: bool, output: &str, num_elements: usize) -> (r: Result<
    usize,
    Error,
>)
    ensures
        match r {
            Ok(i) => spec_decode_index(success, output@, num_elements as int) == Ok::<
                usize,
                Error,
            >(i),
            Err(e) => spec_decode_index(success, output@, num_elements as int) == Err::<
                usize,
                Error,
            >(e),
        },
{
    if !success {
        return Err(Error::Interrupted);
    }
    let n = output.unicode_len();
    let t: &str = if n > 0 && output.get_char(n - 1) == '\n' {
        let u = output.substring_char(0, n - 1);
        proof {
            assert(u@ =~= trim_newline(output@));
        }
        u
    } else {
        output
    };
    let ghost ts = trim_newline(output@);
    let tl = t.unicode_len();
    if tl == 0 {
        return Err(Error::Blank);
    }
    let first = t.get_char(0);
    let neg = first == '-';
    let plus = first == '+';
    let start: usize = if neg || plus {
        1
    } else {
        0
    };
    if (neg || plus) && tl == 1 {
        // A lone sign has no digits, so it is no literal.
        return Err(Error::ParseIntError);
    }
    let limit: u128 = if neg {
        (isize::MAX as u128) + 1
    } else {
        isize::MAX as u128
    };
    let ghost digits = ts.skip(start as int);
    proof {
        if !neg && !plus {
            assert(digits =~= ts);
        }
    }
    match parse_digits(t, start, limit) {
        Option::None => {
            proof {
                if all_digits(digits) {
                    // The digit run overflowed the limit, so the value
                    // cannot fit the signed machine integer.
                    lemma_digits_val_nonneg(digits);
                }
            }
            Err(Error::ParseIntError)
        },
        Option::Some(mag) => {
            proof {
                assert(is_int_literal(ts));
                if neg {
                    assert(int_literal_val(ts) == -(mag as int));
                } else {
                    assert(int_literal_val(ts) == mag as int);
                }
                assert(in_isize_range(int_literal_val(ts)));
            }
            if neg && mag > 0 {
                Err(Error::NotFound)
            } else if mag > num_elements as u128 {
                Err(Error::NotFound)
            } else {
                Ok(mag as usize)
            }
        },
    }
}

/// Whatever the child wrote, a failing exit status always decodes as an
/// interruption, in both the text and the index shape.
pub proof fn lemma_failing_exit_is_interrupted(out: Seq<char>, n: int)
    ensures
        spec_decode_text(false, out) == Err::<Seq<char>, Error>(Error::Interrupted),
        spec_decode_index(false, out, n) == Err::<usize, Error>(Error::Interrupted),
{
}

/// A successful exit whose output holds nothing beyond at most one
/// newline decodes as a blank selection, in both shapes.
pub proof fn lemma_empty_output_is_blank(out: Seq<char>, n: int)
    requires
        trim_newline(out).len() == 0,
    ensures
        spec_decode_text(true, out) == Err::<Seq<char>, Error>(Error::Blank),
        spec_decode_index(true, out, n) == Err::<usize, Error>(Error::Blank),
{
}

/// A well-formed index answer whose value lies strictly above the number
/// of candidates decodes as `NotFound`.
pub proof fn lemma_index_above_count_not_found(out: Seq<char>, n: int)
    requires
        is_int_literal(trim_newline(out)),
        in_isize_range(int_literal_val(trim_newline(out))),
        int_literal_val(trim_newline(out)) > n,
    ensures
        spec_decode_index(true, out, n) == Err::<usize, Error>(Error::NotFound),
{
}

/// Round trip for text answers: a child that echoes a non-empty line,
/// newline-terminated, always decodes to exactly that line.
pub proof fn lemma_echoed_text_round_trip(line: Seq<char>)
    requires
        line.len() > 0,
    ensures
        spec_decode_text(true, line + "\n"@) == Ok::<Seq<char>, Error>(line),
{
    reveal_strlit("\n");
    assert((line + "\n"@).last() == '\n');
    assert(trim_newline(line + "\n"@) =~= line);
}

/// Round trip from serialization to decoding: a child that answers the
/// decimal numeral of a valid index, newline-terminated, always decodes
/// to exactly that index.
pub proof fn lemma_echoed_index_round_trip(i: int, n: int)
    requires
        0 <= i <= n,
        i <= isize::MAX as int,
    ensures
        spec_decode_index(true, spec_decimal(i) + "\n"@, n) == Ok::<usize, Error>(i as usize),
{
    lemma_decimal_value(i);
    let out = spec_decimal(i) + "\n"@;
    reveal_strlit("\n");
    assert(out.last() == '\n');
    assert(trim_newline(out) =~= spec_decimal(i));
    let t = spec_decimal(i);
    assert(is_digit(t[0]));
    assert(t[0] != '+' && t[0] != '-');
    assert(is_int_literal(t));
    assert(int_literal_val(t) == i);
}

/// Non-empty output that is no signed decimal literal decodes as a parse
/// error in the index shape.
pub proof fn lemma_non_numeric_is_parse_error(out: Seq<char>, n: int)
    requires
        trim_newline(out).len() > 0,
        !is_int_literal(trim_newline(out)),
    ensures
        spec_decode_index(true, out, n) == Err::<usize, Error>(Error::ParseIntError),
{
}

} // verus!
