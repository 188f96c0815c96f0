//! Decimal numerals: rendering a count as decimal text, and reading a
//! signed decimal literal back with the exact syntax and overflow rule of
//! the machine-sized signed integer type.

use vstd::prelude::*;

verus! {

/// The digit character standing for `d` (0 through 9).
pub open spec fn digit_char(d: int) -> char {
    if d == 0 {
        '0'
    } else if d == 1 {
        '1'
    } else if d == 2 {
        '2'
    } else if d == 3 {
        '3'
    } else if d == 4 {
        '4'
    } else if d == 5 {
        '5'
    } else if d == 6 {
        '6'
    } else if d == 7 {
        '7'
    } else if d == 8 {
        '8'
    } else {
        '9'
    }
}

/// Whether `c` is a decimal digit.
pub open spec fn is_digit(c: char) -> bool {
    48 <= c as int <= 57
}

/// Numeric value of a digit character.
pub open spec fn digit_val(c: char) -> int {
    c as int - 48
}

/// Value of a digit string, most significant digit first.
pub open spec fn digits_val(s: Seq<char>) -> int
    decreases s.len(),
{
    if s.len() == 0 {
        0
    } else {
        digits_val(s.drop_last()) * 10 + digit_val(s.last())
    }
}

/// Whether every character of `s` is a decimal digit.
pub open spec fn all_digits(s: Seq<char>) -> bool {
    forall|i: int| 0 <= i < s.len() ==> is_digit(s[i])
}

/// A signed decimal literal: an optional sign, then at least one digit.
/// This is the syntax the standard integer parser accepts.
pub open spec fn is_int_literal(s: Seq<char>) -> bool {
    if s.len() == 0 {
        false
    } else if s[0] == '+' || s[0] == '-' {
        s.len() > 1 && all_digits(s.skip(1))
    } else {
        all_digits(s)
    }
}

/// Value of a signed decimal literal.
pub open spec fn int_literal_val(s: Seq<char>) -> int
    recommends
        is_int_literal(s),
{
    if s.len() > 0 && s[0] == '-' {
        -digits_val(s.skip(1))
    } else if s.len() > 0 && s[0] == '+' {
        digits_val(s.skip(1))
    } else {
        digits_val(s)
    }
}

/// Decimal numeral of `n`: most significant digit first, no sign, and no
/// leading zero except in the numeral of zero itself.
pub open spec fn spec_decimal(n: int) -> Seq<char>
    recommends
        n >= 0,
    decreases n,
{
    if n < 10 {
        seq![digit_char(n)]
    } else {
        spec_decimal(n / 10).push(digit_char(n % 10))
    }
}

/// A digit string has a value of at least zero.
pub proof fn lemma_digits_val_nonneg(s: Seq<char>)
    requires
        all_digits(s),
    ensures
        digits_val(s) >= 0,
    decreases s.len(),
{
    if s.len() > 0 {
        lemma_digits_val_nonneg(s.drop_last());
    }
}

/// Extending a digit string to the right never shrinks its value: the value
/// of any prefix bounds the value of the whole from below.
pub proof fn lemma_digits_val_prefix_le(s: Seq<char>, i: int)
    requires
        all_digits(s),
        0 <= i <= s.len(),
    ensures
        digits_val(s.subrange(0, i)) <= digits_val(s),
    decreases s.len() - i,
{
    if i == s.len() {
        assert(s.subrange(0, i) =~= s);
    } else {
        let p = s.subrange(0, i);
        let q = s.subrange(0, i + 1);
        assert(q.drop_last() =~= p);
        lemma_digits_val_nonneg(p);
        lemma_digits_val_prefix_le(s, i + 1);
    }
}

/// A digit character stands for its own value.
pub proof fn lemma_digit_char_val(d: int)
    requires
        0 <= d <= 9,
    ensures
        is_digit(digit_char(d)),
        digit_val(digit_char(d)) == d,
{
}

/// The numeral of `n` is a non-empty digit string that reads back as `n`.
pub proof fn lemma_decimal_value(n: int)
    requires
        n >= 0,
    ensures
        all_digits(spec_decimal(n)),
        spec_decimal(n).len() >= 1,
        digits_val(spec_decimal(n)) == n,
    decreases n,
{
    if n < 10 {
        lemma_digit_char_val(n);
        assert(spec_decimal(n).drop_last() =~= Seq::<char>::empty());
        assert(digits_val(Seq::<char>::empty()) == 0);
        assert(spec_decimal(n).last() == digit_char(n));
    } else {
        assert(0 <= n / 10 < n && 0 <= n % 10 <= 9 && (n / 10) * 10 + n % 10 == n)
            by (nonlinear_arith)
            requires
                n >= 10,
        ;
        lemma_decimal_value(n / 10);
        lemma_digit_char_val(n % 10);
        assert(spec_decimal(n).drop_last() =~= spec_decimal(n / 10));
        assert(spec_decimal(n).last() == digit_char(n % 10));
    }
}

/// The numeral of a single digit.
fn digit_str(d: usize) -> (s: &'static str)
    requires
        d < 10,
    ensures
        s@ == seq![digit_char(d as int)],
{
    let s: &'static str = if d == 0 {
        "0"
    } else if d == 1 {
        "1"
    } else if d == 2 {
        "2"
    } else if d == 3 {
        "3"
    } else if d == 4 {
        "4"
    } else if d == 5 {
        "5"
    } else if d == 6 {
        "6"
    } else if d == 7 {
        "7"
    } else if d == 8 {
        "8"
    } else {
        "9"
    };
    proof {
        reveal_strlit("0");
        reveal_strlit("1");
        reveal_strlit("2");
        reveal_strlit("3");
        reveal_strlit("4");
        reveal_strlit("5");
        reveal_strlit("6");
        reveal_strlit("7");
        reveal_strlit("8");
        reveal_strlit("9");
        assert(s@ =~= seq![digit_char(d as int)]);
    }
    s
}

/// Renders `x` in decimal, exactly as `spec_decimal` describes.
pub fn decimal_string(x: usize) -> (s: String)
    ensures
        s@ == spec_decimal(x as int),
    decreases x,
{
    if x < 10 {
        digit_str(x).to_owned()
    } else {
        assert(x / 10 < x && x / 10 >= 1) by (nonlinear_arith)
            requires
                x >= 10,
        ;
        let mut s = decimal_string(x / 10);
        s.append(digit_str(x % 10));
        proof {
            assert(spec_decimal(x as int) =~= spec_decimal(x as int / 10) + seq![
                digit_char(x as int % 10),
            ]);
        }
        s
    }
}

/// Reads the digit run of `s` from position `start` on, most significant
/// digit first, accepting the value only while it stays at or below
/// `limit`.  Returns the value when the run reaches the end of `s` without
/// a stray character or an excursion above the limit, and nothing
/// otherwise.
pub fn parse_digits(s: &str, start: usize, limit: u128) -> (r: Option<u128>)
    requires
        start as int <= s@.len(),
        limit <= 0xffff_ffff_ffff_ffff,
    ensures
        ({
            let t = s@.skip(start as int);
            match r {
                Some(m) => all_digits(t) && m as int == digits_val(t) && m <= limit,
                None => !all_digits(t) || digits_val(t) > limit,
            }
        }),
{
    let ghost t = s@.skip(start as int);
    let len = s.unicode_len();
    let mut mag: u128 = 0;
    let mut i = start;
    while i < len
        invariant
            start <= i <= len,
            len == s@.len(),
            limit <= 0xffff_ffff_ffff_ffff,
            mag <= limit,
            t == s@.skip(start as int),
            all_digits(s@.subrange(start as int, i as int)),
            mag as int == digits_val(s@.subrange(start as int, i as int)),
        decreases len - i,
    {
        let c = s.get_char(i);
        let cu = c as u32;
        if cu < 48 || cu > 57 {
            proof {
                assert(t[i as int - start as int] == s@[i as int]);
            }
            return None;
        }
        let d: u128 = (cu - 48) as u128;
        let next: u128 = mag * 10 + d;
        proof {
            let prev = s@.subrange(start as int, i as int);
            let p = s@.subrange(start as int, i as int + 1);
            assert(p.drop_last() =~= prev);
            assert(p.last() == s@[i as int]);
            assert(digit_val(s@[i as int]) == d);
            assert(digits_val(p) == digits_val(prev) * 10 + digit_val(s@[i as int]));
            assert(digits_val(p) == next);
        }
        if next > limit {
            proof {
                let p = s@.subrange(start as int, i as int + 1);
                if all_digits(t) {
                    assert(p =~= t.subrange(0, i as int - start as int + 1));
                    lemma_digits_val_prefix_le(t, i as int - start as int + 1);
                }
            }
            return None;
        }
        mag = next;
        i = i + 1;
    }
    proof {
        assert(s@.subrange(start as int, len as int) =~= t);
    }
    Some(mag)
}

} // verus!
