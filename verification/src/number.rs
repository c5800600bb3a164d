use vstd::prelude::*;

use crate::text::{chars_of, trim, trimmed};

verus! {

/// `c` is one of the ASCII digits `0` to `9`.
pub open spec fn is_ascii_digit(c: char) -> bool {
    48 <= (c as u32) <= 57
}

/// The value of an ASCII digit.
pub open spec fn digit_value(c: char) -> int {
    (c as u32) - 48
}

/// Every character of `s` is an ASCII digit.
pub open spec fn all_digits(s: Seq<char>) -> bool {
    forall|i: int| 0 <= i < s.len() ==> is_ascii_digit(#[trigger] s[i])
}

/// The decimal value of a string of digits.
pub open spec fn digits_value(s: Seq<char>) -> int
    decreases s.len(),
{
    if s.len() == 0 {
        0
    } else {
        digits_value(s.drop_last()) * 10 + digit_value(s.last())
    }
}

/// Splits off an optional leading sign: whether the number is negative, and
/// the characters after the sign.
pub open spec fn split_sign(s: Seq<char>) -> (bool, Seq<char>) {
    if s.len() > 0 && s[0] == '-' {
        (true, s.drop_first())
    } else if s.len() > 0 && s[0] == '+' {
        (false, s.drop_first())
    } else {
        (false, s)
    }
}

/// What `str::parse::<i32>` gives, as an `Option`: an optional `+` or `-`,
/// then at least one ASCII digit and nothing else, with a value that fits
/// in an `i32`.
pub open spec fn parsed_i32(s: Seq<char>) -> Option<i32> {
    let (negative, digits) = split_sign(s);
    if digits.len() == 0 || !all_digits(digits) {
        None
    } else {
        let v = if negative {
            -digits_value(digits)
        } else {
            digits_value(digits)
        };
        if i32::MIN <= v <= i32::MAX {
            Some(v as i32)
        } else {
            None
        }
    }
}

proof fn lemma_digits_value_nonneg(s: Seq<char>)
    requires
        all_digits(s),
    ensures
        digits_value(s) >= 0,
    decreases s.len(),
{
    if s.len() > 0 {
        assert(is_ascii_digit(s[s.len() - 1]));
        lemma_digits_value_nonneg(s.drop_last());
    }
}

proof fn lemma_digits_value_prefix(s: Seq<char>, j: int)
    requires
        all_digits(s),
        0 <= j <= s.len(),
    ensures
        digits_value(s.take(j)) <= digits_value(s),
    decreases s.len(),
{
    if j == s.len() {
        assert(s.take(j) =~= s);
    } else {
        let t = s.drop_last();
        assert(all_digits(t)) by {
            assert forall|i: int| 0 <= i < t.len() implies is_ascii_digit(#[trigger] t[i]) by {
                assert(t[i] == s[i]);
            }
        }
        lemma_digits_value_prefix(t, j);
        assert(t.take(j) =~= s.take(j));
        lemma_digits_value_nonneg(t);
        assert(is_ascii_digit(s[s.len() - 1]));
    }
}

/// Exactly the ten characters `0` to `9` parse on their own, each to its
/// digit value.
pub proof fn lemma_single_characters(c: char)
    ensures
        parsed_i32(seq![c]) == if 48 <= (c as u32) <= 57 {
            Some(((c as u32) - 48) as i32)
        } else {
            None::<i32>
        },
{
    let s = seq![c];
    if c == '-' || c == '+' {
        assert(s.drop_first().len() == 0);
    } else {
        assert(split_sign(s).1 == s);
        assert(s.drop_last().len() == 0);
        assert(digits_value(s.drop_last()) == 0);
        assert(s.last() == c);
        assert(digits_value(s) == digit_value(c));
        if 48 <= (c as u32) <= 57 {
            assert(all_digits(s));
        } else {
            assert(!is_ascii_digit(s[0]));
        }
    }
}

/// Appending a digit to an unsigned number multiplies its value by ten and
/// adds the digit, as long as the result still fits in an `i32`.
pub proof fn lemma_append_digit(s: Seq<char>, c: char, v: i32)
    requires
        s.len() > 0,
        48 <= (s[0] as u32) <= 57,
        parsed_i32(s) == Some(v),
        48 <= (c as u32) <= 57,
    ensures
        parsed_i32(s.push(c)) == if v * 10 + ((c as u32) - 48) <= i32::MAX {
            Some((v * 10 + ((c as u32) - 48)) as i32)
        } else {
            None::<i32>
        },
{
    let t = s.push(c);
    assert(t[0] == s[0]);
    assert(split_sign(s) == (false, s));
    assert(split_sign(t) == (false, t));
    assert(t.drop_last() =~= s);
    assert(all_digits(t)) by {
        assert forall|i: int| 0 <= i < t.len() implies is_ascii_digit(#[trigger] t[i]) by {
            if i < s.len() {
                assert(t[i] == s[i]);
            }
        }
    }
    lemma_digits_value_nonneg(s);
}

/// A text that ends in anything but a digit never parses.
pub proof fn lemma_append_non_digit(s: Seq<char>, c: char)
    requires
        !(48 <= (c as u32) <= 57),
    ensures
        parsed_i32(s.push(c)) is None,
{
    let t = s.push(c);
    let d = split_sign(t).1;
    if d.len() > 0 {
        assert(d[d.len() - 1] == c);
        assert(!is_ascii_digit(d[d.len() - 1]));
    }
}

/// A leading `+` keeps the value of an unsigned number and a leading `-`
/// negates it.
pub proof fn lemma_signs(s: Seq<char>, v: i32)
    requires
        s.len() > 0,
        48 <= (s[0] as u32) <= 57,
        parsed_i32(s) == Some(v),
    ensures
        parsed_i32(seq!['+'] + s) == Some(v),
        parsed_i32(seq!['-'] + s) == Some((-v) as i32),
{
    assert(split_sign(s) == (false, s));
    assert((seq!['+'] + s).drop_first() =~= s);
    assert((seq!['-'] + s).drop_first() =~= s);
    lemma_digits_value_nonneg(s);
}

/// `str::parse::<i32>`, written out: the value of a signed decimal number,
/// or `None` when the text is not one or does not fit in an `i32`.
pub fn parse_i32(s: &str) -> (r: Option<i32>)
    ensures
        r == parsed_i32(s@),
{
    let v = chars_of(s);
    let n = v.len();
    let mut negative = false;
    let mut start: usize = 0;
    if n > 0 && v[0] == '-' {
        negative = true;
        start = 1;
    } else if n > 0 && v[0] == '+' {
        start = 1;
    }
    let ghost digits = v@.subrange(start as int, n as int);
    assert(split_sign(s@) == (negative, digits)) by {
        if start == 1 {
            assert(digits =~= v@.drop_first());
        } else {
            assert(digits =~= v@);
        }
    }
    if start == n {
        return None;
    }
    let mut acc: u64 = 0;
    let mut k: usize = start;
    while k < n
        invariant
            n == v@.len(),
            v@ == s@,
            split_sign(s@) == (negative, digits),
            start < n,
            start <= k <= n,
            digits == v@.subrange(start as int, n as int),
            all_digits(v@.subrange(start as int, k as int)),
            acc == digits_value(v@.subrange(start as int, k as int)),
            acc <= 2147483648,
        decreases n - k,
    {
        let c = v[k];
        let code = c as u32;
        if code < 48 || code > 57 {
            proof {
                assert(digits[k - start] == c);
                assert(!all_digits(digits));
            }
            return None;
        }
        let next = acc * 10 + (code - 48) as u64;
        proof {
            let p = v@.subrange(start as int, k + 1);
            assert(p.drop_last() =~= v@.subrange(start as int, k as int));
            assert(p.last() == c);
            assert(all_digits(p)) by {
                assert forall|i: int| 0 <= i < p.len() implies is_ascii_digit(#[trigger] p[i]) by {
                    if i < p.len() - 1 {
                        assert(p[i] == v@.subrange(start as int, k as int)[i]);
                    }
                }
            }
            assert(next == digits_value(p));
        }
        if next > 2147483648 {
            proof {
                let p = v@.subrange(start as int, k + 1);
                if all_digits(digits) {
                    assert(digits.take(k + 1 - start) =~= p);
                    lemma_digits_value_prefix(digits, k + 1 - start);
                }
            }
            return None;
        }
        acc = next;
        k = k + 1;
    }
    assert(v@.subrange(start as int, k as int) =~= digits);
    if negative {
        let m = acc as i64;
        Some((0 - m) as i32)
    } else if acc <= 2147483647 {
        Some(acc as i32)
    } else {
        None
    }
}

/// Whether `value` is accepted as an integer: its trimmed text parses as an `i32`.
pub fn is_valid_integer(value: &str) -> (b: bool)
    ensures
        b == parsed_i32(trimmed(value@)) is Some,
{
    let t = trim(value);
    parse_i32(t.as_str()).is_some()
}

} // verus!
