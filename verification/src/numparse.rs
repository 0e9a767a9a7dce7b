//! Verified parsing of signed decimal integers, as the frame grammar needs
//! it for timestamp strings.

use vstd::prelude::*;
use vstd::string::StrSliceExecFns;

verus! {

/// An ASCII decimal digit.
pub open spec fn is_digit(c: char) -> bool {
    '0' <= c && c <= '9'
}

/// Every character is a digit.
pub open spec fn all_digits(s: Seq<char>) -> bool {
    forall|i: int| 0 <= i < s.len() ==> is_digit(s[i])
}

/// The value of a digit string, most significant first.
pub open spec fn spec_digits_val(s: Seq<char>) -> int
    decreases s.len(),
{
    if s.len() == 0 {
        0
    } else {
        10 * spec_digits_val(s.drop_last()) + (s.last() as u32 - 48)
    }
}

/// The value denoted by a decimal string with an optional sign, or `None`
/// when the string is malformed or its value does not fit an `i64`.
pub open spec fn spec_parse_i64(s: Seq<char>) -> Option<i64> {
    let neg = s.len() > 0 && s[0] == '-';
    let body = if s.len() > 0 && (s[0] == '-' || s[0] == '+') {
        s.subrange(1, s.len() as int)
    } else {
        s
    };
    if body.len() == 0 || !all_digits(body) {
        None
    } else {
        let mag = spec_digits_val(body);
        if neg {
            if -mag >= i64::MIN {
                Some((-mag) as i64)
            } else {
                None
            }
        } else {
            if mag <= i64::MAX {
                Some(mag as i64)
            } else {
                None
            }
        }
    }
}

/// A digit string's value never shrinks as it is extended.
proof fn lemma_digits_val_monotone(s: Seq<char>, i: int)
    requires
        0 <= i <= s.len(),
        all_digits(s),
    ensures
        spec_digits_val(s) >= spec_digits_val(s.subrange(0, i)),
        spec_digits_val(s) >= 0,
    decreases s.len() - i,
{
    if i == s.len() {
        assert(s.subrange(0, i) =~= s);
        lemma_digits_val_nonneg(s);
    } else {
        lemma_digits_val_monotone(s, i + 1);
        assert(s.subrange(0, i + 1).drop_last() =~= s.subrange(0, i));
        lemma_digits_val_nonneg(s.subrange(0, i));
        assert(s.subrange(0, i + 1).last() == s[i]);
    }
}

/// The value of a digit string is non-negative.
proof fn lemma_digits_val_nonneg(s: Seq<char>)
    requires
        all_digits(s),
    ensures
        spec_digits_val(s) >= 0,
    decreases s.len(),
{
    if s.len() > 0 {
        assert(all_digits(s.drop_last())) by {
            assert(forall|i: int| 0 <= i < s.len() - 1 ==> s.drop_last()[i] == s[i]);
        }
        lemma_digits_val_nonneg(s.drop_last());
    }
}

/// Parse a decimal integer with an optional leading sign.
///
/// Returns `None` exactly when the string is empty, has a character other
/// than a digit after the optional sign, or denotes a value outside the
/// `i64` range.
pub fn parse_i64(s: &str) -> (r: Option<i64>)
    ensures
        r == spec_parse_i64(s@),
{
    let len = s.unicode_len();
    if len == 0 {
        return None;
    }
    let first = s.get_char(0);
    let start: usize = if first == '-' || first == '+' {
        1
    } else {
        0
    };
    let neg = first == '-';
    if start == len {
        return None;
    }
    let ghost body = if first == '-' || first == '+' {
        s@.subrange(1, s@.len() as int)
    } else {
        s@
    };
    // Accumulate the negated value so that `i64::MIN` is representable.
    let mut acc: i64 = 0;
    let mut i = start;
    while i < len
        invariant
            len == s@.len(),
            start <= i <= len,
            start == if s@[0] == '-' || s@[0] == '+' {
                1int
            } else {
                0int
            },
            body == s@.subrange(start as int, len as int),
            body.len() == len - start,
            forall|j: int| 0 <= j < i - start ==> is_digit(body[j]),
            acc == -spec_digits_val(body.subrange(0, i - start)),
        decreases len - i,
    {
        let c = s.get_char(i);
        if !('0' <= c && c <= '9') {
            proof {
                assert(!is_digit(body[i - start]));
            }
            return None;
        }
        let d = (c as u32 - 48) as i64;
        let next = match acc.checked_mul(10) {
            Some(m) => m.checked_sub(d),
            None => None,
        };
        match next {
            Some(v) => {
                proof {
                    assert(body.subrange(0, i - start + 1).drop_last() =~= body.subrange(
                        0,
                        i - start,
                    ));
                    assert(body.subrange(0, i - start + 1).last() == body[i - start]);
                }
                acc = v;
            },
            None => {
                // The value so far already exceeds the i64 range; it can
                // only grow with more digits.
                proof {
                    let pre = body.subrange(0, i - start);
                    let pre1 = body.subrange(0, i - start + 1);
                    assert(pre1.drop_last() =~= pre);
                    assert(pre1.last() == body[i - start]);
                    assert(all_digits(pre));
                    lemma_digits_val_nonneg(pre);
                    assert(spec_digits_val(pre1) == 10 * spec_digits_val(pre) + (body[i - start]
                        as u32 - 48));
                    assert(spec_digits_val(pre1) > 0x8000_0000_0000_0000);
                    if all_digits(body) {
                        lemma_digits_val_monotone(body, i - start + 1);
                        assert(spec_digits_val(body) >= spec_digits_val(pre1));
                    }
                    assert(s@.subrange(0, s@.len() as int) =~= s@);
                }
                return None;
            },
        }
        i = i + 1;
    }
    proof {
        assert(body.subrange(0, (len - start) as int) =~= body);
        lemma_digits_val_nonneg(body);
    }
    if neg {
        Some(acc)
    } else {
        match 0i64.checked_sub(acc) {
            Some(v) => Some(v),
            None => None,
        }
    }
}


/// The character for a single decimal digit.
pub open spec fn digit_char(n: int) -> char {
    if n == 0 {
        '0'
    } else if n == 1 {
        '1'
    } else if n == 2 {
        '2'
    } else if n == 3 {
        '3'
    } else if n == 4 {
        '4'
    } else if n == 5 {
        '5'
    } else if n == 6 {
        '6'
    } else if n == 7 {
        '7'
    } else if n == 8 {
        '8'
    } else {
        '9'
    }
}

/// The canonical decimal rendering of a non-negative value.
pub open spec fn spec_format_u64(n: int) -> Seq<char>
    decreases n,
{
    if n < 10 {
        seq![digit_char(n)]
    } else {
        spec_format_u64(n / 10).push(digit_char(n % 10))
    }
}

/// The canonical decimal rendering of a signed value.
pub open spec fn spec_format_i64(n: int) -> Seq<char> {
    if n < 0 {
        seq!['-'] + spec_format_u64(-n)
    } else {
        spec_format_u64(n)
    }
}

/// The one-character string for a decimal digit.
fn digit_str(d: u64) -> (r: &'static str)
    requires
        d < 10,
    ensures
        r@ == seq![digit_char(d as int)],
{
    let r: &'static str = match d {
        0 => "0",
        1 => "1",
        2 => "2",
        3 => "3",
        4 => "4",
        5 => "5",
        6 => "6",
        7 => "7",
        8 => "8",
        _ => "9",
    };
    proof {
        reveal_strlit("0");
        reveal_strlit("1");
        reveal_strlit("2");
        reveal_strlit("3");
        reveal_strlit("4");
        reveal_strlit("5");
        reveal_strlit("6");
        reveal_strlit("7");
        reveal_strlit("8");
        reveal_strlit("9");
        assert(r@ =~= seq![digit_char(d as int)]);
    }
    r
}

/// Render a non-negative value in decimal.
fn format_u64(n: u64) -> (r: String)
    ensures
        r@ == spec_format_u64(n as int),
    decreases n,
{
    if n < 10 {
        digit_str(n).to_owned()
    } else {
        let mut s = format_u64(n / 10);
        s.append(digit_str(n % 10));
        proof {
            assert(s@ =~= spec_format_u64(n as int / 10).push(digit_char(n as int % 10)));
        }
        s
    }
}

/// Render a signed value in decimal, as formatting would.
pub fn format_i64(n: i64) -> (r: String)
    ensures
        r@ == spec_format_i64(n as int),
{
    if n >= 0 {
        format_u64(n as u64)
    } else {
        let mag: u64 = if n == i64::MIN {
            9_223_372_036_854_775_808u64
        } else {
            (-n) as u64
        };
        let mut s = "-".to_owned();
        let rest = format_u64(mag);
        s.append(rest.as_str());
        proof {
            reveal_strlit("-");
            assert(s@ =~= seq!['-'] + spec_format_u64(-(n as int)));
        }
        s
    }
}

} // verus!
