use vstd::prelude::*;

verus! {

/// Decimal digit test.
pub open spec fn is_digit(c: char) -> bool {
    c == '0' || c == '1' || c == '2' || c == '3' || c == '4' || c == '5' || c == '6' || c == '7'
        || c == '8' || c == '9'
}

/// Value of a decimal digit; non-digits count as zero so the function is
/// total and never negative.
pub open spec fn digit_val(c: char) -> int {
    if c == '1' {
        1
    } else if c == '2' {
        2
    } else if c == '3' {
        3
    } else if c == '4' {
        4
    } else if c == '5' {
        5
    } else if c == '6' {
        6
    } else if c == '7' {
        7
    } else if c == '8' {
        8
    } else if c == '9' {
        9
    } else {
        0
    }
}

/// Value of a digit string, most significant digit first.
pub open spec fn digits_val(s: Seq<char>) -> int
    decreases s.len(),
{
    if s.len() == 0 {
        0
    } else {
        digits_val(s.drop_last()) * 10 + digit_val(s.last())
    }
}

pub open spec fn all_digits(s: Seq<char>) -> bool {
    forall|i: int| 0 <= i < s.len() ==> is_digit(#[trigger] s[i])
}

/// Whether `s` has the shape of a signed decimal integer token: an optional
/// `+` or `-` sign followed by at least one digit, nothing else.
pub open spec fn is_int_shape(s: Seq<char>) -> bool {
    if s.len() == 0 {
        false
    } else if s[0] == '+' || s[0] == '-' {
        s.len() > 1 && all_digits(s.drop_first())
    } else {
        all_digits(s)
    }
}

/// The integer a well-shaped token denotes.
pub open spec fn int_literal_value(s: Seq<char>) -> int {
    if s.len() > 0 && (s[0] == '+' || s[0] == '-') {
        if s[0] == '-' {
            -digits_val(s.drop_first())
        } else {
            digits_val(s.drop_first())
        }
    } else {
        digits_val(s)
    }
}

/// Whether `s` is a token that `i64` parsing accepts: well shaped and with
/// a value in the `i64` range.
pub open spec fn is_i64_literal(s: Seq<char>) -> bool {
    is_int_shape(s) && i64::MIN <= int_literal_value(s) <= i64::MAX
}

pub proof fn lemma_digits_val_nonneg(s: Seq<char>)
    ensures
        digits_val(s) >= 0,
    decreases s.len(),
{
    if s.len() > 0 {
        lemma_digits_val_nonneg(s.drop_last());
    }
}

/// A digit string is worth at least any of its prefixes.
pub proof fn lemma_digits_val_prefix(s: Seq<char>, k: int)
    requires
        0 <= k <= s.len(),
    ensures
        digits_val(s.take(k)) <= digits_val(s),
    decreases s.len(),
{
    if k < s.len() {
        assert(s.drop_last().take(k) =~= s.take(k));
        lemma_digits_val_prefix(s.drop_last(), k);
        lemma_digits_val_nonneg(s.drop_last());
    } else {
        assert(s.take(k) =~= s);
    }
}

/// Executable digit classifier.
pub fn digit_of(c: char) -> (r: Option<u8>)
    ensures
        is_digit(c) ==> r == Some(digit_val(c) as u8),
        !is_digit(c) ==> r is None,
{
    if c == '0' {
        Some(0)
    } else if c == '1' {
        Some(1)
    } else if c == '2' {
        Some(2)
    } else if c == '3' {
        Some(3)
    } else if c == '4' {
        Some(4)
    } else if c == '5' {
        Some(5)
    } else if c == '6' {
        Some(6)
    } else if c == '7' {
        Some(7)
    } else if c == '8' {
        Some(8)
    } else if c == '9' {
        Some(9)
    } else {
        None
    }
}

/// Parses a signed decimal `i64` token, accepting exactly the tokens that
/// [`is_i64_literal`] describes and returning the value it denotes.
#[verifier::loop_isolation(false)]
pub fn parse_i64(s: &str) -> (r: Option<i64>)
    ensures
        is_i64_literal(s@) ==> (r matches Some(v) && v as int == int_literal_value(s@)),
        !is_i64_literal(s@) ==> r is None,
{
    let n = s.unicode_len();
    if n == 0 {
        return None;
    }
    let first = s.get_char(0);
    let neg = first == '-';
    let start: usize = if first == '-' || first == '+' {
        1
    } else {
        0
    };
    if start == n {
        // a bare sign has no digits
        return None;
    }
    let ghost digits = s@.subrange(start as int, n as int);
    let mut mag: u128 = 0;
    let mut i: usize = start;
    while i < n
        invariant
            start <= i <= n,
            n == s@.len(),
            digits == s@.subrange(start as int, n as int),
            all_digits(s@.subrange(start as int, i as int)),
            mag == digits_val(s@.subrange(start as int, i as int)),
            mag <= 0x8000_0000_0000_0000u128,
        decreases n - i,
    {
        let c = s.get_char(i);
        let d = match digit_of(c) {
            Some(d) => d,
            None => {
                // a non-digit makes the whole token ill-shaped
                proof {
                    assert(!is_digit(s@[i as int]));
                    if start == 1 {
                        assert(s@.drop_first()[i - 1] == s@[i as int]);
                        assert(!all_digits(s@.drop_first()));
                    } else {
                        assert(!all_digits(s@));
                    }
                    assert(!is_int_shape(s@));
                }
                return None;
            },
        };
        proof {
            let pre = s@.subrange(start as int, i as int);
            let pre1 = s@.subrange(start as int, i + 1 as int);
            assert(pre1.drop_last() =~= pre);
            assert(pre1.last() == s@[i as int]);
        }
        mag = mag * 10 + (d as u128);
        i = i + 1;
        if mag > 0x8000_0000_0000_0000u128 {
            // already past every i64 magnitude, and more digits cannot shrink it
            proof {
                let pre = s@.subrange(start as int, i as int);
                assert(digits.take(i - start) =~= pre);
                lemma_digits_val_prefix(digits, i - start);
                assert(digits_val(digits) > 0x8000_0000_0000_0000);
                if is_int_shape(s@) {
                    if start == 1 {
                        assert(s@.drop_first() =~= digits);
                    } else {
                        assert(s@.subrange(0, n as int) =~= s@);
                    }
                    assert(!(i64::MIN <= int_literal_value(s@) <= i64::MAX));
                }
                assert(!is_i64_literal(s@));
            }
            return None;
        }
    }
    proof {
        assert(s@.subrange(start as int, i as int) =~= digits);
        if start == 1 {
            assert(s@.drop_first() =~= digits);
        } else {
            assert(s@.subrange(0, n as int) =~= s@);
        }
    }
    if neg {
        if mag == 0x8000_0000_0000_0000u128 {
            Some(i64::MIN)
        } else {
            Some(-((mag as i64)))
        }
    } else {
        if mag >= 0x8000_0000_0000_0000u128 {
            None
        } else {
            Some(mag as i64)
        }
    }
}

} // verus!
