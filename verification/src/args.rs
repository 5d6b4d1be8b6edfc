use vstd::prelude::*;

use crate::chars::is_space;
use crate::chars::space;
use crate::errors::CallParseError;
use crate::numbers::int_literal_value;
use crate::numbers::is_digit;
use crate::numbers::is_i64_literal;
use crate::numbers::parse_i64;
use crate::types::Value;
use crate::types::ValueSpec;

verus! {

/// `s` with its leading whitespace removed.
pub open spec fn trim_start_spec(s: Seq<char>) -> Seq<char>
    decreases s.len(),
{
    if s.len() > 0 && is_space(s[0]) {
        trim_start_spec(s.drop_first())
    } else {
        s
    }
}

/// `s` with its trailing whitespace removed.
pub open spec fn trim_end_spec(s: Seq<char>) -> Seq<char>
    decreases s.len(),
{
    if s.len() > 0 && is_space(s.last()) {
        trim_end_spec(s.drop_last())
    } else {
        s
    }
}

/// `s` with whitespace removed from both ends.
pub open spec fn trim_spec(s: Seq<char>) -> Seq<char> {
    trim_end_spec(trim_start_spec(s))
}

proof fn lemma_trim_start_skip(s: Seq<char>, j: int)
    requires
        0 <= j <= s.len(),
        forall|k: int| 0 <= k < j ==> is_space(#[trigger] s[k]),
        j == s.len() || !is_space(s[j]),
    ensures
        trim_start_spec(s) == s.skip(j),
    decreases s.len(),
{
    if s.len() > 0 && is_space(s[0]) {
        assert(j > 0);
        assert(forall|k: int| 0 <= k < j - 1 ==> is_space(#[trigger] s.drop_first()[k]));
        lemma_trim_start_skip(s.drop_first(), j - 1);
        assert(s.drop_first().skip(j - 1) =~= s.skip(j));
    } else {
        assert(j == 0);
        assert(s.skip(0) =~= s);
    }
}

proof fn lemma_trim_end_take(s: Seq<char>, j: int)
    requires
        0 <= j <= s.len(),
        forall|k: int| j <= k < s.len() ==> is_space(#[trigger] s[k]),
        j == 0 || !is_space(s[j - 1]),
    ensures
        trim_end_spec(s) == s.take(j),
    decreases s.len(),
{
    if j < s.len() {
        assert(is_space(s.last()));
        assert(forall|k: int| j <= k < s.len() - 1 ==> is_space(#[trigger] s.drop_last()[k]));
        lemma_trim_end_take(s.drop_last(), j);
        assert(s.drop_last().take(j) =~= s.take(j));
    } else {
        if s.len() > 0 {
            assert(!is_space(s.last()));
        }
        assert(s.take(j) =~= s);
    }
}

/// Trimming does nothing to a string with no whitespace at either end.
pub proof fn lemma_trim_id(s: Seq<char>)
    requires
        s.len() == 0 || (!is_space(s[0]) && !is_space(s.last())),
    ensures
        trim_spec(s) == s,
{
    assert(trim_start_spec(s) == s);
    assert(trim_end_spec(s) == s);
}

fn first_non_space(s: &str) -> (r: usize)
    ensures
        r <= s@.len(),
        forall|k: int| 0 <= k < r ==> is_space(#[trigger] s@[k]),
        r < s@.len() ==> !is_space(s@[r as int]),
{
    let n = s.unicode_len();
    let mut i: usize = 0;
    while i < n
        invariant
            i <= n,
            n == s@.len(),
            forall|k: int| 0 <= k < i ==> is_space(#[trigger] s@[k]),
        decreases n - i,
    {
        if !space(s.get_char(i)) {
            return i;
        }
        i = i + 1;
    }
    n
}

fn last_non_space(s: &str, lo: usize) -> (r: usize)
    requires
        lo <= s@.len(),
    ensures
        lo <= r <= s@.len(),
        forall|k: int| r <= k < s@.len() ==> is_space(#[trigger] s@[k]),
        r > lo ==> !is_space(s@[r - 1]),
{
    let n = s.unicode_len();
    let mut i: usize = n;
    while i > lo
        invariant
            lo <= i <= n,
            n == s@.len(),
            forall|k: int| i <= k < n ==> is_space(#[trigger] s@[k]),
        decreases i,
    {
        if !space(s.get_char(i - 1)) {
            return i;
        }
        i = i - 1;
    }
    lo
}

/// Removes leading and trailing whitespace, as [`trim_spec`] describes.
pub fn trim(s: &str) -> (r: &str)
    ensures
        r@ == trim_spec(s@),
{
    let lo = first_non_space(s);
    let hi = last_non_space(s, lo);
    proof {
        lemma_trim_start_skip(s@, lo as int);
        let t = s@.skip(lo as int);
        assert(forall|k: int| hi - lo <= k < t.len() ==> is_space(#[trigger] t[k]));
        lemma_trim_end_take(t, hi - lo);
        assert(t.take(hi - lo) =~= s@.subrange(lo as int, hi as int));
    }
    s.substring_char(lo, hi)
}

/// What classifying one trimmed argument buffer yields: a `#…#` path
/// literal, a `"…"` string literal, or a signed decimal integer; an empty
/// trimmed buffer and an unclosed or unparsable token are errors.
pub open spec fn spec_parse_arg(buf: Seq<char>) -> Result<ValueSpec, CallParseError> {
    let a = trim_spec(buf);
    if a.len() == 0 {
        Err(CallParseError::EmptyArgument)
    } else if a[0] == '#' {
        if a.len() >= 2 && a.last() == '#' {
            Ok(ValueSpec::Path(a.subrange(1, a.len() - 1)))
        } else {
            Err(CallParseError::UnclosedLiteral)
        }
    } else if a[0] == '"' {
        if a.len() >= 2 && a.last() == '"' {
            Ok(ValueSpec::String(a.subrange(1, a.len() - 1)))
        } else {
            Err(CallParseError::UnclosedLiteral)
        }
    } else if is_i64_literal(a) {
        Ok(ValueSpec::Number(int_literal_value(a)))
    } else {
        Err(CallParseError::ParseIntError)
    }
}

/// Trims one argument buffer and classifies it by its first character.
pub fn parse_arg(buf: &str) -> (r: Result<Value, CallParseError>)
    ensures
        spec_parse_arg(buf@) matches Ok(v) ==> (r matches Ok(rv) && rv@ == v),
        spec_parse_arg(buf@) matches Err(e) ==> r == Err::<Value, CallParseError>(e),
{
    let t = trim(buf);
    let n = t.unicode_len();
    if n == 0 {
        return Err(CallParseError::EmptyArgument);
    }
    let c0 = t.get_char(0);
    if c0 == '#' {
        if n >= 2 && t.get_char(n - 1) == '#' {
            Ok(Value::Path(String::from_str(t.substring_char(1, n - 1))))
        } else {
            Err(CallParseError::UnclosedLiteral)
        }
    } else if c0 == '"' {
        if n >= 2 && t.get_char(n - 1) == '"' {
            Ok(Value::String(String::from_str(t.substring_char(1, n - 1))))
        } else {
            Err(CallParseError::UnclosedLiteral)
        }
    } else {
        match parse_i64(t) {
            Some(v) => Ok(Value::Number(v)),
            None => Err(CallParseError::ParseIntError),
        }
    }
}

/// An argument buffer that is only whitespace yields `EmptyArgument`.
pub proof fn lemma_whitespace_only_empty_argument(buf: Seq<char>)
    requires
        forall|i: int| 0 <= i < buf.len() ==> is_space(#[trigger] buf[i]),
    ensures
        spec_parse_arg(buf) == Err::<ValueSpec, CallParseError>(CallParseError::EmptyArgument),
{
    lemma_trim_start_skip(buf, buf.len() as int);
    assert(buf.skip(buf.len() as int).len() == 0);
}

/// A path or string literal missing its closing delimiter yields
/// `UnclosedLiteral`.
pub proof fn lemma_unclosed_literal(buf: Seq<char>, open: char)
    requires
        open == '#' || open == '"',
        trim_spec(buf) == buf,
        buf.len() >= 1,
        buf[0] == open,
        buf.len() == 1 || buf.last() != open,
    ensures
        spec_parse_arg(buf) == Err::<ValueSpec, CallParseError>(CallParseError::UnclosedLiteral),
{
}

/// A non-numeric, non-quoted, non-hashed argument yields an integer-parse
/// failure.
pub proof fn lemma_integer_parse_failure(buf: Seq<char>)
    requires
        trim_spec(buf).len() >= 1,
        trim_spec(buf)[0] != '#',
        trim_spec(buf)[0] != '"',
        !is_i64_literal(trim_spec(buf)),
    ensures
        spec_parse_arg(buf) == Err::<ValueSpec, CallParseError>(CallParseError::ParseIntError),
{
}

/// A `#…#` token whose body holds no `#` parses to exactly that path.
pub proof fn lemma_path_literal(a: Seq<char>)
    requires
        forall|i: int| 0 <= i < a.len() ==> #[trigger] a[i] != '#',
    ensures
        spec_parse_arg(seq!['#'] + a + seq!['#']) == Ok::<ValueSpec, CallParseError>(
            ValueSpec::Path(a),
        ),
{
    let buf = seq!['#'] + a + seq!['#'];
    assert(buf[0] == '#');
    assert(buf.last() == '#');
    lemma_trim_id(buf);
    assert(buf.subrange(1, buf.len() - 1) =~= a);
}

/// A `"…"` token whose body holds no `"` parses to exactly that string.
pub proof fn lemma_string_literal(a: Seq<char>)
    requires
        forall|i: int| 0 <= i < a.len() ==> #[trigger] a[i] != '"',
    ensures
        spec_parse_arg(seq!['"'] + a + seq!['"']) == Ok::<ValueSpec, CallParseError>(
            ValueSpec::String(a),
        ),
{
    let buf = seq!['"'] + a + seq!['"'];
    assert(buf[0] == '"');
    assert(buf.last() == '"');
    lemma_trim_id(buf);
    assert(buf.subrange(1, buf.len() - 1) =~= a);
}

/// A valid signed decimal token parses to exactly its integer value.
pub proof fn lemma_number_literal(a: Seq<char>)
    requires
        is_i64_literal(a),
    ensures
        spec_parse_arg(a) == Ok::<ValueSpec, CallParseError>(
            ValueSpec::Number(int_literal_value(a)),
        ),
{
    if a[0] == '+' || a[0] == '-' {
        assert(is_digit(a.drop_first()[a.len() - 2]));
        assert(a.last() == a.drop_first()[a.len() - 2]);
    } else {
        assert(is_digit(a[0]));
        assert(is_digit(a[a.len() - 1]));
    }
    lemma_trim_id(a);
}

} // verus!
