use vstd::prelude::*;

use crate::args::lemma_number_literal;
use crate::args::lemma_path_literal;
use crate::args::lemma_string_literal;
use crate::args::parse_arg;
use crate::args::spec_parse_arg;
use crate::chars::alphanumeric;
use crate::chars::is_space;
use crate::chars::space;
use crate::errors::CallParseError;
use crate::numbers::int_literal_value;
use crate::numbers::is_digit;
use crate::numbers::is_i64_literal;
use crate::types::Value;
use crate::types::ValueSpec;

verus! {

/// The three states of the call-body parser: skipping leading whitespace,
/// accumulating the function name, accumulating arguments.
#[derive(Clone, Copy, Debug, PartialEq, Eq, Structural)]
pub enum CallMode {
    Start,
    Name,
    Args,
}

/// The full state of the call-body parser between two characters.
pub struct CallSt {
    pub mode: CallMode,
    pub in_path: bool,
    pub in_string: bool,
    pub name: Seq<char>,
    pub buf: Seq<char>,
    pub args: Seq<ValueSpec>,
}

pub open spec fn mk_st(
    mode: CallMode,
    in_path: bool,
    in_string: bool,
    name: Seq<char>,
    buf: Seq<char>,
    args: Seq<ValueSpec>,
) -> CallSt {
    CallSt { mode, in_path, in_string, name, buf, args }
}

pub open spec fn init_call_st() -> CallSt {
    mk_st(CallMode::Start, false, false, Seq::empty(), Seq::empty(), Seq::empty())
}

pub open spec fn mode_rank(m: CallMode) -> int {
    if m is Start {
        1
    } else {
        0
    }
}

/// One run of the call-body state machine over the remaining characters.
///
/// In `Start`, whitespace is skipped and anything else is reprocessed as the
/// start of the function name. In `Name`, `(` commits the accumulated name
/// and opens the argument list, alphanumeric characters accumulate,
/// whitespace is skipped, and any other character is an `InvalidSymbol`
/// error. In `Args`, `"` and `#` toggle the string- and path-literal modes;
/// while either is active every character is literal content; otherwise `,`
/// closes the current argument buffer and `)` closes the last one and ends
/// the parse (a `)` with no prior argument and an empty buffer means an
/// empty argument list). Input ending before `)` yields whatever was
/// committed so far; the name is empty if `(` was never reached.
pub open spec fn run_call(rest: Seq<char>, st: CallSt) -> Result<
    (Seq<char>, Seq<ValueSpec>),
    CallParseError,
>
    decreases rest.len(), mode_rank(st.mode),
{
    if rest.len() == 0 {
        Ok((st.name, st.args))
    } else {
        let c = rest[0];
        match st.mode {
            CallMode::Start => {
                if is_space(c) {
                    run_call(rest.drop_first(), st)
                } else {
                    run_call(
                        rest,
                        mk_st(CallMode::Name, st.in_path, st.in_string, st.name, st.buf, st.args),
                    )
                }
            },
            CallMode::Name => {
                if c == '(' {
                    run_call(
                        rest.drop_first(),
                        mk_st(
                            CallMode::Args,
                            st.in_path,
                            st.in_string,
                            st.buf,
                            Seq::empty(),
                            st.args,
                        ),
                    )
                } else if alphanumeric(c) {
                    run_call(
                        rest.drop_first(),
                        mk_st(
                            CallMode::Name,
                            st.in_path,
                            st.in_string,
                            st.name,
                            st.buf.push(c),
                            st.args,
                        ),
                    )
                } else if is_space(c) {
                    run_call(rest.drop_first(), st)
                } else {
                    Err(CallParseError::InvalidSymbol(c))
                }
            },
            CallMode::Args => {
                let in_string2 = if c == '"' && !st.in_path {
                    !st.in_string
                } else {
                    st.in_string
                };
                let in_path2 = if c == '#' && !in_string2 {
                    !st.in_path
                } else {
                    st.in_path
                };
                if in_path2 || in_string2 {
                    run_call(
                        rest.drop_first(),
                        mk_st(CallMode::Args, in_path2, in_string2, st.name, st.buf.push(c), st.args),
                    )
                } else if c == ')' {
                    if st.args.len() == 0 && st.buf.len() == 0 {
                        Ok((st.name, st.args))
                    } else {
                        match spec_parse_arg(st.buf) {
                            Ok(v) => Ok((st.name, st.args.push(v))),
                            Err(e) => Err(e),
                        }
                    }
                } else if c == ',' {
                    match spec_parse_arg(st.buf) {
                        Ok(v) => run_call(
                            rest.drop_first(),
                            mk_st(
                                CallMode::Args,
                                in_path2,
                                in_string2,
                                st.name,
                                Seq::empty(),
                                st.args.push(v),
                            ),
                        ),
                        Err(e) => Err(e),
                    }
                } else {
                    run_call(
                        rest.drop_first(),
                        mk_st(CallMode::Args, in_path2, in_string2, st.name, st.buf.push(c), st.args),
                    )
                }
            },
        }
    }
}

/// What parsing a whole call body yields.
pub open spec fn spec_parse_call(body: Seq<char>) -> Result<
    (Seq<char>, Seq<ValueSpec>),
    CallParseError,
> {
    run_call(body, init_call_st())
}

/// Parses the body of a call site into the function name and its argument
/// values, exactly as [`spec_parse_call`] describes.
#[verifier::loop_isolation(false)]
pub fn parse_call(buffer: &str) -> (r: Result<(String, Vec<Value>), CallParseError>)
    ensures
        spec_parse_call(buffer@) matches Ok(nv) ==> (r matches Ok(p) && p.0@ == nv.0
            && p.1.deep_view() == nv.1),
        spec_parse_call(buffer@) matches Err(e) ==> (r matches Err(re) && re == e),
{
    let n = buffer.unicode_len();
    let mut mode = CallMode::Start;
    let mut in_path = false;
    let mut in_string = false;
    let mut name = String::new();
    let mut args: Vec<Value> = Vec::new();
    let mut arg_start: usize = 0;
    let mut i: usize = 0;
    proof {
        assert(buffer@.skip(0) =~= buffer@);
        assert(args.deep_view() =~= Seq::<ValueSpec>::empty());
    }
    while i < n
        invariant
            i <= n,
            mode is Args ==> arg_start <= i,
            !(mode is Args) ==> name@.len() == 0 || mode is Name,
            mode is Start ==> name@.len() == 0,
            !(mode is Args) ==> args@.len() == 0 && !in_path && !in_string,
            run_call(buffer@, init_call_st()) == run_call(
                buffer@.skip(i as int),
                mk_st(
                    mode,
                    in_path,
                    in_string,
                    if mode is Args {
                        name@
                    } else {
                        Seq::empty()
                    },
                    if mode is Args {
                        buffer@.subrange(arg_start as int, i as int)
                    } else {
                        name@
                    },
                    args.deep_view(),
                ),
            ),
        decreases n - i, mode_rank(mode),
    {
        let c = buffer.get_char(i);
        proof {
            assert(buffer@.skip(i as int)[0] == buffer@[i as int]);
            assert(buffer@.skip(i as int).drop_first() =~= buffer@.skip(i + 1));
        }
        match mode {
            CallMode::Start => {
                if space(c) {
                    i = i + 1;
                } else {
                    mode = CallMode::Name;
                }
            },
            CallMode::Name => {
                if c == '(' {
                    proof {
                        assert(buffer@.subrange(i + 1, i + 1) =~= Seq::<char>::empty());
                    }
                    mode = CallMode::Args;
                    arg_start = i + 1;
                    i = i + 1;
                } else if c.is_alphanumeric() {
                    name.push(c);
                    i = i + 1;
                } else if space(c) {
                    i = i + 1;
                } else {
                    return Err(CallParseError::InvalidSymbol(c));
                }
            },
            CallMode::Args => {
                if c == '"' && !in_path {
                    in_string = !in_string;
                }
                if c == '#' && !in_string {
                    in_path = !in_path;
                }
                let ghost buf = buffer@.subrange(arg_start as int, i as int);
                proof {
                    assert(buffer@.subrange(arg_start as int, i + 1) =~= buf.push(
                        buffer@[i as int],
                    ));
                }
                if in_path || in_string {
                    i = i + 1;
                } else if c == ')' {
                    if args.len() == 0 && i == arg_start {
                        proof {
                            assert(buf =~= Seq::<char>::empty());
                        }
                        return Ok((name, args));
                    } else {
                        proof {
                            if i == arg_start {
                                assert(buf =~= Seq::<char>::empty());
                            }
                        }
                        match parse_arg(buffer.substring_char(arg_start, i)) {
                            Ok(v) => {
                                let ghost pre = args.deep_view();
                                args.push(v);
                                proof {
                                    assert(args.deep_view() =~= pre.push(v@));
                                }
                                return Ok((name, args));
                            },
                            Err(e) => {
                                return Err(e);
                            },
                        }
                    }
                } else if c == ',' {
                    match parse_arg(buffer.substring_char(arg_start, i)) {
                        Ok(v) => {
                            let ghost pre = args.deep_view();
                            args.push(v);
                            proof {
                                assert(args.deep_view() =~= pre.push(v@));
                                assert(buffer@.subrange(i + 1, i + 1) =~= Seq::<char>::empty());
                            }
                            arg_start = i + 1;
                            i = i + 1;
                        },
                        Err(e) => {
                            return Err(e);
                        },
                    }
                } else {
                    i = i + 1;
                }
            },
        }
    }
    proof {
        assert(buffer@.skip(n as int).len() == 0);
    }
    match mode {
        CallMode::Args => Ok((name, args)),
        _ => Ok((String::new(), args)),
    }
}

proof fn lemma_run_name_chars(
    f: Seq<char>,
    rest: Seq<char>,
    ip: bool,
    istr: bool,
    name0: Seq<char>,
    buf0: Seq<char>,
    args0: Seq<ValueSpec>,
)
    requires
        forall|i: int|
            0 <= i < f.len() ==> alphanumeric(#[trigger] f[i]) && f[i] != '(',
    ensures
        run_call(f + rest, mk_st(CallMode::Name, ip, istr, name0, buf0, args0)) == run_call(
            rest,
            mk_st(CallMode::Name, ip, istr, name0, buf0 + f, args0),
        ),
    decreases f.len(),
{
    if f.len() == 0 {
        assert(f + rest =~= rest);
        assert(buf0 + f =~= buf0);
    } else {
        let c = f[0];
        let full = f + rest;
        assert(full[0] == c);
        assert(full.drop_first() =~= f.drop_first() + rest);
        lemma_run_name_chars(f.drop_first(), rest, ip, istr, name0, buf0.push(c), args0);
        assert(buf0.push(c) + f.drop_first() =~= buf0 + f);
    }
}

proof fn lemma_run_literal_chars(
    a: Seq<char>,
    rest: Seq<char>,
    in_path: bool,
    name0: Seq<char>,
    buf0: Seq<char>,
    args0: Seq<ValueSpec>,
)
    requires
        in_path ==> forall|i: int| 0 <= i < a.len() ==> #[trigger] a[i] != '#',
        !in_path ==> forall|i: int| 0 <= i < a.len() ==> #[trigger] a[i] != '"',
    ensures
        run_call(a + rest, mk_st(CallMode::Args, in_path, !in_path, name0, buf0, args0))
            == run_call(rest, mk_st(CallMode::Args, in_path, !in_path, name0, buf0 + a, args0)),
    decreases a.len(),
{
    if a.len() == 0 {
        assert(a + rest =~= rest);
        assert(buf0 + a =~= buf0);
    } else {
        let c = a[0];
        let full = a + rest;
        assert(full[0] == c);
        assert(full.drop_first() =~= a.drop_first() + rest);
        lemma_run_literal_chars(a.drop_first(), rest, in_path, name0, buf0.push(c), args0);
        assert(buf0.push(c) + a.drop_first() =~= buf0 + a);
    }
}

proof fn lemma_run_plain_chars(
    s: Seq<char>,
    rest: Seq<char>,
    name0: Seq<char>,
    buf0: Seq<char>,
    args0: Seq<ValueSpec>,
)
    requires
        forall|i: int|
            0 <= i < s.len() ==> #[trigger] s[i] != '"' && s[i] != '#' && s[i] != ',' && s[i]
                != ')',
    ensures
        run_call(s + rest, mk_st(CallMode::Args, false, false, name0, buf0, args0)) == run_call(
            rest,
            mk_st(CallMode::Args, false, false, name0, buf0 + s, args0),
        ),
    decreases s.len(),
{
    if s.len() == 0 {
        assert(s + rest =~= rest);
        assert(buf0 + s =~= buf0);
    } else {
        let c = s[0];
        let full = s + rest;
        assert(full[0] == c);
        assert(full.drop_first() =~= s.drop_first() + rest);
        lemma_run_plain_chars(s.drop_first(), rest, name0, buf0.push(c), args0);
        assert(buf0.push(c) + s.drop_first() =~= buf0 + s);
    }
}

/// Every well-formed call body of the shape `f(#a#,"b",n)` — an
/// alphanumeric, non-blank function name, a path literal, a string literal
/// and a signed decimal integer — parses to exactly that name and those
/// three argument values.
#[verifier::rlimit(30)]
pub proof fn lemma_well_formed_call(f: Seq<char>, a: Seq<char>, b: Seq<char>, num: Seq<char>)
    requires
        forall|i: int|
            0 <= i < f.len() ==> alphanumeric(#[trigger] f[i]) && f[i] != '(' && !is_space(f[i]),
        forall|i: int| 0 <= i < a.len() ==> #[trigger] a[i] != '#',
        forall|i: int| 0 <= i < b.len() ==> #[trigger] b[i] != '"',
        is_i64_literal(num),
    ensures
        spec_parse_call(
            f + seq!['('] + seq!['#'] + a + seq!['#'] + seq![','] + seq!['"'] + b + seq!['"']
                + seq![','] + num + seq![')'],
        ) == Ok::<_, CallParseError>(
            (
                f,
                seq![
                    ValueSpec::Path(a),
                    ValueSpec::String(b),
                    ValueSpec::Number(int_literal_value(num)),
                ],
            ),
        ),
{
    let e = Seq::<char>::empty();
    let ea = Seq::<ValueSpec>::empty();
    let rest_close = seq![')'];
    let rest_num = num + rest_close;
    let rest_comma2 = seq![','] + rest_num;
    let rest_quote2 = seq!['"'] + rest_comma2;
    let rest_b = b + rest_quote2;
    let rest_quote1 = seq!['"'] + rest_b;
    let rest_comma1 = seq![','] + rest_quote1;
    let rest_hash2 = seq!['#'] + rest_comma1;
    let rest_a = a + rest_hash2;
    let rest_hash1 = seq!['#'] + rest_a;
    let rest_paren = seq!['('] + rest_hash1;
    let body = f + rest_paren;
    assert(body =~= f + seq!['('] + seq!['#'] + a + seq!['#'] + seq![','] + seq!['"'] + b
        + seq!['"'] + seq![','] + num + seq![')']);

    // start: the first character is never whitespace, so the machine
    // reprocesses it in the name state
    assert(body.len() > 0);
    if f.len() > 0 {
        assert(body[0] == f[0]);
        assert(!is_space(body[0]));
    } else {
        assert(body =~= rest_paren);
        assert(body[0] == '(');
    }
    assert(run_call(body, init_call_st()) == run_call(
        body,
        mk_st(CallMode::Name, false, false, e, e, ea),
    ));

    // the name accumulates
    lemma_run_name_chars(f, rest_paren, false, false, e, e, ea);
    assert(e + f =~= f);

    // `(` commits the name and opens the arguments
    assert(rest_paren[0] == '(');
    assert(rest_paren.drop_first() =~= rest_hash1);
    assert(run_call(rest_paren, mk_st(CallMode::Name, false, false, e, f, ea)) == run_call(
        rest_hash1,
        mk_st(CallMode::Args, false, false, f, e, ea),
    ));

    // `#` opens the path literal
    assert(rest_hash1[0] == '#');
    assert(rest_hash1.drop_first() =~= rest_a);
    assert(run_call(rest_hash1, mk_st(CallMode::Args, false, false, f, e, ea)) == run_call(
        rest_a,
        mk_st(CallMode::Args, true, false, f, e.push('#'), ea),
    ));

    // the path body accumulates
    lemma_run_literal_chars(a, rest_hash2, true, f, e.push('#'), ea);

    // `#` closes the path literal, staying in the buffer
    assert(rest_hash2[0] == '#');
    assert(rest_hash2.drop_first() =~= rest_comma1);
    let buf_a = e.push('#') + a;
    assert(run_call(rest_hash2, mk_st(CallMode::Args, true, false, f, buf_a, ea)) == run_call(
        rest_comma1,
        mk_st(CallMode::Args, false, false, f, buf_a.push('#'), ea),
    ));

    // `,` closes the first argument
    assert(rest_comma1[0] == ',');
    assert(rest_comma1.drop_first() =~= rest_quote1);
    assert(buf_a.push('#') =~= seq!['#'] + a + seq!['#']);
    lemma_path_literal(a);
    let args1 = ea.push(ValueSpec::Path(a));
    assert(run_call(rest_comma1, mk_st(CallMode::Args, false, false, f, buf_a.push('#'), ea))
        == run_call(rest_quote1, mk_st(CallMode::Args, false, false, f, e, args1)));

    // `"` opens the string literal
    assert(rest_quote1[0] == '"');
    assert(rest_quote1.drop_first() =~= rest_b);
    assert(run_call(rest_quote1, mk_st(CallMode::Args, false, false, f, e, args1)) == run_call(
        rest_b,
        mk_st(CallMode::Args, false, true, f, e.push('"'), args1),
    ));

    // the string body accumulates
    lemma_run_literal_chars(b, rest_quote2, false, f, e.push('"'), args1);

    // `"` closes the string literal, staying in the buffer
    assert(rest_quote2[0] == '"');
    assert(rest_quote2.drop_first() =~= rest_comma2);
    let buf_b = e.push('"') + b;
    assert(run_call(rest_quote2, mk_st(CallMode::Args, false, true, f, buf_b, args1))
        == run_call(rest_comma2, mk_st(CallMode::Args, false, false, f, buf_b.push('"'), args1)));

    // `,` closes the second argument
    assert(rest_comma2[0] == ',');
    assert(rest_comma2.drop_first() =~= rest_num);
    assert(buf_b.push('"') =~= seq!['"'] + b + seq!['"']);
    lemma_string_literal(b);
    let args2 = args1.push(ValueSpec::String(b));
    assert(run_call(rest_comma2, mk_st(CallMode::Args, false, false, f, buf_b.push('"'), args1))
        == run_call(rest_num, mk_st(CallMode::Args, false, false, f, e, args2)));

    // the number token accumulates: its characters are signs and digits,
    // never delimiters
    assert forall|i: int| 0 <= i < num.len() implies #[trigger] num[i] != '"' && num[i] != '#'
        && num[i] != ',' && num[i] != ')' by {
        if num[0] == '+' || num[0] == '-' {
            if i > 0 {
                assert(is_digit(num.drop_first()[i - 1]));
            }
        } else {
            assert(is_digit(num[i]));
        }
    };
    lemma_run_plain_chars(num, rest_close, f, e, args2);
    assert(e + num =~= num);

    // `)` closes the last argument and ends the parse
    assert(rest_close[0] == ')');
    lemma_number_literal(num);
    assert(num.len() > 0);
    assert(run_call(rest_close, mk_st(CallMode::Args, false, false, f, num, args2)) == Ok::<
        _,
        CallParseError,
    >((f, args2.push(ValueSpec::Number(int_literal_value(num))))));

    assert(args2.push(ValueSpec::Number(int_literal_value(num))) =~= seq![
        ValueSpec::Path(a),
        ValueSpec::String(b),
        ValueSpec::Number(int_literal_value(num)),
    ]);
}

} // verus!
