use vstd::prelude::*;

use crate::calls::parse_call;
use crate::calls::spec_parse_call;
use crate::errors::CallParseError;
use crate::errors::CompErrSpec;
use crate::errors::CompilationError;
use crate::types::MarkdownPart;
use crate::types::PartSpec;

verus! {

/// The two states of the segmenter: accumulating literal text, or
/// accumulating the body of a call between `{{` and `}}`.
#[derive(Clone, Copy, Debug, PartialEq, Eq, Structural)]
pub enum SegMode {
    InText,
    InCall,
}

/// One run of the segmenter over the remaining characters.
///
/// A `{` whose predecessor in the buffer is `{` closes the accumulated text
/// (minus that predecessor) as a `Text` node and opens a call; a `}` whose
/// predecessor is `}` hands the accumulated body (minus the predecessor) to
/// the call parser and emits the resulting `Call` node. Whatever remains at
/// the end of input becomes a final `Text` node, even if empty and even
/// inside an unterminated call.
pub open spec fn run_seg(
    rest: Seq<char>,
    mode: SegMode,
    buf: Seq<char>,
    acc: Seq<PartSpec>,
    origin: Seq<char>,
) -> Result<Seq<PartSpec>, CallParseError>
    decreases rest.len(),
{
    if rest.len() == 0 {
        Ok(acc.push(PartSpec::Text { content: buf, source: origin }))
    } else {
        let c = rest[0];
        match mode {
            SegMode::InText => {
                if c == '{' && buf.len() > 0 && buf.last() == '{' {
                    run_seg(
                        rest.drop_first(),
                        SegMode::InCall,
                        Seq::empty(),
                        acc.push(PartSpec::Text { content: buf.drop_last(), source: origin }),
                        origin,
                    )
                } else {
                    run_seg(rest.drop_first(), SegMode::InText, buf.push(c), acc, origin)
                }
            },
            SegMode::InCall => {
                if c == '}' && buf.len() > 0 && buf.last() == '}' {
                    match spec_parse_call(buf.drop_last()) {
                        Ok(nv) => run_seg(
                            rest.drop_first(),
                            SegMode::InText,
                            Seq::empty(),
                            acc.push(
                                PartSpec::Call {
                                    function: nv.0,
                                    arguments: nv.1,
                                    source: origin,
                                },
                            ),
                            origin,
                        ),
                        Err(e) => Err(e),
                    }
                } else {
                    run_seg(rest.drop_first(), SegMode::InCall, buf.push(c), acc, origin)
                }
            },
        }
    }
}

/// What segmenting a whole document yields.
pub open spec fn spec_segment(text: Seq<char>, origin: Seq<char>) -> Result<
    Seq<PartSpec>,
    CallParseError,
> {
    run_seg(text, SegMode::InText, Seq::empty(), Seq::empty(), origin)
}

/// Splits a document into literal text and call nodes, exactly as
/// [`spec_segment`] describes, tagging every node with `origin`.
#[verifier::loop_isolation(false)]
pub fn segment(text: &str, origin: &str) -> (r: Result<Vec<MarkdownPart>, CompilationError>)
    ensures
        spec_segment(text@, origin@) matches Ok(ps) ==> (r matches Ok(v) && v.deep_view() == ps),
        spec_segment(text@, origin@) matches Err(e) ==> (r matches Err(ce) && ce@
            == CompErrSpec::CallParseError(e)),
{
    let n = text.unicode_len();
    let mut parts: Vec<MarkdownPart> = Vec::new();
    let mut mode = SegMode::InText;
    let mut seg_start: usize = 0;
    let mut i: usize = 0;
    proof {
        assert(text@.skip(0) =~= text@);
        assert(text@.subrange(0, 0) =~= Seq::<char>::empty());
        assert(parts.deep_view() =~= Seq::<PartSpec>::empty());
    }
    while i < n
        invariant
            seg_start <= i <= n,
            run_seg(text@, SegMode::InText, Seq::empty(), Seq::empty(), origin@) == run_seg(
                text@.skip(i as int),
                mode,
                text@.subrange(seg_start as int, i as int),
                parts.deep_view(),
                origin@,
            ),
        decreases n - i,
    {
        let c = text.get_char(i);
        let ghost buf = text@.subrange(seg_start as int, i as int);
        proof {
            assert(text@.skip(i as int)[0] == text@[i as int]);
            assert(text@.skip(i as int).drop_first() =~= text@.skip(i + 1));
            assert(text@.subrange(seg_start as int, i + 1) =~= buf.push(text@[i as int]));
            if i > seg_start {
                assert(buf.last() == text@[i - 1]);
            }
        }
        match mode {
            SegMode::InText => {
                if c == '{' && i > seg_start && text.get_char(i - 1) == '{' {
                    proof {
                        assert(buf.drop_last() =~= text@.subrange(seg_start as int, i - 1));
                        assert(text@.subrange(i + 1, i + 1) =~= Seq::<char>::empty());
                    }
                    let content = String::from_str(text.substring_char(seg_start, i - 1));
                    let ghost pre = parts.deep_view();
                    parts.push(MarkdownPart::Text { content, source: String::from_str(origin) });
                    proof {
                        assert(parts.deep_view() =~= pre.push(
                            PartSpec::Text {
                                content: text@.subrange(seg_start as int, i - 1),
                                source: origin@,
                            },
                        ));
                    }
                    mode = SegMode::InCall;
                    seg_start = i + 1;
                }
                i = i + 1;
            },
            SegMode::InCall => {
                if c == '}' && i > seg_start && text.get_char(i - 1) == '}' {
                    proof {
                        assert(buf.drop_last() =~= text@.subrange(seg_start as int, i - 1));
                        assert(text@.subrange(i + 1, i + 1) =~= Seq::<char>::empty());
                    }
                    match parse_call(text.substring_char(seg_start, i - 1)) {
                        Ok(p) => {
                            let (function, arguments) = p;
                            let ghost pre = parts.deep_view();
                            parts.push(
                                MarkdownPart::Call {
                                    function,
                                    arguments,
                                    source: String::from_str(origin),
                                },
                            );
                            proof {
                                let body = text@.subrange(seg_start as int, i - 1);
                                let nv = spec_parse_call(body)->Ok_0;
                                assert(parts.deep_view() =~= pre.push(
                                    PartSpec::Call {
                                        function: nv.0,
                                        arguments: nv.1,
                                        source: origin@,
                                    },
                                ));
                            }
                            mode = SegMode::InText;
                            seg_start = i + 1;
                        },
                        Err(e) => {
                            return Err(CompilationError::CallParseError(e));
                        },
                    }
                }
                i = i + 1;
            },
        }
    }
    proof {
        assert(text@.skip(n as int).len() == 0);
    }
    let content = String::from_str(text.substring_char(seg_start, n));
    let ghost pre = parts.deep_view();
    parts.push(MarkdownPart::Text { content, source: String::from_str(origin) });
    proof {
        assert(parts.deep_view() =~= pre.push(
            PartSpec::Text { content: text@.subrange(seg_start as int, n as int), source: origin@ },
        ));
    }
    Ok(parts)
}

/// No two adjacent `{` characters anywhere in `s`.
pub open spec fn no_call_opener(s: Seq<char>) -> bool {
    forall|i: int| 0 <= i < s.len() - 1 ==> !(#[trigger] s[i] == '{' && s[i + 1] == '{')
}

proof fn lemma_run_seg_all_text(rest: Seq<char>, buf: Seq<char>, acc: Seq<PartSpec>, origin: Seq<char>)
    requires
        no_call_opener(buf + rest),
    ensures
        run_seg(rest, SegMode::InText, buf, acc, origin) == Ok::<_, CallParseError>(
            acc.push(PartSpec::Text { content: buf + rest, source: origin }),
        ),
    decreases rest.len(),
{
    if rest.len() == 0 {
        assert(buf + rest =~= buf);
    } else {
        let c = rest[0];
        let full = buf + rest;
        if c == '{' && buf.len() > 0 && buf.last() == '{' {
            assert(full[buf.len() - 1] == '{' && full[buf.len() as int] == '{');
            assert(false);
        }
        assert(buf.push(c) + rest.drop_first() =~= full);
        lemma_run_seg_all_text(rest.drop_first(), buf.push(c), acc, origin);
    }
}

/// Segmenting text that holds no `{{` opener yields a single text node
/// carrying the whole input unchanged: only a doubled `{{` ever triggers a
/// state transition.
pub proof fn lemma_segment_plain_text(text: Seq<char>, origin: Seq<char>)
    requires
        no_call_opener(text),
    ensures
        spec_segment(text, origin) == Ok::<_, CallParseError>(
            seq![PartSpec::Text { content: text, source: origin }],
        ),
{
    assert(Seq::<char>::empty() + text =~= text);
    lemma_run_seg_all_text(text, Seq::empty(), Seq::empty(), origin);
    assert(Seq::<PartSpec>::empty().push(PartSpec::Text { content: text, source: origin })
        =~= seq![PartSpec::Text { content: text, source: origin }]);
}

} // verus!
