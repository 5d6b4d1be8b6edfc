use vstd::prelude::*;

use crate::errors::PluginErrSpec;
use crate::errors::PluginError;
use crate::paths::path_parent;
use crate::plugin::find_plugin;
use crate::plugin::no_plugin_for;
use crate::plugin::Context;
use crate::plugin::Plugin;
use crate::segment::no_call_opener;
use crate::segment::spec_segment;
use crate::types::duplicate_values;
use crate::types::MarkdownPart;
use crate::types::PartSpec;

verus! {

/// Every node of the document is literal text.
pub open spec fn all_text(ps: Seq<PartSpec>) -> bool {
    forall|i: int| 0 <= i < ps.len() ==> (#[trigger] ps[i]) is Text
}

/// The function a call node invokes; empty for a text node.
pub open spec fn call_name(p: PartSpec) -> Seq<char> {
    match p {
        PartSpec::Call { function, .. } => function,
        PartSpec::Text { .. } => Seq::empty(),
    }
}

/// `k` is the position of the first call node of the document.
pub open spec fn first_call_at(ps: Seq<PartSpec>, k: int) -> bool {
    0 <= k < ps.len() && ps[k] is Call && (forall|m: int| 0 <= m < k ==> (#[trigger] ps[m]) is Text)
}

/// Whether every node of the document is literal text.
pub fn all_text_parts(content: &Vec<MarkdownPart>) -> (r: bool)
    ensures
        r == all_text(content.deep_view()),
{
    let mut i: usize = 0;
    #[verifier::loop_isolation(false)]
    while i < content.len()
        invariant
            i <= content@.len(),
            forall|k: int| 0 <= k < i ==> (#[trigger] content.deep_view()[k]) is Text,
        decreases content@.len() - i,
    {
        match &content[i] {
            MarkdownPart::Text { .. } => {},
            MarkdownPart::Call { .. } => {
                proof {
                    assert(content.deep_view()[i as int] is Call);
                }
                return false;
            },
        }
        i = i + 1;
    }
    true
}

/// Walks the document in order: text nodes pass through; for each call
/// node the first plugin (in registration order) exposing its function is
/// invoked, the document it returns is recursively evaluated against the
/// same registry, and the reduced nodes are spliced in place of the call.
/// A call whose function no plugin exposes fails with `FunctionNotFound`.
/// Each recursive step spends one unit of `fuel`; a nesting chain deeper
/// than `fuel` (such as a document that transitively expands itself
/// forever) fails with `RecursionLimit` instead of recursing without
/// bound. On success, the text nodes before the first call pass through
/// unchanged at the head of the output.
pub fn evaluate<P: Plugin>(content: Vec<MarkdownPart>, plugins: &Vec<P>, fuel: u64) -> (r: Result<
    Vec<MarkdownPart>,
    PluginError,
>)
    ensures
        r matches Ok(out) ==> all_text(out.deep_view()),
        all_text(content.deep_view()) ==> (r matches Ok(out) && out.deep_view()
            == content.deep_view()),
        forall|k: int|
            (#[trigger] first_call_at(content.deep_view(), k)) && no_plugin_for(
                plugins@,
                call_name(content.deep_view()[k]),
            ) ==> (r matches Err(e) && e@ == PluginErrSpec::FunctionNotFound(
                call_name(content.deep_view()[k]),
            )),
        forall|k: int|
            (#[trigger] first_call_at(content.deep_view(), k)) && !no_plugin_for(
                plugins@,
                call_name(content.deep_view()[k]),
            ) && fuel == 0 ==> (r matches Err(e) && e@ == PluginErrSpec::RecursionLimit),
        forall|k: int|
            (#[trigger] first_call_at(content.deep_view(), k)) ==> (r matches Ok(out) ==> k
                <= out.deep_view().len() && out.deep_view().take(k) == content.deep_view().take(
                k,
            )),
    decreases fuel,
{
    let ghost dv = content.deep_view();
    let n = content.len();
    let mut out: Vec<MarkdownPart> = Vec::new();
    let mut idx: usize = 0;
    proof {
        assert(out.deep_view() =~= Seq::<PartSpec>::empty());
        assert(dv.take(0) =~= Seq::<PartSpec>::empty());
        assert(dv.len() == n);
    }
    #[verifier::loop_isolation(false)]
    while idx < n
        invariant
            idx <= n,
            all_text(out.deep_view()),
            all_text(dv) ==> out.deep_view() == dv.take(idx as int),
            forall|k: int|
                (#[trigger] first_call_at(dv, k)) && no_plugin_for(plugins@, call_name(dv[k]))
                    ==> idx <= k,
            fuel == 0 ==> forall|k: int| #[trigger] first_call_at(dv, k) ==> idx <= k,
            forall|k: int|
                (#[trigger] first_call_at(dv, k)) && idx <= k ==> out.deep_view() == dv.take(
                    idx as int,
                ),
            forall|k: int|
                (#[trigger] first_call_at(dv, k)) && k < idx ==> k <= out.deep_view().len()
                    && out.deep_view().take(k) == dv.take(k),
        decreases n - idx,
    {
        let ghost pre = out.deep_view();
        match &content[idx] {
            MarkdownPart::Text { content: c, source: s } => {
                out.push(MarkdownPart::Text { content: c.clone(), source: s.clone() });
                proof {
                    assert(out.deep_view() =~= pre.push(dv[idx as int]));
                    assert(dv.take(idx + 1) =~= dv.take(idx as int).push(dv[idx as int]));
                    assert forall|k: int|
                        (#[trigger] first_call_at(dv, k)) && no_plugin_for(
                            plugins@,
                            call_name(dv[k]),
                        ) implies idx + 1 <= k by {
                        assert(dv[idx as int] is Text);
                    };
                    if fuel == 0 {
                        assert forall|k: int| #[trigger] first_call_at(dv, k) implies idx + 1
                            <= k by {
                            assert(dv[idx as int] is Text);
                        };
                    }
                    assert forall|k: int|
                        (#[trigger] first_call_at(dv, k)) && idx + 1 <= k implies out.deep_view()
                        == dv.take(idx + 1) by {
                        assert(pre == dv.take(idx as int));
                    };
                    assert forall|k: int|
                        (#[trigger] first_call_at(dv, k)) && k < idx + 1 implies k
                        <= out.deep_view().len() && out.deep_view().take(k) == dv.take(k) by {
                        if k == idx {
                            assert(dv[idx as int] is Call);
                        } else {
                            assert(k <= pre.len());
                            assert(out.deep_view().take(k) =~= pre.take(k));
                        }
                    };
                }
                idx = idx + 1;
            },
            MarkdownPart::Call { function, arguments, source } => {
                proof {
                    assert(dv[idx as int] is Call);
                    assert(call_name(dv[idx as int]) == function@);
                }
                match find_plugin(plugins, function.as_str()) {
                    None => {
                        proof {
                            assert forall|k: int|
                                (#[trigger] first_call_at(dv, k)) && no_plugin_for(
                                    plugins@,
                                    call_name(dv[k]),
                                ) implies k == idx by {
                                if k > idx {
                                    assert(dv[idx as int] is Text);
                                }
                            };
                        }
                        return Err(PluginError::FunctionNotFound(function.clone()));
                    },
                    Some(j) => {
                        proof {
                            assert forall|k: int|
                                (#[trigger] first_call_at(dv, k)) && no_plugin_for(
                                    plugins@,
                                    call_name(dv[k]),
                                ) implies idx + 1 <= k by {
                                if k == idx {
                                    assert(plugins@[j as int].exposes(function@));
                                } else if k > idx {
                                } else {
                                    assert(idx <= k);
                                }
                                if k > idx {
                                    assert(dv[idx as int] is Text);
                                }
                            };
                        }
                        if fuel == 0 {
                            proof {
                                assert forall|k: int| #[trigger] first_call_at(dv, k) implies k
                                    == idx by {
                                    if k > idx {
                                        assert(dv[idx as int] is Text);
                                    }
                                };
                                assert(plugins@[j as int].exposes(function@));
                            }
                            return Err(PluginError::RecursionLimit);
                        }
                        let ctx = Context { path: path_parent(source.as_str()) };
                        let args = duplicate_values(arguments);
                        let pl = &plugins[j];
                        match pl.function_called(function.as_str(), args, ctx) {
                            Err(e) => {
                                return Err(e);
                            },
                            Ok(sub) => {
                                match evaluate(sub, plugins, fuel - 1) {
                                    Err(e) => {
                                        return Err(e);
                                    },
                                    Ok(mut reduced) => {
                                        let ghost red = reduced.deep_view();
                                        out.append(&mut reduced);
                                        proof {
                                            assert(out.deep_view() =~= pre + red);
                                            assert forall|i: int|
                                                0 <= i < out.deep_view().len() implies (
                                            #[trigger] out.deep_view()[i]) is Text by {
                                                if i < pre.len() {
                                                    assert(pre[i] is Text);
                                                } else {
                                                    assert(red[i - pre.len()] is Text);
                                                }
                                            };
                                            assert forall|k: int|
                                                (#[trigger] first_call_at(dv, k)) && idx + 1
                                                <= k implies out.deep_view() == dv.take(idx + 1) by {
                                                assert(dv[idx as int] is Text);
                                            };
                                            assert forall|k: int|
                                                (#[trigger] first_call_at(dv, k)) && k < idx
                                                + 1 implies k <= out.deep_view().len()
                                                && out.deep_view().take(k) == dv.take(k) by {
                                                if k == idx {
                                                    assert(pre == dv.take(idx as int));
                                                    assert(pre.len() == idx as int);
                                                    assert(out.deep_view().take(k) =~= pre);
                                                } else {
                                                    assert(k <= pre.len());
                                                    assert(out.deep_view().take(k) =~= pre.take(
                                                        k,
                                                    ));
                                                }
                                            };
                                        }
                                        idx = idx + 1;
                                    },
                                }
                            },
                        }
                    },
                }
            },
        }
    }
    proof {
        if all_text(dv) {
            assert(dv.take(n as int) =~= dv);
        }
    }
    Ok(out)
}

/// The concatenation of the text contents of a document, in order; call
/// nodes contribute nothing (the renderer requires that none are present).
pub open spec fn concat_text(ps: Seq<PartSpec>) -> Seq<char>
    decreases ps.len(),
{
    if ps.len() == 0 {
        Seq::empty()
    } else {
        concat_text(ps.drop_last()) + match ps.last() {
            PartSpec::Text { content, .. } => content,
            PartSpec::Call { .. } => Seq::empty(),
        }
    }
}

/// Flattens a fully reduced document to its final text. A document still
/// holding a call node here is a programming-contract violation, which the
/// precondition rules out.
pub fn rebuild(content: Vec<MarkdownPart>) -> (r: String)
    requires
        all_text(content.deep_view()),
    ensures
        r@ == concat_text(content.deep_view()),
{
    let ghost dv = content.deep_view();
    let mut r = String::new();
    let mut idx: usize = 0;
    let n = content.len();
    proof {
        assert(dv.take(0) =~= Seq::<PartSpec>::empty());
    }
    #[verifier::loop_isolation(false)]
    while idx < n
        invariant
            idx <= n,
            r@ == concat_text(dv.take(idx as int)),
        decreases n - idx,
    {
        proof {
            assert(dv.take(idx + 1).drop_last() =~= dv.take(idx as int));
            assert(dv.take(idx + 1).last() == dv[idx as int]);
        }
        match &content[idx] {
            MarkdownPart::Text { content: c, .. } => {
                r.append(c.as_str());
            },
            MarkdownPart::Call { .. } => {
                proof {
                    assert(dv[idx as int] is Text);
                }
            },
        }
        idx = idx + 1;
    }
    proof {
        assert(dv.take(n as int) =~= dv);
    }
    r
}

/// Segmenting plain text that holds no `{{` opener and rendering the
/// resulting document returns the original text unchanged.
pub proof fn lemma_plain_round_trip(text: Seq<char>, origin: Seq<char>)
    requires
        no_call_opener(text),
    ensures
        spec_segment(text, origin) matches Ok(ps) && concat_text(ps) == text,
{
    crate::segment::lemma_segment_plain_text(text, origin);
    let ps = seq![PartSpec::Text { content: text, source: origin }];
    assert(ps.drop_last() =~= Seq::<PartSpec>::empty());
    assert(concat_text(ps.drop_last()) == Seq::<char>::empty());
    assert(Seq::<char>::empty() + text =~= text);
}

} // verus!
