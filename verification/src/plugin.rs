use vstd::prelude::*;

use crate::chars::str_eq;
use crate::types::Function;
use crate::types::MarkdownPart;
use crate::types::Value;
use crate::errors::PluginError;

verus! {

/// A function name at the specification level, as implementors of
/// [`Plugin`] outside this crate spell the signature of [`Plugin::exposes`].
pub type NameChars = Seq<char>;

/// Per-call data handed to a plugin: the directory of the document the call
/// came from, so the plugin can resolve relative path arguments.
#[derive(Debug)]
pub struct Context {
    pub path: String,
}

/// A capability provider: it declares the functions it exposes and executes
/// a call to one of them, returning a fresh document that may itself hold
/// further calls for the evaluator to expand.
///
/// Implementations live outside this library (the built-in one wires
/// [`crate::Core`] to a file reader); `exposes` is the specification-level
/// account of `exposed_functions` that dispatch reasoning rests on.
pub trait Plugin: Sized {
    /// Whether this plugin exposes a function of the given name.
    spec fn exposes(&self, name: Seq<char>) -> bool;

    /// The static list of functions this plugin offers, naming exactly the
    /// functions that [`Plugin::exposes`] holds of.
    fn exposed_functions(&self) -> (r: Vec<Function>)
        ensures
            forall|m: Seq<char>|
                #[trigger] self.exposes(m) <==> exists|k: int|
                    0 <= k < r@.len() && r@[k].name@ == m,
    ;

    /// Executes the named function on the given arguments. Nothing is
    /// promised of the outcome: the evaluator states what holds whatever
    /// comes back.
    fn function_called(&self, function: &str, arguments: Vec<Value>, ctx: Context) -> (r: Result<
        Vec<MarkdownPart>,
        PluginError,
    >);
}

/// Whether `p` exposes a function named `name`.
pub fn plugin_exposes<P: Plugin>(p: &P, name: &str) -> (r: bool)
    ensures
        r == p.exposes(name@),
{
    let fns = p.exposed_functions();
    let mut k: usize = 0;
    #[verifier::loop_isolation(false)]
    while k < fns.len()
        invariant
            k <= fns@.len(),
            forall|j: int| 0 <= j < k ==> fns@[j].name@ != name@,
        decreases fns@.len() - k,
    {
        if str_eq(name, fns[k].name.as_str()) {
            return true;
        }
        k = k + 1;
    }
    false
}

/// No plugin in the registry exposes `name`.
pub open spec fn no_plugin_for<P: Plugin>(plugins: Seq<P>, name: Seq<char>) -> bool {
    forall|j: int| 0 <= j < plugins.len() ==> !(#[trigger] plugins[j]).exposes(name)
}

/// First-match dispatch: the index of the first plugin, in registration
/// order, that exposes `name`.
pub fn find_plugin<P: Plugin>(plugins: &Vec<P>, name: &str) -> (r: Option<usize>)
    ensures
        r matches Some(j) ==> j < plugins@.len() && plugins@[j as int].exposes(name@) && forall|
            k: int,
        | 0 <= k < j ==> !(#[trigger] plugins@[k]).exposes(name@),
        r is None ==> no_plugin_for(plugins@, name@),
{
    let mut j: usize = 0;
    #[verifier::loop_isolation(false)]
    while j < plugins.len()
        invariant
            j <= plugins@.len(),
            forall|k: int| 0 <= k < j ==> !(#[trigger] plugins@[k]).exposes(name@),
        decreases plugins@.len() - j,
    {
        if plugin_exposes(&plugins[j], name) {
            return Some(j);
        }
        j = j + 1;
    }
    None
}

} // verus!
