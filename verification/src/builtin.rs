use vstd::prelude::*;

use crate::chars::str_eq;
use crate::errors::CompErrSpec;
use crate::errors::CompilationError;
use crate::errors::PluginErrSpec;
use crate::errors::PluginError;
use crate::paths::path_join;
use crate::paths::spec_path_join;
use crate::plugin::Context;
use crate::segment::segment;
use crate::segment::spec_segment;
use crate::types::Function;
use crate::types::MarkdownPart;
use crate::types::Type;
use crate::types::Value;
use crate::types::ValueSpec;

verus! {

/// The name of the built-in file-inclusion capability, spelled out
/// character by character.
pub open spec fn core_fn_name() -> Seq<char> {
    seq!['i', 'n', 'c', 'l', 'u', 'd', 'e']
}

/// The built-in capability's name as a string.
pub fn capability_name() -> (r: String)
    ensures
        r@ == core_fn_name(),
{
    let mut r = String::new();
    r.push('i');
    r.push('n');
    r.push('c');
    r.push('l');
    r.push('u');
    r.push('d');
    r.push('e');
    proof {
        assert(r@ =~= core_fn_name());
    }
    r
}

/// The descriptor list of the built-in capability: one function, taking a
/// single path argument.
pub fn capability_functions() -> (r: Vec<Function>)
    ensures
        r@.len() == 1,
        r@[0].name@ == core_fn_name(),
        r@[0].signatures@.len() == 1,
        r@[0].signatures@[0]@ == seq![Type::Path],
{
    let mut sig: Vec<Type> = Vec::new();
    sig.push(Type::Path);
    let mut sigs: Vec<Vec<Type>> = Vec::new();
    sigs.push(sig);
    let mut r: Vec<Function> = Vec::new();
    r.push(Function { name: capability_name(), signatures: sigs });
    proof {
        assert(r@[0].signatures@[0]@ =~= seq![Type::Path]);
    }
    r
}

/// Checks a call dispatched to the built-in capability and resolves its
/// path argument against the invoking context's directory. Any other
/// function name is `FunctionNotFound`; a missing or non-path first
/// argument is `InvalidArguments`. The file read itself happens outside
/// the library, on the resolved path returned here.
pub fn resolve_inclusion(function: &str, arguments: &Vec<Value>, ctx: &Context) -> (r: Result<
    String,
    PluginError,
>)
    ensures
        function@ != core_fn_name() ==> (r matches Err(e) && e@ == PluginErrSpec::FunctionNotFound(
            function@,
        )),
        function@ == core_fn_name() && !(arguments.deep_view().len() > 0
            && arguments.deep_view()[0] is Path) ==> (r matches Err(e) && e@
            == PluginErrSpec::InvalidArguments),
        (function@ == core_fn_name() && arguments.deep_view().len() > 0
            && arguments.deep_view()[0] is Path) ==> (r matches Ok(s) && s@
            == spec_path_join(ctx.path@, arguments.deep_view()[0]->Path_0)),
{
    let name = capability_name();
    if !str_eq(function, name.as_str()) {
        return Err(PluginError::FunctionNotFound(function.to_owned()));
    }
    if arguments.len() == 0 {
        return Err(PluginError::InvalidArguments);
    }
    match &arguments[0] {
        Value::Path(p) => Ok(path_join(ctx.path.as_str(), p.as_str())),
        _ => Err(PluginError::InvalidArguments),
    }
}

/// Turns the outcome of the outside file read into the capability's
/// result: a failed read (its message) becomes `ExternalError`; the text
/// read is segmented with the resolved path as the origin of every node,
/// and a parse failure is nested as a compilation error.
pub fn inclusion_result(resolved: &str, read: Result<String, String>) -> (r: Result<
    Vec<MarkdownPart>,
    PluginError,
>)
    ensures
        read matches Err(m) ==> (r matches Err(e) && e@ == PluginErrSpec::ExternalError(m@)),
        read matches Ok(text) ==> match spec_segment(text@, resolved@) {
            Ok(ps) => r matches Ok(v) && v.deep_view() == ps,
            Err(pe) => r matches Err(e) && e@ == PluginErrSpec::CompilationError(
                Box::new(CompErrSpec::CallParseError(pe)),
            ),
        },
{
    match read {
        Err(m) => Err(PluginError::ExternalError(m)),
        Ok(text) => match segment(text.as_str(), resolved) {
            Ok(v) => Ok(v),
            Err(ce) => Err(PluginError::CompilationError(Box::new(ce))),
        },
    }
}

/// The built-in provider: it exposes the file-inclusion capability. Its
/// verified halves are [`Core::resolve_call`], which validates a call and
/// resolves the target path, and [`Core::apply_read`], which turns the
/// outside read's outcome into the final result; the caller performs the
/// read between the two.
pub struct Core;

impl Core {
    pub fn new() -> (r: Core) {
        Core
    }

    /// The functions this provider exposes.
    pub fn exposed_functions(&self) -> (r: Vec<Function>)
        ensures
            r@.len() == 1,
            r@[0].name@ == core_fn_name(),
            r@[0].signatures@.len() == 1,
            r@[0].signatures@[0]@ == seq![Type::Path],
    {
        capability_functions()
    }

    /// See [`resolve_inclusion`].
    pub fn resolve_call(&self, function: &str, arguments: &Vec<Value>, ctx: &Context) -> (r:
        Result<String, PluginError>)
        ensures
            function@ != core_fn_name() ==> (r matches Err(e) && e@
                == PluginErrSpec::FunctionNotFound(function@)),
            function@ == core_fn_name() && !(arguments.deep_view().len() > 0
                && arguments.deep_view()[0] is Path) ==> (r matches Err(e) && e@
                == PluginErrSpec::InvalidArguments),
            (function@ == core_fn_name() && arguments.deep_view().len() > 0
                && arguments.deep_view()[0] is Path) ==> (r matches Ok(s) && s@
                == spec_path_join(ctx.path@, arguments.deep_view()[0]->Path_0)),
    {
        resolve_inclusion(function, arguments, ctx)
    }

    /// See [`inclusion_result`].
    pub fn apply_read(&self, resolved: &str, read: Result<String, String>) -> (r: Result<
        Vec<MarkdownPart>,
        PluginError,
    >)
        ensures
            read matches Err(m) ==> (r matches Err(e) && e@ == PluginErrSpec::ExternalError(m@)),
            read matches Ok(text) ==> match spec_segment(text@, resolved@) {
                Ok(ps) => r matches Ok(v) && v.deep_view() == ps,
                Err(pe) => r matches Err(e) && e@ == PluginErrSpec::CompilationError(
                    Box::new(CompErrSpec::CallParseError(pe)),
                ),
            },
    {
        inclusion_result(resolved, read)
    }
}

} // verus!
