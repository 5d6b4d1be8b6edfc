use vstd::prelude::*;

use crate::builtin::capability_functions;
use crate::builtin::core_fn_name;
use crate::builtin::inclusion_result;
use crate::builtin::resolve_inclusion;
use crate::errors::CompErrSpec;
use crate::errors::PluginErrSpec;
use crate::errors::PluginError;
use crate::paths::spec_path_join;
use crate::plugin::Context;
use crate::segment::spec_segment;
use crate::types::Function;
use crate::types::MarkdownPart;
use crate::types::Type;
use crate::types::Value;
use crate::types::ValueSpec;

verus! {

/// A standalone copy of the built-in file-inclusion provider, with the
/// same behaviour as [`crate::Core`]: its verified halves validate a call
/// and turn the outside read's outcome into the final result.
pub struct IncludePlugin;

impl IncludePlugin {
    pub fn new() -> (r: IncludePlugin) {
        IncludePlugin
    }

    /// The functions this provider exposes.
    pub fn exposed_functions(&self) -> (r: Vec<Function>)
        ensures
            r@.len() == 1,
            r@[0].name@ == core_fn_name(),
            r@[0].signatures@.len() == 1,
            r@[0].signatures@[0]@ == seq![Type::Path],
    {
        capability_functions()
    }

    /// See [`resolve_inclusion`].
    pub fn resolve_call(&self, function: &str, arguments: &Vec<Value>, ctx: &Context) -> (r:
        Result<String, PluginError>)
        ensures
            function@ != core_fn_name() ==> (r matches Err(e) && e@
                == PluginErrSpec::FunctionNotFound(function@)),
            function@ == core_fn_name() && !(arguments.deep_view().len() > 0
                && arguments.deep_view()[0] is Path) ==> (r matches Err(e) && e@
                == PluginErrSpec::InvalidArguments),
            (function@ == core_fn_name() && arguments.deep_view().len() > 0
                && arguments.deep_view()[0] is Path) ==> (r matches Ok(s) && s@
                == spec_path_join(ctx.path@, arguments.deep_view()[0]->Path_0)),
    {
        resolve_inclusion(function, arguments, ctx)
    }

    /// See [`inclusion_result`].
    pub fn apply_read(&self, resolved: &str, read: Result<String, String>) -> (r: Result<
        Vec<MarkdownPart>,
        PluginError,
    >)
        ensures
            read matches Err(m) ==> (r matches Err(e) && e@ == PluginErrSpec::ExternalError(m@)),
            read matches Ok(text) ==> match spec_segment(text@, resolved@) {
                Ok(ps) => r matches Ok(v) && v.deep_view() == ps,
                Err(pe) => r matches Err(e) && e@ == PluginErrSpec::CompilationError(
                    Box::new(CompErrSpec::CallParseError(pe)),
                ),
            },
    {
        inclusion_result(resolved, read)
    }
}

} // verus!
