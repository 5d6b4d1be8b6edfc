use vstd::prelude::*;

verus! {

/// A local syntax error in one call's argument list.
#[derive(Debug, Clone, PartialEq, Eq, Structural)]
pub enum CallParseError {
    /// A character that may not appear before the opening parenthesis.
    InvalidSymbol(char),
    /// An argument whose buffer trims to nothing.
    EmptyArgument,
    /// A path or string literal missing its closing delimiter.
    UnclosedLiteral,
    /// A bare argument that is not a valid signed 64-bit decimal integer.
    ParseIntError,
}

/// An error raised by a plugin, or by dispatching to one.
#[derive(Debug)]
pub enum PluginError {
    /// No registered plugin exposes the requested function.
    FunctionNotFound(String),
    /// The call's arguments have the wrong count or shape for the function.
    InvalidArguments,
    /// A failure in an external effect, e.g. a failed file read.
    ExternalError(String),
    /// A failure surfaced from recursively processing another document.
    CompilationError(Box<CompilationError>),
    /// Call expansion exceeded the caller-chosen nesting budget.
    RecursionLimit,
}

/// The top-level error union: one type that can cross document-inclusion
/// boundaries.
#[derive(Debug)]
pub enum CompilationError {
    PluginError(PluginError),
    IOError(String),
    CallParseError(CallParseError),
}

/// The mathematical model of a [`PluginError`].
pub enum PluginErrSpec {
    FunctionNotFound(Seq<char>),
    InvalidArguments,
    ExternalError(Seq<char>),
    CompilationError(Box<CompErrSpec>),
    RecursionLimit,
}

/// The mathematical model of a [`CompilationError`].
pub enum CompErrSpec {
    PluginError(Box<PluginErrSpec>),
    IOError(Seq<char>),
    CallParseError(CallParseError),
}

impl View for PluginError {
    type V = PluginErrSpec;

    open spec fn view(&self) -> PluginErrSpec
        decreases self,
    {
        match self {
            PluginError::FunctionNotFound(name) => PluginErrSpec::FunctionNotFound(name@),
            PluginError::InvalidArguments => PluginErrSpec::InvalidArguments,
            PluginError::ExternalError(msg) => PluginErrSpec::ExternalError(msg@),
            PluginError::CompilationError(e) => PluginErrSpec::CompilationError(
                Box::new(compilation_err_view(**e)),
            ),
            PluginError::RecursionLimit => PluginErrSpec::RecursionLimit,
        }
    }
}

/// The model of a [`CompilationError`], as a named spec function so that it
/// can recurse with [`PluginError::view`].
pub open spec fn compilation_err_view(e: CompilationError) -> CompErrSpec
    decreases e,
{
    match e {
        CompilationError::PluginError(p) => CompErrSpec::PluginError(Box::new(p@)),
        CompilationError::IOError(msg) => CompErrSpec::IOError(msg@),
        CompilationError::CallParseError(c) => CompErrSpec::CallParseError(c),
    }
}

impl View for CompilationError {
    type V = CompErrSpec;

    open spec fn view(&self) -> CompErrSpec {
        compilation_err_view(*self)
    }
}

} // verus!
