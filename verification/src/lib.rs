//! A text preprocessor library: it scans a document for embedded function-call
//! macros, resolves them through a registry of plugins, recursively expands the
//! results, and reassembles plain text.

pub mod args;
pub mod builtin;
pub mod calls;
pub mod chars;
pub mod errors;
pub mod evaluate;
pub mod inclusion;
pub mod numbers;
pub mod paths;
pub mod plugin;
pub mod segment;
pub mod types;

pub use args::parse_arg;
pub use args::trim;
pub use builtin::capability_name;
pub use builtin::Core;
pub use calls::parse_call;
pub use errors::CallParseError;
pub use errors::CompilationError;
pub use errors::PluginError;
pub use evaluate::all_text_parts;
pub use evaluate::evaluate;
pub use evaluate::rebuild;
pub use inclusion::IncludePlugin;
pub use numbers::parse_i64;
pub use paths::path_join;
pub use paths::path_parent;
pub use plugin::find_plugin;
pub use plugin::plugin_exposes;
pub use plugin::Context;
pub use plugin::NameChars;
pub use plugin::Plugin;
pub use segment::segment;
pub use types::Function;
pub use types::MarkdownPart;
pub use types::PartSpec;
pub use types::Type;
pub use types::Value;
pub use types::ValueSpec;
