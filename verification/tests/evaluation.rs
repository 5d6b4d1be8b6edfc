use mdpre::Context;
use mdpre::Core;
use mdpre::MarkdownPart;
use mdpre::Plugin;
use mdpre::PluginError;
use mdpre::Value;

/// A provider backed by an in-memory table of files, wiring the library's
/// verified [`Core`] halves to a table lookup in place of a disk read.
struct TablePlugin {
    files: Vec<(String, String)>,
}

impl TablePlugin {
    fn read(&self, path: &str) -> Result<String, String> {
        for (p, content) in &self.files {
            if p == path {
                return Ok(content.clone());
            }
        }
        Err(format!("no entry for {}", path))
    }
}

impl Plugin for TablePlugin {
    fn exposes(&self, _name: mdpre::NameChars) -> bool {
        unreachable!()
    }

    fn exposed_functions(&self) -> Vec<mdpre::Function> {
        Core::new().exposed_functions()
    }

    fn function_called(
        &self,
        function: &str,
        arguments: Vec<Value>,
        ctx: Context,
    ) -> Result<Vec<MarkdownPart>, PluginError> {
        let core = Core::new();
        let resolved = core.resolve_call(function, &arguments, &ctx)?;
        let read = self.read(&resolved);
        core.apply_read(&resolved, read)
    }
}

fn inc() -> String {
    mdpre::capability_name()
}

fn run(top: &str, origin: &str, files: Vec<(&str, &str)>) -> Result<String, PluginError> {
    let files = files
        .into_iter()
        .map(|(p, c)| (p.to_string(), c.to_string()))
        .collect();
    let plugins = vec![TablePlugin { files }];
    let parts = mdpre::segment(top, origin).expect("top document should segment");
    let reduced = mdpre::evaluate(parts, &plugins, 64)?;
    assert!(mdpre::all_text_parts(&reduced));
    Ok(mdpre::rebuild(reduced))
}

#[test]
fn hello_bob_world() {
    let top = format!("Hello {{{{{}(#name.md#)}}}} world", inc());
    let out = run(&top, "top.md", vec![("name.md", "Bob")]).expect("evaluation should succeed");
    assert_eq!(out, "Hello Bob world");
}

#[test]
fn nested_inclusion_resolves_relative_to_each_origin() {
    let top = format!("A {{{{{}(#docs/child.md#)}}}} B", inc());
    let child = format!("C {{{{{}(#grandchild.md#)}}}} D", inc());
    let out = run(
        &top,
        "top.md",
        vec![("docs/child.md", child.as_str()), ("docs/grandchild.md", "GC")],
    )
    .expect("evaluation should succeed");
    assert_eq!(out, "A C GC D B");
}

#[test]
fn unregistered_function_is_function_not_found() {
    let err = run("x {{nope()}} y", "top.md", vec![]).unwrap_err();
    match err {
        PluginError::FunctionNotFound(name) => assert_eq!(name, "nope"),
        other => panic!("expected FunctionNotFound, got {:?}", other),
    }
}

#[test]
fn missing_file_is_an_external_error() {
    let top = format!("{{{{{}(#gone.md#)}}}}", inc());
    let err = run(&top, "top.md", vec![]).unwrap_err();
    assert!(matches!(err, PluginError::ExternalError(_)));
}

#[test]
fn non_path_argument_is_invalid() {
    let top = format!("{{{{{}(3)}}}}", inc());
    let err = run(&top, "top.md", vec![]).unwrap_err();
    assert!(matches!(err, PluginError::InvalidArguments));
    let top = format!("{{{{{}()}}}}", inc());
    let err = run(&top, "top.md", vec![]).unwrap_err();
    assert!(matches!(err, PluginError::InvalidArguments));
}

#[test]
fn parse_failure_in_nested_document_is_a_compilation_error() {
    let top = format!("{{{{{}(#bad.md#)}}}}", inc());
    let err = run(&top, "top.md", vec![("bad.md", "{{a-b()}}")]).unwrap_err();
    assert!(matches!(err, PluginError::CompilationError(_)));
}

#[test]
fn self_inclusion_hits_the_recursion_limit() {
    // The expansion has no cycle detection: a document that transitively
    // expands itself is a known limitation, surfaced here as the bounded
    // nesting budget running out rather than unbounded recursion.
    let a = format!("{{{{{}(#a.md#)}}}}", inc());
    let err = run(&a, "a.md", vec![("a.md", a.as_str())]).unwrap_err();
    assert!(matches!(err, PluginError::RecursionLimit));
}

#[test]
fn zero_fuel_rejects_any_expansion() {
    let top = format!("lead {{{{{}(#x.md#)}}}}", inc());
    let parts = mdpre::segment(&top, "top.md").expect("segmenting failed");
    let plugins = vec![TablePlugin { files: vec![("x.md".to_string(), "X".to_string())] }];
    let err = mdpre::evaluate(parts, &plugins, 0).unwrap_err();
    assert!(matches!(err, mdpre::PluginError::RecursionLimit));
}

#[test]
fn first_matching_plugin_wins() {
    let top = format!("{{{{{}(#x.md#)}}}}", inc());
    let parts = mdpre::segment(&top, "top.md").expect("segmenting failed");
    let first = TablePlugin { files: vec![("x.md".to_string(), "FIRST".to_string())] };
    let second = TablePlugin { files: vec![("x.md".to_string(), "SECOND".to_string())] };
    let plugins = vec![first, second];
    let reduced = mdpre::evaluate(parts, &plugins, 8).expect("evaluation should succeed");
    assert_eq!(mdpre::rebuild(reduced), "FIRST");
}

#[test]
fn text_only_document_passes_through_evaluation() {
    let plugins: Vec<TablePlugin> = vec![];
    let parts = mdpre::segment("just text", "top.md").expect("segmenting failed");
    let reduced = mdpre::evaluate(parts, &plugins, 4).expect("evaluation should succeed");
    assert_eq!(reduced.len(), 1);
    assert_eq!(mdpre::rebuild(reduced), "just text");
}

#[test]
fn core_resolves_against_the_invoking_context() {
    let core = Core::new();
    let ctx = Context { path: "docs".to_string() };
    let args = vec![Value::Path("child.md".to_string())];
    let resolved = core
        .resolve_call(&inc(), &args, &ctx)
        .expect("resolution should succeed");
    assert_eq!(resolved, "docs/child.md");
    let err = core.resolve_call("other", &args, &ctx).unwrap_err();
    match err {
        PluginError::FunctionNotFound(name) => assert_eq!(name, "other"),
        other => panic!("expected FunctionNotFound, got {:?}", other),
    }
}

#[test]
fn core_descriptor_names_one_path_signature() {
    let fns = Core::new().exposed_functions();
    assert_eq!(fns.len(), 1);
    assert_eq!(fns[0].name, inc());
    assert_eq!(fns[0].signatures, vec![vec![mdpre::Type::Path]]);
}

#[test]
fn include_plugin_matches_core() {
    let plugin = mdpre::IncludePlugin::new();
    let fns = plugin.exposed_functions();
    assert_eq!(fns[0].name, inc());
    let ctx = Context { path: String::new() };
    let args = vec![Value::Path("x.md".to_string())];
    let resolved = plugin
        .resolve_call(&inc(), &args, &ctx)
        .expect("resolution should succeed");
    assert_eq!(resolved, "x.md");
    let out = plugin
        .apply_read(&resolved, Ok("plain".to_string()))
        .expect("a plain read should segment");
    assert_eq!(mdpre::rebuild(out), "plain");
    let err = plugin.apply_read(&resolved, Err("boom".to_string())).unwrap_err();
    assert!(matches!(err, PluginError::ExternalError(m) if m == "boom"));
}
