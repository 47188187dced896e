use swc_wallaby::ast::{BinaryOp, Node, NodeKind, Span};
use swc_wallaby::next_dynamic::{
    next_dynamic, pick_relative, rel_filename, Diagnostic, DiagnosticKind, FileName, NextDynamicPatcher,
};
use swc_wallaby::ranges::Fold;
use swc_wallaby::source_index::SourceIndex;
use swc_wallaby::transform::{file_name_of, my_transform, TransformOptions};

fn at_span(lo: u32, hi: u32) -> Span {
    Span::Real { lo, hi }
}

fn node(kind: NodeKind, span: Span, text: &str, children: Vec<Node>) -> Node {
    Node { kind, span, text: text.to_string(), children }
}

fn ident(name: &str, ctxt: u32) -> Node {
    node(NodeKind::Ident { ctxt }, at_span(40, 43), name, vec![])
}

fn str_lit(value: &str) -> Node {
    node(NodeKind::Str, at_span(50, 56), value, vec![])
}

fn synth(kind: NodeKind, children: Vec<Node>) -> Node {
    node(kind, Span::Synthetic, "", children)
}

fn synth_leaf(kind: NodeKind, text: &str) -> Node {
    node(kind, Span::Synthetic, text, vec![])
}

/// `() => import(specifier)`
fn arrow_import(specifier: &str) -> Node {
    let call = node(NodeKind::CallExpr, at_span(46, 58), "", vec![ident("import", 0), str_lit(specifier)]);
    node(NodeKind::ArrowExpr, at_span(40, 58), "", vec![call])
}

/// `ssr: false`
fn ssr_false() -> Node {
    node(
        NodeKind::KeyValueProp,
        at_span(62, 72),
        "",
        vec![ident("ssr", 0), node(NodeKind::Bool, at_span(67, 72), "false", vec![])],
    )
}

/// `import Dyn from "<module>"; Dyn(args...)`
fn program(module: &str, callee_ctxt: u32, args: Vec<Node>) -> Node {
    let local = node(NodeKind::Ident { ctxt: 1 }, at_span(7, 10), "Dyn", vec![]);
    let spec = node(NodeKind::ImportDefaultSpecifier, at_span(7, 10), "", vec![local]);
    let decl = node(NodeKind::ImportDecl, at_span(0, 30), "", vec![spec, str_lit(module)]);
    let mut call_children = vec![node(NodeKind::Ident { ctxt: callee_ctxt }, at_span(31, 34), "Dyn", vec![])];
    call_children.extend(args);
    let call = node(NodeKind::CallExpr, at_span(31, 80), "", call_children);
    let stmt = node(NodeKind::ExprStmt, at_span(31, 81), "", vec![call]);
    node(NodeKind::Module, at_span(0, 81), "", vec![decl, stmt])
}

fn the_call(p: &Node) -> &Node {
    &p.children[1].children[0]
}

fn run(patcher: &mut NextDynamicPatcher, p: Node) -> Node {
    patcher.fold_node(p)
}

fn patcher() -> NextDynamicPatcher {
    next_dynamic(
        FileName::Real("/project/pages/index.js".to_string()),
        Some("/project".to_string()),
    )
}

fn expected_loadable(file: &str, module_prefix: &str, specifier: &str) -> Node {
    let resolve_weak = synth(
        NodeKind::MemberExpr { computed: false },
        vec![synth_leaf(NodeKind::Ident { ctxt: 0 }, "require"), synth_leaf(NodeKind::Ident { ctxt: 0 }, "resolveWeak")],
    );
    let call = synth(NodeKind::CallExpr, vec![resolve_weak, synth_leaf(NodeKind::Str, file)]);
    let webpack = synth(NodeKind::ArrowExpr, vec![synth(NodeKind::ArrayLit, vec![call])]);
    let sum = synth(
        NodeKind::BinExpr { op: BinaryOp::Add },
        vec![synth_leaf(NodeKind::Str, module_prefix), synth_leaf(NodeKind::Str, specifier)],
    );
    let modules = synth(NodeKind::ArrayLit, vec![sum]);
    let generated = synth(
        NodeKind::ObjectLit,
        vec![
            synth(NodeKind::KeyValueProp, vec![synth_leaf(NodeKind::Ident { ctxt: 0 }, "webpack"), webpack]),
            synth(NodeKind::KeyValueProp, vec![synth_leaf(NodeKind::Ident { ctxt: 0 }, "modules"), modules]),
        ],
    );
    synth(NodeKind::KeyValueProp, vec![synth_leaf(NodeKind::Ident { ctxt: 0 }, "loadableGenerated"), generated])
}

fn dbg(n: &Node) -> String {
    format!("{:?}", n)
}

/// The text of the human-readable module name in an annotated call.
fn module_name(call: &Node) -> String {
    let generated = &call.children[2].children[0].children[1];
    let sum = &generated.children[1].children[1].children[0];
    format!("{}{}", sum.children[0].text, sum.children[1].text)
}

#[test]
fn annotates_helper_call_with_module_name() {
    let mut p = patcher();
    let out = run(&mut p, program("next/dynamic", 1, vec![arrow_import("../x")]));
    let call = the_call(&out);
    assert_eq!(call.children.len(), 3);
    assert_eq!(module_name(call), "pages/index.js -> ../x");
    let expected = synth(
        NodeKind::ObjectLit,
        vec![expected_loadable("/project/pages/index.js", "pages/index.js -> ", "../x")],
    );
    assert_eq!(dbg(&call.children[2]), dbg(&expected));
    assert!(p.diagnostics.is_empty());
    assert!(p.dynamically_imported_specifier.is_none());
    assert!(!p.is_next_dynamic_first_arg);
}

#[test]
fn zero_arguments_is_reported_and_left_alone() {
    let mut p = patcher();
    let input = program("next/dynamic", 1, vec![]);
    let out = run(&mut p, program("next/dynamic", 1, vec![]));
    assert_eq!(dbg(&out), dbg(&input));
    assert_eq!(p.diagnostics, vec![Diagnostic { span: at_span(31, 34), kind: DiagnosticKind::MissingArgument }]);
    assert_eq!(p.diagnostics[0].message(), "next/dynamic requires at least one argument");
}

#[test]
fn three_arguments_is_reported_and_left_alone() {
    let mut p = patcher();
    let args = || vec![ident("a", 0), ident("b", 0), ident("c", 0)];
    let input = program("next/dynamic", 1, args());
    let out = run(&mut p, program("next/dynamic", 1, args()));
    assert_eq!(dbg(&out), dbg(&input));
    assert_eq!(p.diagnostics, vec![Diagnostic { span: at_span(31, 34), kind: DiagnosticKind::TooManyArguments }]);
    assert_eq!(p.diagnostics[0].message(), "next/dynamic only accepts 2 arguments");
}

#[test]
fn existing_options_are_kept_after_the_metadata() {
    let mut p = patcher();
    let options = node(NodeKind::ObjectLit, at_span(60, 74), "", vec![ssr_false()]);
    let out = run(&mut p, program("next/dynamic", 1, vec![arrow_import("../x"), options]));
    let call = the_call(&out);
    assert_eq!(call.children.len(), 3);
    let props = &call.children[2];
    assert_eq!(props.kind, NodeKind::ObjectLit);
    assert_eq!(props.span, Span::Synthetic);
    assert_eq!(props.children.len(), 2);
    assert_eq!(dbg(&props.children[0]), dbg(&expected_loadable("/project/pages/index.js", "pages/index.js -> ", "../x")));
    assert_eq!(dbg(&props.children[1]), dbg(&ssr_false()));
}

#[test]
fn colliding_option_key_comes_last_and_wins() {
    let mut p = patcher();
    let own = node(
        NodeKind::KeyValueProp,
        at_span(62, 80),
        "",
        vec![ident("loadableGenerated", 0), node(NodeKind::Null, at_span(75, 79), "null", vec![])],
    );
    let options = node(NodeKind::ObjectLit, at_span(60, 80), "", vec![own]);
    let out = run(&mut p, program("next/dynamic", 1, vec![arrow_import("../x"), options]));
    let props = &the_call(&out).children[2].children;
    assert_eq!(props.len(), 2);
    assert_eq!(props[0].children[0].text, "loadableGenerated");
    assert_eq!(props[1].children[0].text, "loadableGenerated");
    assert_eq!(props[1].children[1].kind, NodeKind::Null);
}

#[test]
fn second_argument_that_is_no_object_is_replaced() {
    let mut p = patcher();
    let out = run(&mut p, program("next/dynamic", 1, vec![arrow_import("../x"), ident("opts", 0)]));
    let call = the_call(&out);
    assert_eq!(call.children.len(), 3);
    assert_eq!(call.children[2].children.len(), 1);
    assert_eq!(module_name(call), "pages/index.js -> ../x");
}

#[test]
fn without_root_the_raw_path_is_used() {
    let mut p = next_dynamic(FileName::Real("/project/pages/index.js".to_string()), None);
    let out = run(&mut p, program("next/dynamic", 1, vec![arrow_import("../x")]));
    assert_eq!(module_name(the_call(&out)), "/project/pages/index.js -> ../x");
}

#[test]
fn anonymous_file_is_named_anon() {
    let mut p = next_dynamic(FileName::Anon, Some("/project".to_string()));
    let out = run(&mut p, program("next/dynamic", 1, vec![arrow_import("../x")]));
    let call = the_call(&out);
    assert_eq!(module_name(call), "<anon> -> ../x");
    assert_eq!(FileName::Anon.to_string(), "<anon>");
}

#[test]
fn first_argument_without_import_is_left_alone() {
    let mut p = patcher();
    let load = node(NodeKind::CallExpr, at_span(46, 52), "", vec![ident("load", 0)]);
    let arrow = || node(NodeKind::ArrowExpr, at_span(40, 52), "", vec![load.deep_copy()]);
    let input = program("next/dynamic", 1, vec![arrow()]);
    let out = run(&mut p, program("next/dynamic", 1, vec![arrow()]));
    assert_eq!(dbg(&out), dbg(&input));
    assert!(p.diagnostics.is_empty());
}

#[test]
fn other_modules_and_other_bindings_are_ignored() {
    let mut p = patcher();
    let input = program("next/other", 1, vec![arrow_import("../x")]);
    let out = run(&mut p, program("next/other", 1, vec![arrow_import("../x")]));
    assert_eq!(dbg(&out), dbg(&input));
    assert!(p.dynamic_bindings.is_empty());

    let mut q = patcher();
    let input = program("next/dynamic", 2, vec![arrow_import("../x")]);
    let out = run(&mut q, program("next/dynamic", 2, vec![arrow_import("../x")]));
    assert_eq!(dbg(&out), dbg(&input));
    assert_eq!(q.dynamic_bindings.len(), 1);
    assert_eq!(q.dynamic_bindings[0].sym, "Dyn");
    assert_eq!(q.dynamic_bindings[0].ctxt, 1);
}

#[test]
fn relative_path_comes_from_the_root() {
    let file = FileName::Real("/project/pages/a/b.js".to_string());
    assert_eq!(rel_filename(&Some("/project/pages".to_string()), &file), "a/b.js");
    assert_eq!(rel_filename(&Some("/project/lib".to_string()), &file), "../pages/a/b.js");
    assert_eq!(rel_filename(&None, &file), "/project/pages/a/b.js");
    assert_eq!(rel_filename(&Some("/project".to_string()), &FileName::Anon), "<anon>");
    // A relative file under an absolute root has no relative path.
    let relative = FileName::Real("pages/a.js".to_string());
    assert_eq!(rel_filename(&Some("/project".to_string()), &relative), "pages/a.js");
    assert_eq!(pick_relative(&"p".to_string(), Some("q".to_string())), "q");
    assert_eq!(pick_relative(&"p".to_string(), None), "p");
}

#[test]
fn transform_reports_ranges_of_the_tree_as_read() {
    let text: String = std::iter::repeat('x').take(81).collect();
    let idx = SourceIndex::new(0, text.into_bytes()).unwrap();
    let options = TransformOptions {
        filename: "/project/pages/index.js".to_string(),
        disable_next_ssg: false,
        pages_dir: Some("/project/pages".to_string()),
    };
    let out = my_transform(program("next/dynamic", 1, vec![arrow_import("../x")]), &idx, &options).unwrap();
    // Module, import, specifier, local, source, statement, call, callee,
    // arrow, import call, `import`, specifier literal.
    assert_eq!(out.ranges.len(), 12);
    assert_eq!(module_name(the_call(&out.program)), "index.js -> ../x");
    assert!(out.diagnostics.is_empty());
}

#[test]
fn empty_filename_is_anonymous() {
    assert!(matches!(file_name_of(&String::new()), FileName::Anon));
    assert!(matches!(file_name_of(&"a.js".to_string()), FileName::Real(p) if p == "a.js"));
}

/// `Dyn(() => import(specifier))` with the helper's binding.
fn helper_call(specifier: &str) -> Node {
    let callee = node(NodeKind::Ident { ctxt: 1 }, at_span(41, 44), "Dyn", vec![]);
    node(NodeKind::CallExpr, at_span(41, 60), "", vec![callee, arrow_import(specifier)])
}

#[test]
fn nested_helper_call_is_left_as_written() {
    let mut p = patcher();
    let inner = || node(NodeKind::ArrowExpr, at_span(38, 60), "", vec![helper_call("../y")]);
    let out = run(&mut p, program("next/dynamic", 1, vec![inner()]));
    let call = the_call(&out);
    assert_eq!(call.children.len(), 3);
    assert_eq!(module_name(call), "pages/index.js -> ../y");
    // The inner call keeps its one argument and gets no metadata.
    assert_eq!(dbg(&call.children[1]), dbg(&inner()));
    assert_eq!(call.children[1].children[0].children.len(), 2);
    assert!(p.diagnostics.is_empty());
}

#[test]
fn options_are_kept_as_written() {
    let mut p = patcher();
    let loading = || {
        node(
            NodeKind::KeyValueProp,
            at_span(62, 90),
            "",
            vec![ident("loading", 0), helper_call("../z")],
        )
    };
    let options = node(NodeKind::ObjectLit, at_span(60, 92), "", vec![loading(), ssr_false()]);
    let out = run(&mut p, program("next/dynamic", 1, vec![arrow_import("../x"), options]));
    let call = the_call(&out);
    let props = &call.children[2].children;
    assert_eq!(props.len(), 3);
    assert_eq!(module_name(call), "pages/index.js -> ../x");
    assert_eq!(dbg(&props[1]), dbg(&loading()));
    assert_eq!(dbg(&props[2]), dbg(&ssr_false()));
}
