use swc_wallaby::ast::{Node, NodeKind, Span};
use swc_wallaby::ranges::{get_ranges, immutable_visit_as_folder, Fold, RangeCollector, Visit};
use swc_wallaby::source_index::{Range, SourceIndex};
use swc_wallaby::transform::{my_transform, TransformError, TransformOptions};

fn at_span(lo: u32, hi: u32) -> Span {
    Span::Real { lo, hi }
}

fn node(kind: NodeKind, span: Span, text: &str, children: Vec<Node>) -> Node {
    Node { kind, span, text: text.to_string(), children }
}

fn ident(name: &str, lo: u32) -> Node {
    node(NodeKind::Ident { ctxt: 1 }, at_span(lo, lo + name.len() as u32), name, vec![])
}

/// `var a = b ? c() : d();` placed at `at`.
fn var_decl(at: u32) -> Node {
    let call = |name: &str, lo: u32| {
        node(NodeKind::CallExpr, at_span(at + lo, at + lo + 3), "", vec![ident(name, at + lo)])
    };
    let cond = node(
        NodeKind::CondExpr,
        at_span(at + 8, at + 21),
        "",
        vec![ident("b", at + 8), call("c", 12), call("d", 18)],
    );
    let declarator = node(NodeKind::VarDeclarator, at_span(at + 4, at + 21), "", vec![ident("a", at + 4), cond]);
    node(NodeKind::VarDecl, at_span(at, at + 22), "", vec![declarator])
}

fn two_decls(start: u32) -> Node {
    node(NodeKind::Module, at_span(start, start + 45), "", vec![var_decl(start), var_decl(start + 23)])
}

const SOURCE: &str = "var a = b ? c() : d();\nvar a = b ? c() : d();";

fn range(a: usize, b: usize, c: usize, d: usize) -> Range {
    Range { start_line: a, start_col: b, end_line: c, end_col: d }
}

fn options(filename: &str) -> TransformOptions {
    TransformOptions { filename: filename.to_string(), disable_next_ssg: false, pages_dir: None }
}

#[test]
fn ranges() {
    println!("Hello");

    let runner = |start: u32| {
        let idx = SourceIndex::new(start, SOURCE.as_bytes().to_vec()).unwrap();
        my_transform(two_decls(start), &idx, &options("not-unique.js"))
    };

    let ranges1 = runner(0).unwrap().ranges;
    let ranges2 = runner(SOURCE.len() as u32 + 1).unwrap().ranges;

    println!("{:?}", ranges1);
    println!("{:?}", ranges2);

    assert_eq!(ranges1, ranges2);
}

#[test]
fn ranges_follow_preorder_with_lines_and_columns() {
    let idx = SourceIndex::new(0, SOURCE.as_bytes().to_vec()).unwrap();
    let r = get_ranges(&two_decls(0), &idx);
    let line = |l: usize| {
        vec![
            range(l, 0, l, 22),
            range(l, 4, l, 21),
            range(l, 4, l, 5),
            range(l, 8, l, 21),
            range(l, 8, l, 9),
            range(l, 12, l, 15),
            range(l, 12, l, 13),
            range(l, 18, l, 21),
            range(l, 18, l, 19),
        ]
    };
    let mut expected = vec![range(1, 0, 2, 22)];
    expected.extend(line(1));
    expected.extend(line(2));
    assert_eq!(r, expected);
}

#[test]
fn synthetic_spans_are_skipped() {
    let tree = node(
        NodeKind::Module,
        at_span(0, 3),
        "",
        vec![
            node(NodeKind::ExprStmt, Span::Synthetic, "", vec![ident("x", 0)]),
            node(NodeKind::Ident { ctxt: 0 }, Span::Synthetic, "y", vec![]),
        ],
    );
    let mut collector = RangeCollector::new();
    collector.visit_node(&tree);
    assert_eq!(collector.spans, vec![at_span(0, 3), at_span(0, 1)]);
}

#[test]
fn empty_tree_has_no_ranges() {
    let idx = SourceIndex::new(0, vec![]).unwrap();
    let tree = node(NodeKind::Module, Span::Synthetic, "", vec![]);
    assert_eq!(get_ranges(&tree, &idx), vec![]);
}

#[test]
fn columns_count_characters_not_bytes() {
    // "é" takes two bytes, "→" three.
    let text = "é→x\ny";
    let idx = SourceIndex::new(10, text.as_bytes().to_vec()).unwrap();
    assert_eq!(idx.lookup(10), (1, 0));
    assert_eq!(idx.lookup(12), (1, 1));
    assert_eq!(idx.lookup(15), (1, 2));
    assert_eq!(idx.lookup(16), (1, 3));
    assert_eq!(idx.lookup(17), (2, 0));
    assert_eq!(idx.lookup(18), (2, 1));
    assert_eq!(idx.resolve(at_span(12, 18)), range(1, 1, 2, 1));
}

#[test]
fn index_must_stay_below_the_last_position() {
    assert!(SourceIndex::new(u32::MAX - 3, vec![b'a', b'b', b'c']).is_none());
    assert!(SourceIndex::new(u32::MAX - 4, vec![b'a', b'b', b'c']).is_some());
}

#[test]
fn span_outside_file_is_refused() {
    let idx = SourceIndex::new(0, b"ab".to_vec()).unwrap();
    let tree = node(NodeKind::Module, at_span(0, 5), "", vec![]);
    let r = my_transform(tree, &idx, &options(""));
    assert!(matches!(r, Err(TransformError::SpanOutsideFile)));
}

#[test]
fn immutable_folder_returns_tree_unchanged() {
    let mut folder = immutable_visit_as_folder(RangeCollector::new());
    let out = folder.fold_node(two_decls(0));
    assert_eq!(format!("{:?}", out), format!("{:?}", two_decls(0)));
    assert_eq!(folder.0.spans.len(), 19);
    assert_eq!(folder.0.spans[0], at_span(0, 45));
}

#[test]
fn reversed_span_is_refused() {
    let idx = SourceIndex::new(0, b"abcd".to_vec()).unwrap();
    let tree = node(NodeKind::Module, at_span(3, 1), "", vec![]);
    let r = my_transform(tree, &idx, &options(""));
    assert!(matches!(r, Err(TransformError::SpanOutsideFile)));
}
