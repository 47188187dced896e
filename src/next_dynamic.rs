use vstd::prelude::*;
use vstd::string::StringExecFns;
use crate::ast::{BinaryOp, Node, NodeKind, NodeV, Span};
use crate::ranges::{spans_of, spans_of_all, Fold};

verus! {

/// The name of the file being transformed.
#[derive(Debug)]
pub enum FileName {
    /// A file on disk, by its path.
    Real(String),
    /// Source text that came from no file.
    Anon,
}

/// The text that names a file, given its path where it has one.
pub open spec fn display_of(path: Option<Seq<char>>) -> Seq<char> {
    match path {
        Some(p) => p,
        None => "<anon>"@,
    }
}

impl FileName {
    /// The path of a file on disk; `None` for other sources.
    pub open spec fn path_view(&self) -> Option<Seq<char>> {
        match self {
            FileName::Real(p) => Some(p@),
            FileName::Anon => None,
        }
    }

    /// The text that names the file.
    pub open spec fn display(&self) -> Seq<char> {
        display_of(self.path_view())
    }

    pub fn to_string(&self) -> (r: String)
        ensures
            r@ == self.display(),
    {
        match self {
            FileName::Real(p) => p.clone(),
            FileName::Anon => String::from_str("<anon>"),
        }
    }
}

/// What `pathdiff::diff_paths` gives for a path and a base directory, both
/// as text, with the result as text.
pub uninterp spec fn diff_paths_of(path: Seq<char>, base: Seq<char>) -> Option<Seq<char>>;

/// Relies on `pathdiff::diff_paths`: the path of `path` relative to `base`,
/// or `None` where there is none; the result depends on the two paths alone.
#[verifier::external_body]
fn diff_paths_str(path: &str, base: &str) -> (r: Option<String>)
    ensures
        match r {
            Some(s) => diff_paths_of(path@, base@) == Some(s@),
            None => diff_paths_of(path@, base@) is None,
        },
{
    pathdiff::diff_paths(path, base).map(|p| p.display().to_string())
}

/// The text of an optional string.
pub open spec fn opt_view(o: Option<String>) -> Option<Seq<char>> {
    match o {
        Some(s) => Some(s@),
        None => None,
    }
}

/// The file's path relative to `base`: the file's own name where there is no
/// base or the file is not on disk, its full path where no relative path
/// exists.
pub open spec fn rel_filename_spec(base: Option<Seq<char>>, file: Option<Seq<char>>) -> Seq<char> {
    match (base, file) {
        (Some(b), Some(p)) => match diff_paths_of(p, b) {
            Some(rel) => rel,
            None => p,
        },
        _ => display_of(file),
    }
}

/// The relative path where one was found, else the path itself.
pub fn pick_relative(path: &String, rel: Option<String>) -> (r: String)
    ensures
        r@ == match rel {
            Some(s) => s@,
            None => path@,
        },
{
    match rel {
        Some(s) => s,
        None => path.clone(),
    }
}

/// The file's path relative to `base`, for the human-readable module name.
pub fn rel_filename(base: &Option<String>, file: &FileName) -> (r: String)
    ensures
        r@ == rel_filename_spec(opt_view(*base), file.path_view()),
{
    match base {
        None => file.to_string(),
        Some(b) => match file {
            FileName::Real(p) => pick_relative(p, diff_paths_str(p.as_str(), b.as_str())),
            FileName::Anon => file.to_string(),
        },
    }
}

/// Why a call to the helper was left as it was.
#[derive(Clone, Copy, Debug, PartialEq, Eq, Structural)]
pub enum DiagnosticKind {
    /// The call has no argument.
    MissingArgument,
    /// The call has more than two arguments.
    TooManyArguments,
}

/// An error reported at a call site; the pass goes on after it.
#[derive(Clone, Copy, Debug, PartialEq, Eq, Structural)]
pub struct Diagnostic {
    /// The span of the callee.
    pub span: Span,
    pub kind: DiagnosticKind,
}

impl Diagnostic {
    pub open spec fn message_spec(&self) -> Seq<char> {
        match self.kind {
            DiagnosticKind::MissingArgument => "next/dynamic requires at least one argument"@,
            DiagnosticKind::TooManyArguments => "next/dynamic only accepts 2 arguments"@,
        }
    }

    pub fn message(&self) -> (r: String)
        ensures
            r@ == self.message_spec(),
    {
        match self.kind {
            DiagnosticKind::MissingArgument => String::from_str("next/dynamic requires at least one argument"),
            DiagnosticKind::TooManyArguments => String::from_str("next/dynamic only accepts 2 arguments"),
        }
    }
}

/// A local binding: its name and its hygiene context.
#[derive(Debug)]
pub struct BindingId {
    pub sym: String,
    pub ctxt: u32,
}

/// What the pass carries from node to node: the bindings of the helper seen
/// so far, the specifier captured in the first argument of a helper call,
/// and the diagnostics reported.
pub struct PassState {
    pub bindings: Seq<(Seq<char>, u32)>,
    pub specifier: Option<Seq<char>>,
    pub diagnostics: Seq<Diagnostic>,
}

/// The local binding that a default import specifier introduces.
pub open spec fn default_local(c: NodeV) -> Option<(Seq<char>, u32)> {
    if c.kind is ImportDefaultSpecifier && c.children.len() >= 1 && c.children[0].kind is Ident {
        Some((c.children[0].text, c.children[0].kind->Ident_ctxt))
    } else {
        None
    }
}

/// The bindings that a list of import specifiers introduces by default
/// import, in order.
pub open spec fn default_locals(s: Seq<NodeV>) -> Seq<(Seq<char>, u32)>
    decreases s.len(),
{
    if s.len() == 0 {
        Seq::empty()
    } else {
        default_locals(s.drop_last()) + match default_local(s.last()) {
            Some(b) => seq![b],
            None => Seq::empty(),
        }
    }
}

/// An import declaration whose source is the helper module.
pub open spec fn imports_helper(n: NodeV) -> bool {
    &&& n.children.len() >= 1
    &&& n.children.last().kind is Str
    &&& n.children.last().text == "next/dynamic"@
}

/// The state after an import declaration: a declaration of the helper module
/// adds each binding it imports by default.
pub open spec fn import_bindings(st: PassState, n: NodeV) -> PassState {
    if imports_helper(n) {
        PassState {
            bindings: st.bindings + default_locals(n.children.drop_last()),
            specifier: st.specifier,
            diagnostics: st.diagnostics,
        }
    } else {
        st
    }
}

/// A call of the module-loading primitive whose sole argument is a string
/// literal.
pub open spec fn is_import_call(n: NodeV) -> bool {
    &&& n.kind is CallExpr
    &&& n.children.len() == 2
    &&& n.children[0].kind is Ident
    &&& n.children[0].text == "import"@
    &&& n.children[1].kind is Str
}

/// The walk of the first argument of a helper call: nothing is rewritten, a
/// call of the loading primitive captures its specifier (the last one walked
/// wins), and import declarations are registered as anywhere else.
pub open spec fn scan(st: PassState, n: NodeV) -> PassState
    decreases n,
{
    if n.kind is ImportDecl {
        import_bindings(st, n)
    } else {
        let st1 = if is_import_call(n) {
            PassState { bindings: st.bindings, specifier: Some(n.children[1].text), diagnostics: st.diagnostics }
        } else {
            st
        };
        scan_all(st1, n.children)
    }
}

/// The walk of `scan` over siblings, from left to right.
pub open spec fn scan_all(st: PassState, s: Seq<NodeV>) -> PassState
    decreases s,
{
    if s.len() == 0 {
        st
    } else {
        scan(scan_all(st, s.drop_last()), s.last())
    }
}

/// A synthesized node without children.
pub open spec fn leaf_v(kind: NodeKind, text: Seq<char>) -> NodeV {
    NodeV { kind, span: Span::Synthetic, text, children: Seq::empty() }
}

/// A synthesized node without text.
pub open spec fn branch_v(kind: NodeKind, children: Seq<NodeV>) -> NodeV {
    NodeV { kind, span: Span::Synthetic, text: Seq::empty(), children }
}

/// A synthesized identifier.
pub open spec fn ident_v(name: Seq<char>) -> NodeV {
    leaf_v(NodeKind::Ident { ctxt: 0 }, name)
}

/// The property
/// `loadableGenerated: { webpack: () => [require.resolveWeak(file)], modules: [rel + " -> " + specifier] }`:
/// the loader is resolved against the host file itself, and the module is
/// named by the host file's relative path joined to the specifier.
pub open spec fn loadable_prop(file: Seq<char>, rel: Seq<char>, specifier: Seq<char>) -> NodeV {
    let resolve_weak = branch_v(
        NodeKind::MemberExpr { computed: false },
        seq![ident_v("require"@), ident_v("resolveWeak"@)],
    );
    let webpack = branch_v(
        NodeKind::ArrowExpr,
        seq![branch_v(NodeKind::ArrayLit, seq![branch_v(NodeKind::CallExpr, seq![resolve_weak, leaf_v(NodeKind::Str, file)])])],
    );
    let modules = branch_v(
        NodeKind::ArrayLit,
        seq![branch_v(NodeKind::BinExpr { op: BinaryOp::Add }, seq![leaf_v(NodeKind::Str, rel + " -> "@), leaf_v(NodeKind::Str, specifier)])],
    );
    branch_v(
        NodeKind::KeyValueProp,
        seq![
            ident_v("loadableGenerated"@),
            branch_v(
                NodeKind::ObjectLit,
                seq![
                    branch_v(NodeKind::KeyValueProp, seq![ident_v("webpack"@), webpack]),
                    branch_v(NodeKind::KeyValueProp, seq![ident_v("modules"@), modules]),
                ],
            ),
        ],
    )
}

/// The options argument of an annotated helper call: the metadata first,
/// then the properties of an object literal given as second argument, which
/// win over it under the merge of an object literal.
pub open spec fn options_arg(n: NodeV, file: Seq<char>, rel: Seq<char>, specifier: Seq<char>) -> NodeV {
    let kept = if n.children.len() == 3 && n.children[2].kind is ObjectLit {
        n.children[2].children
    } else {
        Seq::empty()
    };
    branch_v(NodeKind::ObjectLit, seq![loadable_prop(file, rel, specifier)] + kept)
}

/// The call with `arg` as its second argument, in place of the one it had
/// or after its only one.
pub open spec fn with_options(n: NodeV, arg: NodeV) -> NodeV {
    NodeV {
        kind: n.kind,
        span: n.span,
        text: n.text,
        children: if n.children.len() == 3 { n.children.update(2, arg) } else { n.children.push(arg) },
    }
}

/// A call whose callee is a binding of the helper.
pub open spec fn is_helper_call(st: PassState, n: NodeV) -> bool {
    &&& n.children.len() >= 1
    &&& n.children[0].kind is Ident
    &&& st.bindings.contains((n.children[0].text, n.children[0].kind->Ident_ctxt))
}

pub open spec fn report(st: PassState, d: Diagnostic) -> PassState {
    PassState { bindings: st.bindings, specifier: st.specifier, diagnostics: st.diagnostics.push(d) }
}

/// The rewrite of a helper call, whose arguments are not folded: the
/// rewrite is shallow, so a helper call nested in them stays as written. A
/// helper call with no argument, or more than two, is reported and left as
/// it is; with one or two, its first argument is walked for a specifier, and
/// where one was captured the call gets the options argument and the capture
/// is cleared.
pub open spec fn rewrite_call(st: PassState, n: NodeV, file: Seq<char>, rel: Seq<char>) -> (PassState, NodeV) {
    if !is_helper_call(st, n) {
        (st, n)
    } else if n.children.len() == 1 {
        (report(st, Diagnostic { span: n.children[0].span, kind: DiagnosticKind::MissingArgument }), n)
    } else if n.children.len() > 3 {
        (report(st, Diagnostic { span: n.children[0].span, kind: DiagnosticKind::TooManyArguments }), n)
    } else {
        let st2 = scan(st, n.children[1]);
        match st2.specifier {
            None => (st2, n),
            Some(sp) => (
                PassState { bindings: st2.bindings, specifier: None, diagnostics: st2.diagnostics },
                with_options(n, options_arg(n, file, rel, sp)),
            ),
        }
    }
}

/// The pass over a subtree, outside the first argument of a helper call:
/// import declarations are registered and left as they are; a helper call
/// is rewritten by `rewrite_call`; any other node has its children folded
/// from left to right.
pub open spec fn fold(st: PassState, n: NodeV, file: Seq<char>, rel: Seq<char>) -> (PassState, NodeV)
    decreases n,
{
    if n.kind is ImportDecl {
        (import_bindings(st, n), n)
    } else if n.kind is CallExpr && is_helper_call(st, n) {
        rewrite_call(st, n, file, rel)
    } else {
        let (st1, cs) = fold_all(st, n.children, file, rel);
        (st1, NodeV { kind: n.kind, span: n.span, text: n.text, children: cs })
    }
}

/// The pass over siblings, from left to right.
pub open spec fn fold_all(st: PassState, s: Seq<NodeV>, file: Seq<char>, rel: Seq<char>) -> (PassState, Seq<NodeV>)
    decreases s,
{
    if s.len() == 0 {
        (st, Seq::empty())
    } else {
        let (st1, init) = fold_all(st, s.drop_last(), file, rel);
        let (st2, last) = fold(st1, s.last(), file, rel);
        (st2, init.push(last))
    }
}

/// Rewriting is shallow. A helper call with one or two arguments comes back
/// with its callee and first argument as written, so a helper call nested in
/// that argument is not annotated. Where no specifier was captured the call
/// is unchanged; where one was, the call's second argument is an object
/// literal holding the metadata and then every property of the object
/// literal that was given as second argument, in their order, so that on a
/// key collision the given property wins.
pub proof fn lemma_helper_call_shallow(st: PassState, n: NodeV, file: Seq<char>, rel: Seq<char>)
    requires
        n.kind is CallExpr,
        is_helper_call(st, n),
        2 <= n.children.len() <= 3,
    ensures
        ({
            let r = fold(st, n, file, rel).1;
            let captured = scan(st, n.children[1]).specifier;
            &&& r.kind == n.kind
            &&& r.span == n.span
            &&& r.children[0] == n.children[0]
            &&& r.children[1] == n.children[1]
            &&& captured is None ==> r == n
            &&& captured matches Some(sp) ==> {
                &&& r.children.len() == 3
                &&& r.children[2].kind is ObjectLit
                &&& r.children[2].span == Span::Synthetic
                &&& r.children[2].children == seq![loadable_prop(file, rel, sp)] + if n.children.len() == 3
                    && n.children[2].kind is ObjectLit {
                    n.children[2].children
                } else {
                    Seq::empty()
                }
            }
        }),
{
}

proof fn lemma_no_spans_all(cs: Seq<NodeV>)
    requires
        forall|i: int| 0 <= i < cs.len() ==> spans_of(#[trigger] cs[i]) == Seq::<Span>::empty(),
    ensures
        spans_of_all(cs) == Seq::<Span>::empty(),
    decreases cs.len(),
{
    if cs.len() > 0 {
        let init = cs.drop_last();
        assert forall|i: int| 0 <= i < init.len() implies spans_of(#[trigger] init[i]) == Seq::<Span>::empty() by {
            assert(init[i] == cs[i]);
        }
        lemma_no_spans_all(init);
        assert(spans_of(cs.last()) == Seq::<Span>::empty());
        assert(spans_of_all(cs) =~= Seq::<Span>::empty());
    }
}

proof fn lemma_no_spans_branch(kind: NodeKind, cs: Seq<NodeV>)
    requires
        forall|i: int| 0 <= i < cs.len() ==> spans_of(#[trigger] cs[i]) == Seq::<Span>::empty(),
    ensures
        spans_of(branch_v(kind, cs)) == Seq::<Span>::empty(),
{
    lemma_no_spans_all(cs);
    assert(spans_of(branch_v(kind, cs)) =~= Seq::<Span>::empty());
}

proof fn lemma_no_spans_leaf(kind: NodeKind, text: Seq<char>)
    ensures
        spans_of(leaf_v(kind, text)) == Seq::<Span>::empty(),
{
    lemma_no_spans_all(Seq::empty());
    assert(spans_of(leaf_v(kind, text)) =~= Seq::<Span>::empty());
}

proof fn lemma_no_spans_two(kind: NodeKind, a: NodeV, b: NodeV)
    requires
        spans_of(a) == Seq::<Span>::empty(),
        spans_of(b) == Seq::<Span>::empty(),
    ensures
        spans_of(branch_v(kind, seq![a, b])) == Seq::<Span>::empty(),
{
    lemma_no_spans_branch(kind, seq![a, b]);
}

proof fn lemma_no_spans_one(kind: NodeKind, a: NodeV)
    requires
        spans_of(a) == Seq::<Span>::empty(),
    ensures
        spans_of(branch_v(kind, seq![a])) == Seq::<Span>::empty(),
{
    lemma_no_spans_branch(kind, seq![a]);
}

/// The metadata that the pass synthesizes has no real span, so it never
/// shows in the ranges of a tree.
pub proof fn lemma_metadata_has_no_range(file: Seq<char>, rel: Seq<char>, specifier: Seq<char>)
    ensures
        spans_of(loadable_prop(file, rel, specifier)) == Seq::<Span>::empty(),
{
    let id = NodeKind::Ident { ctxt: 0 };
    lemma_no_spans_leaf(id, "require"@);
    lemma_no_spans_leaf(id, "resolveWeak"@);
    lemma_no_spans_leaf(id, "webpack"@);
    lemma_no_spans_leaf(id, "modules"@);
    lemma_no_spans_leaf(id, "loadableGenerated"@);
    lemma_no_spans_leaf(NodeKind::Str, file);
    lemma_no_spans_leaf(NodeKind::Str, rel + " -> "@);
    lemma_no_spans_leaf(NodeKind::Str, specifier);
    let resolve_weak = branch_v(
        NodeKind::MemberExpr { computed: false },
        seq![ident_v("require"@), ident_v("resolveWeak"@)],
    );
    lemma_no_spans_two(NodeKind::MemberExpr { computed: false }, ident_v("require"@), ident_v("resolveWeak"@));
    let call = branch_v(NodeKind::CallExpr, seq![resolve_weak, leaf_v(NodeKind::Str, file)]);
    lemma_no_spans_two(NodeKind::CallExpr, resolve_weak, leaf_v(NodeKind::Str, file));
    let array = branch_v(NodeKind::ArrayLit, seq![call]);
    lemma_no_spans_one(NodeKind::ArrayLit, call);
    let webpack = branch_v(NodeKind::ArrowExpr, seq![array]);
    lemma_no_spans_one(NodeKind::ArrowExpr, array);
    let sum = branch_v(
        NodeKind::BinExpr { op: BinaryOp::Add },
        seq![leaf_v(NodeKind::Str, rel + " -> "@), leaf_v(NodeKind::Str, specifier)],
    );
    lemma_no_spans_two(
        NodeKind::BinExpr { op: BinaryOp::Add },
        leaf_v(NodeKind::Str, rel + " -> "@),
        leaf_v(NodeKind::Str, specifier),
    );
    let modules = branch_v(NodeKind::ArrayLit, seq![sum]);
    lemma_no_spans_one(NodeKind::ArrayLit, sum);
    let p1 = branch_v(NodeKind::KeyValueProp, seq![ident_v("webpack"@), webpack]);
    lemma_no_spans_two(NodeKind::KeyValueProp, ident_v("webpack"@), webpack);
    let p2 = branch_v(NodeKind::KeyValueProp, seq![ident_v("modules"@), modules]);
    lemma_no_spans_two(NodeKind::KeyValueProp, ident_v("modules"@), modules);
    let generated = branch_v(NodeKind::ObjectLit, seq![p1, p2]);
    lemma_no_spans_two(NodeKind::ObjectLit, p1, p2);
    lemma_no_spans_two(NodeKind::KeyValueProp, ident_v("loadableGenerated"@), generated);
}

/// A synthesized node without children.
fn synth_leaf(kind: NodeKind, text: String) -> (r: Node)
    ensures
        r@ == leaf_v(kind, text@),
{
    Node::leaf(kind, Span::Synthetic, text)
}

fn synth_ident(name: &str) -> (r: Node)
    ensures
        r@ == ident_v(name@),
{
    synth_leaf(NodeKind::Ident { ctxt: 0 }, String::from_str(name))
}

/// A synthesized node with one child.
fn synth_one(kind: NodeKind, a: Node) -> (r: Node)
    ensures
        r@ == branch_v(kind, seq![a@]),
{
    let ghost av = a@;
    let mut v: Vec<Node> = Vec::new();
    v.push(a);
    let r = Node::branch(kind, Span::Synthetic, v);
    assert(r@.children =~= seq![av]);
    r
}

/// A synthesized node with two children.
fn synth_two(kind: NodeKind, a: Node, b: Node) -> (r: Node)
    ensures
        r@ == branch_v(kind, seq![a@, b@]),
{
    let ghost av = a@;
    let ghost bv = b@;
    let mut v: Vec<Node> = Vec::new();
    v.push(a);
    v.push(b);
    let r = Node::branch(kind, Span::Synthetic, v);
    assert(r@.children =~= seq![av, bv]);
    r
}

/// Builds `loadable_prop(file, rel, specifier)`.
fn build_loadable_prop(file: String, rel: String, specifier: String) -> (r: Node)
    ensures
        r@ == loadable_prop(file@, rel@, specifier@),
{
    let resolve_weak = synth_two(
        NodeKind::MemberExpr { computed: false },
        synth_ident("require"),
        synth_ident("resolveWeak"),
    );
    let call = synth_two(NodeKind::CallExpr, resolve_weak, synth_leaf(NodeKind::Str, file));
    let webpack = synth_one(NodeKind::ArrowExpr, synth_one(NodeKind::ArrayLit, call));
    let mut module_prefix = rel;
    module_prefix.append(" -> ");
    let sum = synth_two(
        NodeKind::BinExpr { op: BinaryOp::Add },
        synth_leaf(NodeKind::Str, module_prefix),
        synth_leaf(NodeKind::Str, specifier),
    );
    let modules = synth_one(NodeKind::ArrayLit, sum);
    let generated = synth_two(
        NodeKind::ObjectLit,
        synth_two(NodeKind::KeyValueProp, synth_ident("webpack"), webpack),
        synth_two(NodeKind::KeyValueProp, synth_ident("modules"), modules),
    );
    synth_two(NodeKind::KeyValueProp, synth_ident("loadableGenerated"), generated)
}

/// The state a pass starts from: no binding, no capture, no diagnostic.
pub open spec fn initial_state() -> PassState {
    PassState { bindings: Seq::empty(), specifier: None, diagnostics: Seq::empty() }
}

/// The pass that annotates calls of the dynamic-import helper.
#[derive(Debug)]
pub struct NextDynamicPatcher {
    /// The root that the human-readable module name is relative to.
    pub pages_dir: Option<String>,
    /// The file being transformed.
    pub filename: FileName,
    pub dynamic_bindings: Vec<BindingId>,
    /// Set while the first argument of a helper call is walked.
    pub is_next_dynamic_first_arg: bool,
    pub dynamically_imported_specifier: Option<String>,
    pub diagnostics: Vec<Diagnostic>,
}

impl NextDynamicPatcher {
    pub open spec fn state(&self) -> PassState {
        PassState {
            bindings: self.dynamic_bindings@.map_values(|b: BindingId| (b.sym@, b.ctxt)),
            specifier: opt_view(self.dynamically_imported_specifier),
            diagnostics: self.diagnostics@,
        }
    }

    /// The configuration and mode are those of `other`.
    pub open spec fn same_setup(&self, other: &Self) -> bool {
        &&& self.pages_dir == other.pages_dir
        &&& self.filename == other.filename
        &&& self.is_next_dynamic_first_arg == other.is_next_dynamic_first_arg
    }

    /// Whether `(sym, ctxt)` is a binding of the helper.
    fn is_binding(&self, sym: &String, ctxt: u32) -> (r: bool)
        ensures
            r == self.state().bindings.contains((sym@, ctxt)),
    {
        let ghost bs = self.state().bindings;
        let mut i: usize = 0;
        while i < self.dynamic_bindings.len()
            invariant
                i <= self.dynamic_bindings.len(),
                bs == self.state().bindings,
                forall|j: int| 0 <= j < i ==> bs[j] != (sym@, ctxt),
            decreases self.dynamic_bindings.len() - i,
        {
            let b = &self.dynamic_bindings[i];
            if b.ctxt == ctxt && b.sym == *sym {
                assert(bs[i as int] == (sym@, ctxt));
                return true;
            }
            i = i + 1;
        }
        false
    }

    /// Registers the bindings of an import of the helper module; the
    /// declaration itself is left as it is.
    pub fn fold_import_decl(&mut self, decl: &Node)
        ensures
            final(self).state() == import_bindings(old(self).state(), decl@),
            final(self).same_setup(old(self)),
    {
        proof {
            decl.lemma_view();
        }
        let len = decl.children.len();
        if len == 0 {
            return;
        }
        let src = &decl.children[len - 1];
        let helper = String::from_str("next/dynamic");
        if !(src.kind == NodeKind::Str && src.text == helper) {
            return;
        }
        let ghost specs = decl@.children.drop_last();
        let ghost start = self.state().bindings;
        let mut i: usize = 0;
        while i < len - 1
            invariant
                len == decl.children.len(),
                len >= 1,
                i <= len - 1,
                specs == decl@.children.drop_last(),
                self.state().bindings == start + default_locals(specs.subrange(0, i as int)),
                self.state().specifier == old(self).state().specifier,
                self.state().diagnostics == old(self).state().diagnostics,
                self.same_setup(old(self)),
            decreases len - 1 - i,
        {
            let c = &decl.children[i];
            proof {
                c.lemma_view();
            }
            let ghost before = self.state().bindings;
            if c.kind == NodeKind::ImportDefaultSpecifier && c.children.len() >= 1 {
                if let NodeKind::Ident { ctxt } = c.children[0].kind {
                    self.dynamic_bindings.push(BindingId { sym: c.children[0].text.clone(), ctxt });
                    assert(self.state().bindings =~= before.push((c@.children[0].text, ctxt)));
                }
            }
            proof {
                let next = specs.subrange(0, i + 1);
                assert(next.drop_last() =~= specs.subrange(0, i as int));
                assert(next.last() == c@);
                assert(self.state().bindings =~= start + default_locals(next));
            }
            i = i + 1;
        }
        proof {
            assert(specs.subrange(0, (len - 1) as int) =~= specs);
        }
    }

    /// Walks the first argument of a helper call; see `scan`.
    pub fn scan(&mut self, n: &Node)
        ensures
            final(self).state() == scan(old(self).state(), n@),
            final(self).same_setup(old(self)),
        decreases n,
    {
        proof {
            n.lemma_view();
        }
        if n.kind == NodeKind::ImportDecl {
            self.fold_import_decl(n);
            return;
        }
        if n.kind == NodeKind::CallExpr && n.children.len() == 2 && matches!(n.children[0].kind, NodeKind::Ident { .. })
            && n.children[1].kind == NodeKind::Str {
            let import = String::from_str("import");
            if n.children[0].text == import {
                self.dynamically_imported_specifier = Some(n.children[1].text.clone());
            }
        }
        let ghost st1 = self.state();
        let ghost kids = n@.children;
        let mut i: usize = 0;
        while i < n.children.len()
            invariant
                i <= n.children.len(),
                kids == n@.children,
                kids.len() == n.children.len(),
                self.state() == scan_all(st1, kids.subrange(0, i as int)),
                self.same_setup(old(self)),
            decreases n.children.len() - i,
        {
            self.scan(&n.children[i]);
            proof {
                let next = kids.subrange(0, i + 1);
                assert(next.drop_last() =~= kids.subrange(0, i as int));
                assert(next.last() == n.children@[i as int]@);
            }
            i = i + 1;
        }
        proof {
            assert(kids.subrange(0, kids.len() as int) =~= kids);
        }
    }

    /// The text that names the host file.
    pub open spec fn file_text(&self) -> Seq<char> {
        self.filename.display()
    }

    /// The host file's path relative to the configured root.
    pub open spec fn rel_text(&self) -> Seq<char> {
        rel_filename_spec(opt_view(self.pages_dir), self.filename.path_view())
    }

    /// The rewrite of a helper call; see `rewrite_call`.
    fn rewrite_call(&mut self, expr: Node) -> (r: Node)
        requires
            !old(self).is_next_dynamic_first_arg,
        ensures
            (final(self).state(), r@) == rewrite_call(old(self).state(), expr@, old(self).file_text(), old(self).rel_text()),
            final(self).same_setup(old(self)),
    {
        proof {
            expr.lemma_view();
        }
        let len = expr.children.len();
        if len == 0 {
            return expr;
        }
        let ctxt = if let NodeKind::Ident { ctxt } = expr.children[0].kind {
            ctxt
        } else {
            return expr;
        };
        if !self.is_binding(&expr.children[0].text, ctxt) {
            return expr;
        }
        if len == 1 {
            let d = Diagnostic { span: expr.children[0].span, kind: DiagnosticKind::MissingArgument };
            self.diagnostics.push(d);
            return expr;
        }
        if len > 3 {
            let d = Diagnostic { span: expr.children[0].span, kind: DiagnosticKind::TooManyArguments };
            self.diagnostics.push(d);
            return expr;
        }
        self.is_next_dynamic_first_arg = true;
        self.scan(&expr.children[1]);
        self.is_next_dynamic_first_arg = false;
        let specifier = if let Some(sp) = &self.dynamically_imported_specifier {
            sp.clone()
        } else {
            return expr;
        };
        let file = self.filename.to_string();
        let rel = rel_filename(&self.pages_dir, &self.filename);
        let mut props: Vec<Node> = Vec::new();
        props.push(build_loadable_prop(file, rel, specifier));
        let ghost head = props@.map_values(|c: Node| c@);
        assert(head =~= seq![loadable_prop(self.file_text(), self.rel_text(), specifier@)]);
        if len == 3 && expr.children[2].kind == NodeKind::ObjectLit {
            let opts = &expr.children[2];
            proof {
                opts.lemma_view();
            }
            let mut i: usize = 0;
            while i < opts.children.len()
                invariant
                    i <= opts.children.len(),
                    props@.map_values(|c: Node| c@) == head + opts@.children.subrange(0, i as int),
                decreases opts.children.len() - i,
            {
                let c = opts.children[i].deep_copy();
                let ghost before = props@.map_values(|c: Node| c@);
                props.push(c);
                assert(props@.map_values(|c: Node| c@) =~= before.push(opts@.children[i as int]));
                assert(head + opts@.children.subrange(0, i + 1) =~= before.push(opts@.children[i as int]));
                i = i + 1;
            }
            assert(opts@.children.subrange(0, opts@.children.len() as int) =~= opts@.children);
        } else {
            assert(head + Seq::<NodeV>::empty() =~= head);
        }
        let arg = Node::branch(NodeKind::ObjectLit, Span::Synthetic, props);
        assert(arg@ == options_arg(expr@, self.file_text(), self.rel_text(), specifier@));
        let ghost old_expr = expr@;
        let mut expr = expr;
        if len == 3 {
            expr.children[2] = arg;
        } else {
            expr.children.push(arg);
        }
        proof {
            expr.lemma_view();
            assert(expr@.children =~= with_options(old_expr, arg@).children);
            assert(expr@ == with_options(old_expr, arg@));
        }
        self.dynamically_imported_specifier = None;
        expr
    }

    /// The pass over a subtree; see `fold`.
    pub fn fold_tree(&mut self, n: &Node) -> (r: Node)
        requires
            !old(self).is_next_dynamic_first_arg,
        ensures
            (final(self).state(), r@) == fold(old(self).state(), n@, old(self).file_text(), old(self).rel_text()),
            final(self).same_setup(old(self)),
        decreases n, 2nat,
    {
        proof {
            n.lemma_view();
        }
        if n.kind == NodeKind::ImportDecl {
            self.fold_import_decl(n);
            n.deep_copy()
        } else if n.kind == NodeKind::CallExpr {
            self.fold_call_expr(n)
        } else {
            self.fold_children(n)
        }
    }

    /// Whether the call's callee is a binding of the helper.
    fn calls_helper(&self, n: &Node) -> (r: bool)
        ensures
            r == is_helper_call(self.state(), n@),
    {
        proof {
            n.lemma_view();
        }
        if n.children.len() == 0 {
            return false;
        }
        if let NodeKind::Ident { ctxt } = n.children[0].kind {
            self.is_binding(&n.children[0].text, ctxt)
        } else {
            false
        }
    }

    /// Rewrites a helper call, leaving its arguments as written; folds the
    /// children of any other call.
    pub fn fold_call_expr(&mut self, expr: &Node) -> (r: Node)
        requires
            !old(self).is_next_dynamic_first_arg,
            expr.kind == NodeKind::CallExpr,
        ensures
            (final(self).state(), r@) == fold(old(self).state(), expr@, old(self).file_text(), old(self).rel_text()),
            final(self).same_setup(old(self)),
        decreases expr, 1nat,
    {
        proof {
            expr.lemma_view();
        }
        if self.calls_helper(expr) {
            self.rewrite_call(expr.deep_copy())
        } else {
            self.fold_children(expr)
        }
    }

    /// The node with each child folded, from left to right.
    fn fold_children(&mut self, n: &Node) -> (r: Node)
        requires
            !old(self).is_next_dynamic_first_arg,
        ensures
            ({
                let (st1, cs) = fold_all(old(self).state(), n@.children, old(self).file_text(), old(self).rel_text());
                &&& final(self).state() == st1
                &&& r@ == (NodeV { kind: n@.kind, span: n@.span, text: n@.text, children: cs })
            }),
            final(self).same_setup(old(self)),
        decreases n, 0nat,
    {
        proof {
            n.lemma_view();
        }
        let ghost file = self.file_text();
        let ghost rel = self.rel_text();
        let ghost st0 = self.state();
        let ghost kids = n@.children;
        let mut children: Vec<Node> = Vec::new();
        let mut i: usize = 0;
        while i < n.children.len()
            invariant
                i <= n.children.len(),
                kids == n@.children,
                kids.len() == n.children.len(),
                !self.is_next_dynamic_first_arg,
                self.same_setup(old(self)),
                file == self.file_text(),
                rel == self.rel_text(),
                (self.state(), children@.map_values(|c: Node| c@)) == fold_all(st0, kids.subrange(0, i as int), file, rel),
            decreases n.children.len() - i,
        {
            let ghost before = children@.map_values(|c: Node| c@);
            let c = self.fold_tree(&n.children[i]);
            children.push(c);
            proof {
                let next = kids.subrange(0, i + 1);
                assert(next.drop_last() =~= kids.subrange(0, i as int));
                assert(next.last() == n.children@[i as int]@);
                assert(children@.map_values(|c: Node| c@) =~= before.push(c@));
            }
            i = i + 1;
        }
        proof {
            assert(kids.subrange(0, kids.len() as int) =~= kids);
        }
        let r = Node { kind: n.kind, span: n.span, text: n.text.clone(), children };
        proof {
            r.lemma_view();
            assert(r@.children =~= children@.map_values(|c: Node| c@));
        }
        r
    }

}

impl Fold for NextDynamicPatcher {
    /// Outside a helper's first argument the pass is `fold`; inside it, the
    /// walk of `scan`, which leaves the tree as it is.
    open spec fn folded(&self, next: &Self, n: NodeV, r: NodeV) -> bool {
        &&& next.same_setup(self)
        &&& if self.is_next_dynamic_first_arg {
            next.state() == scan(self.state(), n) && r == n
        } else {
            (next.state(), r) == fold(self.state(), n, self.file_text(), self.rel_text())
        }
    }

    fn fold_node(&mut self, n: Node) -> (r: Node) {
        if self.is_next_dynamic_first_arg {
            self.scan(&n);
            n
        } else {
            self.fold_tree(&n)
        }
    }
}

/// The pass for the file `filename`, with module names relative to
/// `pages_dir`.
pub fn next_dynamic(filename: FileName, pages_dir: Option<String>) -> (r: NextDynamicPatcher)
    ensures
        r.filename == filename,
        r.pages_dir == pages_dir,
        !r.is_next_dynamic_first_arg,
        r.state() == initial_state(),
{
    let r = NextDynamicPatcher {
        pages_dir,
        filename,
        dynamic_bindings: Vec::new(),
        is_next_dynamic_first_arg: false,
        dynamically_imported_specifier: None,
        diagnostics: Vec::new(),
    };
    assert(r.state().bindings =~= Seq::<(Seq<char>, u32)>::empty());
    r
}

} // verus!
