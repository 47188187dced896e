use vstd::prelude::*;

verus! {

/// A byte-offset interval `[lo, hi)` into the source buffer, or the marker of
/// a node that was synthesized and has no place in the source.
#[derive(Clone, Copy, Debug, PartialEq, Eq, Structural)]
pub enum Span {
    Real { lo: u32, hi: u32 },
    Synthetic,
}

impl Span {
    pub open spec fn is_real(self) -> bool {
        self is Real
    }

    pub fn is_dummy(&self) -> (r: bool)
        ensures
            r == !self.is_real(),
    {
        match self {
            Span::Real { .. } => false,
            Span::Synthetic => true,
        }
    }
}

/// Binary operators of the expression grammar.
#[derive(Clone, Copy, Debug, PartialEq, Eq, Structural)]
pub enum BinaryOp {
    EqEq,
    NotEq,
    EqEqEq,
    NotEqEq,
    Lt,
    LtEq,
    Gt,
    GtEq,
    LShift,
    RShift,
    ZeroFillRShift,
    Add,
    Sub,
    Mul,
    Div,
    Mod,
    BitOr,
    BitXor,
    BitAnd,
    LogicalOr,
    LogicalAnd,
    In,
    InstanceOf,
    Exp,
    NullishCoalescing,
}

/// Every kind of node of the grammar. The children of a node are listed in
/// source order; where the rewriter reads them, the variant says how.
#[derive(Clone, Copy, Debug, PartialEq, Eq, Structural)]
pub enum NodeKind {
    /// Children: the elements.
    ArrayLit,
    ArrayPat,
    /// Children: the parameters, then the body.
    ArrowExpr,
    AssignExpr,
    AssignPat,
    AssignPatProp,
    AssignProp,
    AwaitExpr,
    /// Children: the left operand, then the right one.
    BinExpr { op: BinaryOp },
    BigInt,
    BlockStmt,
    Bool,
    BreakStmt,
    /// Children: the callee, then the arguments.
    CallExpr,
    CatchClause,
    Class,
    ClassDecl,
    ClassExpr,
    ClassMethod,
    ClassProp,
    ComputedPropName,
    CondExpr,
    Constructor,
    ContinueStmt,
    DebuggerStmt,
    Decorator,
    DoWhileStmt,
    EmptyStmt,
    ExportAll,
    ExportDecl,
    ExportDefaultDecl,
    ExportDefaultExpr,
    ExportDefaultSpecifier,
    ExportNamedSpecifier,
    ExportNamespaceSpecifier,
    ExprStmt,
    FnDecl,
    FnExpr,
    ForInStmt,
    ForOfStmt,
    ForStmt,
    Function,
    GetterProp,
    /// An identifier; its name is the node's text, and `ctxt` is the hygiene
    /// context that tells apart bindings of the same name.
    Ident { ctxt: u32 },
    IfStmt,
    /// Children: the specifiers, then the source module as a `Str`.
    ImportDecl,
    /// Children: the local binding as an `Ident`.
    ImportDefaultSpecifier,
    ImportNamedSpecifier,
    ImportStarAsSpecifier,
    Invalid,
    JSXAttr,
    JSXClosingElement,
    JSXClosingFragment,
    JSXElement,
    JSXEmptyExpr,
    JSXExprContainer,
    JSXFragment,
    JSXMemberExpr,
    JSXNamespacedName,
    JSXOpeningElement,
    JSXOpeningFragment,
    JSXSpreadChild,
    JSXText,
    KeyValuePatProp,
    /// Children: the key, then the value.
    KeyValueProp,
    LabeledStmt,
    /// Children: the object, then the property.
    MemberExpr { computed: bool },
    MetaPropExpr,
    MethodProp,
    /// The root of a module.
    Module,
    NamedExport,
    /// Children: the callee, then the arguments.
    NewExpr,
    Null,
    Number,
    /// Children: the properties.
    ObjectLit,
    ObjectPat,
    OptChainExpr,
    Param,
    ParenExpr,
    PrivateMethod,
    PrivateName,
    PrivateProp,
    Regex,
    RestPat,
    ReturnStmt,
    /// The root of a script.
    Script,
    SeqExpr,
    SetterProp,
    SpreadElement,
    /// A string literal; its value is the node's text.
    Str,
    Super,
    SwitchCase,
    SwitchStmt,
    TaggedTpl,
    ThisExpr,
    ThrowStmt,
    Tpl,
    TplElement,
    TryStmt,
    TsArrayType,
    TsAsExpr,
    TsCallSignatureDecl,
    TsConditionalType,
    TsConstAssertion,
    TsConstructSignatureDecl,
    TsConstructorType,
    TsEnumDecl,
    TsEnumMember,
    TsExportAssignment,
    TsExprWithTypeArgs,
    TsExternalModuleRef,
    TsFnType,
    TsImportEqualsDecl,
    TsImportType,
    TsIndexSignature,
    TsIndexedAccessType,
    TsInferType,
    TsInterfaceBody,
    TsInterfaceDecl,
    TsIntersectionType,
    TsKeywordType,
    TsLitType,
    TsMappedType,
    TsMethodSignature,
    TsModuleBlock,
    TsModuleDecl,
    TsNamespaceDecl,
    TsNamespaceExportDecl,
    TsNonNullExpr,
    TsOptionalType,
    TsParamProp,
    TsParenthesizedType,
    TsPropertySignature,
    TsQualifiedName,
    TsRestType,
    TsThisType,
    TsTupleElement,
    TsTupleType,
    TsTypeAliasDecl,
    TsTypeAnn,
    TsTypeAssertion,
    TsTypeLit,
    TsTypeOperator,
    TsTypeParam,
    TsTypeParamDecl,
    TsTypeParamInstantiation,
    TsTypePredicate,
    TsTypeQuery,
    TsTypeRef,
    TsUnionType,
    UnaryExpr,
    UpdateExpr,
    VarDecl,
    VarDeclarator,
    WhileStmt,
    WithStmt,
    YieldExpr,
}

/// A node of the syntax tree: its kind, its place in the source, the text it
/// carries (the name of an identifier, the value of a string literal, the raw
/// text of other literals; empty elsewhere) and its children.
#[derive(Debug)]
pub struct Node {
    pub kind: NodeKind,
    pub span: Span,
    pub text: String,
    pub children: Vec<Node>,
}

/// The mathematical value of a `Node`.
pub struct NodeV {
    pub kind: NodeKind,
    pub span: Span,
    pub text: Seq<char>,
    pub children: Seq<NodeV>,
}

/// The value of a node, computed over its subtree.
pub open spec fn node_view(n: Node) -> NodeV
    decreases n,
{
    NodeV {
        kind: n.kind,
        span: n.span,
        text: n.text@,
        children: Seq::new(
            n.children.len() as nat,
            |i: int|
                if 0 <= i < n.children.len() {
                    node_view(n.children@[i])
                } else {
                    NodeV { kind: NodeKind::Invalid, span: Span::Synthetic, text: Seq::empty(), children: Seq::empty() }
                },
        ),
    }
}

impl View for Node {
    type V = NodeV;

    open spec fn view(&self) -> NodeV {
        node_view(*self)
    }
}

impl Node {
    /// The value of a node is made of its fields and its children's values.
    pub proof fn lemma_view(&self)
        ensures
            self@.kind == self.kind,
            self@.span == self.span,
            self@.text == self.text@,
            self@.children.len() == self.children.len(),
            forall|i: int| 0 <= i < self.children.len() ==> #[trigger] self@.children[i] == self.children@[i]@,
    {
    }

    /// A node with the given kind, span and text, and no children.
    pub fn leaf(kind: NodeKind, span: Span, text: String) -> (r: Node)
        ensures
            r@ == (NodeV { kind, span, text: text@, children: Seq::empty() }),
    {
        let r = Node { kind, span, text, children: Vec::new() };
        proof {
            assert(r@.children =~= Seq::<NodeV>::empty());
        }
        r
    }

    /// A node with the given kind, span and children, and no text.
    pub fn branch(kind: NodeKind, span: Span, children: Vec<Node>) -> (r: Node)
        ensures
            r@ == (NodeV { kind, span, text: Seq::empty(), children: children@.map_values(|c: Node| c@) }),
    {
        let r = Node { kind, span, text: String::new(), children };
        proof {
            assert(r@.children =~= children@.map_values(|c: Node| c@));
        }
        r
    }

    /// A copy of the whole subtree.
    pub fn deep_copy(&self) -> (r: Node)
        ensures
            r@ == self@,
        decreases self,
    {
        let mut children: Vec<Node> = Vec::new();
        let mut i: usize = 0;
        while i < self.children.len()
            invariant
                i <= self.children.len(),
                children@.len() == i,
                forall|j: int| 0 <= j < i ==> (#[trigger] children@[j])@ == self.children@[j]@,
            decreases self.children.len() - i,
        {
            let c = self.children[i].deep_copy();
            children.push(c);
            i = i + 1;
        }
        let r = Node { kind: self.kind, span: self.span, text: self.text.clone(), children };
        proof {
            assert(r@.children =~= self@.children);
        }
        r
    }
}

} // verus!
