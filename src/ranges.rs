use vstd::prelude::*;
use crate::ast::{Node, NodeV, Span};
use crate::source_index::{Range, SourceIndex};

verus! {

/// The real spans of a subtree, in pre-order: the node's own span first,
/// then those of its children from left to right.
pub open spec fn spans_of(n: NodeV) -> Seq<Span>
    decreases n,
{
    (if n.span.is_real() { seq![n.span] } else { Seq::empty() }) + spans_of_all(n.children)
}

/// The real spans of a list of sibling subtrees, in order.
pub open spec fn spans_of_all(s: Seq<NodeV>) -> Seq<Span>
    decreases s,
{
    if s.len() == 0 {
        Seq::empty()
    } else {
        spans_of_all(s.drop_last()) + spans_of(s.last())
    }
}

/// The ranges of the real spans of a subtree, in pre-order.
pub open spec fn ranges_of(n: NodeV, idx: SourceIndex) -> Seq<Range> {
    spans_of(n).map_values(|s: Span| idx.range_of(s))
}

/// Every real span of the subtree can be resolved against `idx`.
pub open spec fn spans_covered(n: NodeV, idx: SourceIndex) -> bool {
    forall|k: int| 0 <= k < spans_of(n).len() ==> idx.covers_span(#[trigger] spans_of(n)[k])
}

/// A read-only walk over a tree.
pub trait Visit: Sized {
    /// How a walk over `n` takes the walker from `self` to `next`.
    spec fn visited(&self, next: &Self, n: NodeV) -> bool;

    fn visit_node(&mut self, n: &Node)
        ensures
            old(self).visited(final(self), n@),
    ;
}

/// A pass that takes a tree and gives back a tree, possibly rewritten.
pub trait Fold: Sized {
    /// How folding `n` into `r` takes the pass from `self` to `next`.
    spec fn folded(&self, next: &Self, n: NodeV, r: NodeV) -> bool;

    fn fold_node(&mut self, n: Node) -> (r: Node)
        ensures
            old(self).folded(final(self), n@, r@),
    ;
}

/// Records the real span of every node it walks over, in pre-order.
pub struct RangeCollector {
    pub spans: Vec<Span>,
}

impl RangeCollector {
    pub fn new() -> (r: RangeCollector)
        ensures
            r.spans@ == Seq::<Span>::empty(),
    {
        RangeCollector { spans: Vec::new() }
    }

    /// The rule for one node: its span is recorded unless it is synthetic.
    pub fn show(&mut self, n: &Node)
        ensures
            final(self).spans@ == old(self).spans@ + (if n.span.is_real() { seq![n.span] } else { Seq::empty() }),
    {
        if !n.span.is_dummy() {
            self.spans.push(n.span);
        }
        proof {
            if !n.span.is_real() {
                assert(final(self).spans@ =~= old(self).spans@ + Seq::<Span>::empty());
            }
        }
    }

    /// Records the node, then walks its children from left to right.
    pub fn collect(&mut self, n: &Node)
        ensures
            final(self).spans@ == old(self).spans@ + spans_of(n@),
        decreases n,
    {
        self.show(n);
        let ghost own = self.spans@;
        let ghost kids = n@.children;
        let mut i: usize = 0;
        while i < n.children.len()
            invariant
                i <= n.children.len(),
                kids == n@.children,
                kids.len() == n.children.len(),
                own == old(self).spans@ + (if n.span.is_real() { seq![n.span] } else { Seq::empty() }),
                self.spans@ == own + spans_of_all(kids.subrange(0, i as int)),
            decreases n.children.len() - i,
        {
            self.collect(&n.children[i]);
            proof {
                let next = kids.subrange(0, i + 1);
                assert(next.drop_last() =~= kids.subrange(0, i as int));
                assert(next.last() == n.children@[i as int]@);
                assert(self.spans@ =~= own + spans_of_all(next));
            }
            i = i + 1;
        }
        proof {
            assert(kids.subrange(0, kids.len() as int) =~= kids);
            assert(self.spans@ =~= old(self).spans@ + spans_of(n@));
        }
    }
}

impl Visit for RangeCollector {
    open spec fn visited(&self, next: &Self, n: NodeV) -> bool {
        next.spans@ == self.spans@ + spans_of(n)
    }

    fn visit_node(&mut self, n: &Node) {
        self.collect(n);
    }
}

/// Lets a read-only walk stand where a pass is expected: it walks the tree
/// and hands it back unchanged.
pub struct ImmutableFolder<V: Visit>(pub V);

impl<V: Visit> Fold for ImmutableFolder<V> {
    open spec fn folded(&self, next: &Self, n: NodeV, r: NodeV) -> bool {
        &&& r == n
        &&& self.0.visited(&next.0, n)
    }

    fn fold_node(&mut self, n: Node) -> (r: Node) {
        self.0.visit_node(&n);
        n
    }
}

/// Wraps a read-only walk as a pass.
pub fn immutable_visit_as_folder<V: Visit>(v: V) -> (r: ImmutableFolder<V>)
    ensures
        r.0 == v,
{
    ImmutableFolder(v)
}

/// The ranges of the given spans, or `None` where one cannot be resolved
/// against the file.
pub fn resolve_spans(spans: &Vec<Span>, idx: &SourceIndex) -> (r: Option<Vec<Range>>)
    requires
        idx.wf(),
    ensures
        r is Some <==> forall|k: int| 0 <= k < spans@.len() ==> idx.covers_span(#[trigger] spans@[k]),
        r matches Some(v) ==> v@ == spans@.map_values(|s: Span| idx.range_of(s)),
{
    let mut ranges: Vec<Range> = Vec::new();
    let mut i: usize = 0;
    while i < spans.len()
        invariant
            i <= spans.len(),
            idx.wf(),
            forall|k: int| 0 <= k < i ==> idx.covers_span(#[trigger] spans@[k]),
            ranges@ == spans@.subrange(0, i as int).map_values(|s: Span| idx.range_of(s)),
        decreases spans.len() - i,
    {
        if !idx.covers_exec(spans[i]) {
            return None;
        }
        let r = idx.resolve(spans[i]);
        ranges.push(r);
        proof {
            assert(spans@.subrange(0, i + 1).map_values(|s: Span| idx.range_of(s))
                =~= spans@.subrange(0, i as int).map_values(|s: Span| idx.range_of(s)).push(r));
        }
        i = i + 1;
    }
    proof {
        assert(spans@.subrange(0, spans@.len() as int) =~= spans@);
    }
    Some(ranges)
}

/// The ranges of every real span of the tree, in pre-order.
pub fn get_ranges(program: &Node, idx: &SourceIndex) -> (r: Vec<Range>)
    requires
        idx.wf(),
        spans_covered(program@, *idx),
    ensures
        r@ == ranges_of(program@, *idx),
{
    let mut collector = RangeCollector::new();
    collector.collect(program);
    match resolve_spans(&collector.spans, idx) {
        Some(ranges) => ranges,
        None => {
            proof {
                assert forall|k: int| 0 <= k < collector.spans@.len() implies idx.covers_span(
                    #[trigger] collector.spans@[k],
                ) by {
                    assert(idx.covers_span(spans_of(program@)[k]));
                }
            }
            Vec::new()
        },
    }
}

/// The nodes of a subtree in pre-order: the node first, then the nodes of
/// its children's subtrees from left to right.
pub open spec fn preorder(n: NodeV) -> Seq<NodeV>
    decreases n,
{
    seq![n] + preorder_all(n.children)
}

/// The nodes of a list of sibling subtrees, in pre-order.
pub open spec fn preorder_all(s: Seq<NodeV>) -> Seq<NodeV>
    decreases s,
{
    if s.len() == 0 {
        Seq::empty()
    } else {
        preorder_all(s.drop_last()) + preorder(s.last())
    }
}

/// The spans of those nodes of `s` whose span is real, in order.
pub open spec fn real_spans(s: Seq<NodeV>) -> Seq<Span> {
    s.filter(|m: NodeV| m.span.is_real()).map_values(|m: NodeV| m.span)
}

proof fn lemma_real_spans_add(a: Seq<NodeV>, b: Seq<NodeV>)
    ensures
        real_spans(a + b) == real_spans(a) + real_spans(b),
{
    let pred = |m: NodeV| m.span.is_real();
    Seq::filter_distributes_over_add(a, b, pred);
    assert(real_spans(a + b) =~= real_spans(a) + real_spans(b));
}

proof fn lemma_spans_preorder(n: NodeV)
    ensures
        spans_of(n) == real_spans(preorder(n)),
    decreases n,
{
    lemma_spans_preorder_all(n.children);
    lemma_real_spans_add(seq![n], preorder_all(n.children));
    reveal_with_fuel(Seq::filter, 2);
    assert(seq![n].drop_last() =~= Seq::<NodeV>::empty());
    assert(real_spans(seq![n]) =~= (if n.span.is_real() { seq![n.span] } else { Seq::empty() }));
}

proof fn lemma_spans_preorder_all(s: Seq<NodeV>)
    ensures
        spans_of_all(s) == real_spans(preorder_all(s)),
    decreases s,
{
    if s.len() == 0 {
        assert(real_spans(Seq::<NodeV>::empty()) =~= Seq::<Span>::empty());
    } else {
        lemma_spans_preorder_all(s.drop_last());
        lemma_spans_preorder(s.last());
        lemma_real_spans_add(preorder_all(s.drop_last()), preorder(s.last()));
    }
}

/// Each node of the tree whose span is real has exactly one range, and the
/// ranges stand in the pre-order of those nodes.
pub proof fn lemma_ranges_follow_preorder(n: NodeV, idx: SourceIndex)
    ensures
        ranges_of(n, idx) == preorder(n).filter(|m: NodeV| m.span.is_real()).map_values(
            |m: NodeV| idx.range_of(m.span),
        ),
{
    lemma_spans_preorder(n);
    assert(ranges_of(n, idx) =~= preorder(n).filter(|m: NodeV| m.span.is_real()).map_values(
        |m: NodeV| idx.range_of(m.span),
    ));
}

/// `y` is `x` moved by `d` bytes; a synthetic span stays synthetic.
pub open spec fn span_moved(x: Span, y: Span, d: int) -> bool {
    match (x, y) {
        (Span::Real { lo: a, hi: b }, Span::Real { lo: c, hi: e }) => c == a + d && e == b + d,
        (Span::Synthetic, Span::Synthetic) => true,
        _ => false,
    }
}

/// `b` has the shape, kinds and texts of `a`, with every span moved by `d`
/// bytes: what a second parse of the same text yields when the file is
/// placed elsewhere in the position space.
pub open spec fn moved(a: NodeV, b: NodeV, d: int) -> bool
    decreases a,
{
    &&& a.kind == b.kind
    &&& a.text == b.text
    &&& span_moved(a.span, b.span, d)
    &&& moved_all(a.children, b.children, d)
}

/// Pairwise `moved` over two lists of siblings.
pub open spec fn moved_all(s: Seq<NodeV>, t: Seq<NodeV>, d: int) -> bool
    decreases s,
{
    &&& s.len() == t.len()
    &&& s.len() > 0 ==> moved_all(s.drop_last(), t.drop_last(), d) && moved(s.last(), t.last(), d)
}

pub open spec fn spans_moved(x: Seq<Span>, y: Seq<Span>, d: int) -> bool {
    &&& x.len() == y.len()
    &&& forall|k: int| 0 <= k < x.len() ==> (#[trigger] x[k]).is_real() && span_moved(x[k], y[k], d)
}

proof fn lemma_spans_moved_add(x1: Seq<Span>, y1: Seq<Span>, x2: Seq<Span>, y2: Seq<Span>, d: int)
    requires
        spans_moved(x1, y1, d),
        spans_moved(x2, y2, d),
    ensures
        spans_moved(x1 + x2, y1 + y2, d),
{
    assert forall|k: int| 0 <= k < (x1 + x2).len() implies (#[trigger] (x1 + x2)[k]).is_real() && span_moved(
        (x1 + x2)[k],
        (y1 + y2)[k],
        d,
    ) by {
        if k >= x1.len() {
            assert(x2[k - x1.len()].is_real());
        } else {
            assert(x1[k].is_real());
        }
    }
}

proof fn lemma_moved_spans(a: NodeV, b: NodeV, d: int)
    requires
        moved(a, b, d),
    ensures
        spans_moved(spans_of(a), spans_of(b), d),
    decreases a,
{
    lemma_moved_spans_all(a.children, b.children, d);
    let own_a: Seq<Span> = if a.span.is_real() { seq![a.span] } else { Seq::empty() };
    let own_b: Seq<Span> = if b.span.is_real() { seq![b.span] } else { Seq::empty() };
    assert(spans_moved(own_a, own_b, d));
    lemma_spans_moved_add(own_a, own_b, spans_of_all(a.children), spans_of_all(b.children), d);
}

proof fn lemma_moved_spans_all(s: Seq<NodeV>, t: Seq<NodeV>, d: int)
    requires
        moved_all(s, t, d),
    ensures
        spans_moved(spans_of_all(s), spans_of_all(t), d),
    decreases s,
{
    if s.len() > 0 {
        lemma_moved_spans_all(s.drop_last(), t.drop_last(), d);
        lemma_moved_spans(s.last(), t.last(), d);
        lemma_spans_moved_add(
            spans_of_all(s.drop_last()),
            spans_of_all(t.drop_last()),
            spans_of(s.last()),
            spans_of(t.last()),
            d,
        );
    }
}

/// Collecting ranges is deterministic under a second parse: two trees that
/// differ only by where the file was placed, resolved against the same text
/// placed accordingly, give the same range list.
pub proof fn lemma_ranges_deterministic(a: NodeV, b: NodeV, ia: SourceIndex, ib: SourceIndex)
    requires
        ia.bytes@ == ib.bytes@,
        moved(a, b, ib.start_pos - ia.start_pos),
    ensures
        ranges_of(a, ia) == ranges_of(b, ib),
{
    let d = ib.start_pos - ia.start_pos;
    lemma_moved_spans(a, b, d);
    let x = spans_of(a);
    let y = spans_of(b);
    assert forall|k: int| 0 <= k < x.len() implies ia.range_of(#[trigger] x[k]) == ib.range_of(y[k]) by {
        assert(x[k].is_real() && span_moved(x[k], y[k], d));
    }
    assert(ranges_of(a, ia) =~= ranges_of(b, ib));
}

} // verus!
