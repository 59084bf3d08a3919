//! The result renderer's plan.
//!
//! The layout engine returns a geometry tree of the same shape as its
//! input. Rendering walks that tree: each node is materialized as a widget
//! from its context and computed geometry, and each child widget is
//! attached under its parent, in child order, after its own subtree is
//! done. The walk itself is planned here as a pure function: a sequence of
//! steps over nodes named by their preorder index. Executing the steps —
//! the host calls that make widgets and attach them — is the host's part.

use vstd::prelude::*;

verus! {

/// A node of the computed geometry tree, generic over the context `C`
/// (what to materialize) and the geometry `G` (the computed absolute
/// position and size), both of which the planner carries through
/// untouched.
pub struct GeomNode<C, G> {
    /// What the originating element is.
    pub context: C,
    /// The node's computed absolute position and size.
    pub geom: G,
    /// The node's children, in the input tree's child order.
    pub children: Vec<GeomNode<C, G>>,
}

/// One step of a render plan. Nodes and the widgets made from them are
/// named by the node's preorder index in the geometry tree.
#[derive(Clone, Copy, Debug, PartialEq, Eq, Structural)]
pub enum RenderStep {
    /// Materialize the widget of the named node from its context and
    /// geometry.
    Materialize { node: usize },
    /// Attach the named child's widget under the named parent's widget.
    Attach { parent: usize, child: usize },
}

/// The mathematical value of a [`RenderStep`], over unbounded indices.
pub ghost enum RenderStepV {
    Materialize { node: int },
    Attach { parent: int, child: int },
}

impl View for RenderStep {
    type V = RenderStepV;

    open spec fn view(&self) -> RenderStepV {
        match self {
            RenderStep::Materialize { node } => RenderStepV::Materialize { node: *node as int },
            RenderStep::Attach { parent, child } => RenderStepV::Attach {
                parent: *parent as int,
                child: *child as int,
            },
        }
    }
}

/// The views of a step list, in order.
pub open spec fn steps_view(s: Seq<RenderStep>) -> Seq<RenderStepV>
    decreases s,
{
    if s.len() == 0 {
        Seq::empty()
    } else {
        steps_view(s.drop_last()).push(s.last()@)
    }
}

/// Appending a step appends its view.
pub proof fn lemma_steps_view_push(s: Seq<RenderStep>, x: RenderStep)
    ensures
        steps_view(s.push(x)) == steps_view(s).push(x@),
{
    assert(s.push(x).drop_last() =~= s);
    assert(s.push(x).last() == x);
}

/// The number of nodes of a geometry tree.
pub open spec fn size<C, G>(t: GeomNode<C, G>) -> nat
    decreases t,
{
    1 + size_all(t.children@)
}

/// The number of nodes of a sequence of geometry trees.
pub open spec fn size_all<C, G>(s: Seq<GeomNode<C, G>>) -> nat
    decreases s,
{
    if s.len() == 0 {
        0nat
    } else {
        size_all(s.drop_last()) + size(s.last())
    }
}

/// The render plan of the tree `t` whose root has preorder index `base`:
/// materialize the root, then for each child in order, the child's whole
/// plan followed by its attachment under the root.
pub open spec fn spec_plan<C, G>(t: GeomNode<C, G>, base: int) -> Seq<RenderStepV>
    decreases t,
{
    seq![RenderStepV::Materialize { node: base }] + spec_plan_children(t.children@, base + 1, base)
}

/// The render plan of the children `s` of the node `parent`, where `base`
/// is the preorder index of the first child.
pub open spec fn spec_plan_children<C, G>(
    s: Seq<GeomNode<C, G>>,
    base: int,
    parent: int,
) -> Seq<RenderStepV>
    decreases s,
{
    if s.len() == 0 {
        Seq::empty()
    } else {
        let cb = base + size_all(s.drop_last());
        spec_plan_children(s.drop_last(), base, parent) + spec_plan(s.last(), cb) + seq![
            RenderStepV::Attach { parent, child: cb },
        ]
    }
}

/// Emits the plan of `t`, rooted at the preorder index `*next`, onto the
/// end of `out`, and advances `*next` past the subtree.
fn plan_rec<C, G>(t: &GeomNode<C, G>, out: &mut Vec<RenderStep>, next: &mut usize)
    requires
        *old(next) as int <= old(out)@.len(),
    ensures
        steps_view(final(out)@) == steps_view(old(out)@) + spec_plan(*t, *old(next) as int),
        *final(next) as int == *old(next) as int + size(*t),
        *final(next) as int <= final(out)@.len(),
    decreases *t,
{
    let me: usize = *next;
    let ghost out0 = out@;
    proof {
        lemma_steps_view_push(out@, RenderStep::Materialize { node: me });
    }
    out.push(RenderStep::Materialize { node: me });
    let len_now = out.len();
    assert(me < len_now);
    *next = me + 1;
    proof {
        assert(steps_view(out@) =~= steps_view(out0) + spec_plan_children(
            t.children@.take(0),
            me + 1,
            me as int,
        ) + seq![RenderStepV::Materialize { node: me as int }].push(
            RenderStepV::Materialize { node: me as int },
        ).drop_last());
        assert(steps_view(out@) =~= steps_view(out0) + seq![
            RenderStepV::Materialize { node: me as int },
        ] + spec_plan_children(t.children@.take(0), me + 1, me as int));
    }
    let ghost base0 = me as int + 1;
    let mut i: usize = 0;
    while i < t.children.len()
        invariant
            i <= t.children.len(),
            base0 == me as int + 1,
            steps_view(out@) == steps_view(out0) + seq![
                RenderStepV::Materialize { node: me as int },
            ] + spec_plan_children(t.children@.take(i as int), base0, me as int),
            *next as int == base0 + size_all(t.children@.take(i as int)),
            *next as int <= out@.len(),
        decreases t.children@.len() - i,
    {
        let cb = *next;
        plan_rec(&t.children[i], out, next);
        proof {
            lemma_steps_view_push(out@, RenderStep::Attach { parent: me, child: cb });
        }
        out.push(RenderStep::Attach { parent: me, child: cb });
        proof {
            assert(t.children@.take(i + 1).drop_last() =~= t.children@.take(i as int));
            assert(t.children@.take(i + 1).last() == t.children@[i as int]);
            assert(steps_view(out@) =~= steps_view(out0) + seq![
                RenderStepV::Materialize { node: me as int },
            ] + spec_plan_children(t.children@.take(i + 1), base0, me as int));
        }
        i += 1;
    }
    proof {
        assert(t.children@.take(t.children@.len() as int) =~= t.children@);
        assert(steps_view(out@) =~= steps_view(out0) + spec_plan(*t, me as int));
    }
}

/// Plans the render walk of a whole geometry tree, whose root has
/// preorder index 0.
pub fn render_plan<C, G>(t: &GeomNode<C, G>) -> (r: Vec<RenderStep>)
    ensures
        steps_view(r@) == spec_plan(*t, 0),
{
    let mut out: Vec<RenderStep> = Vec::new();
    let mut next: usize = 0;
    proof {
        assert(steps_view(out@) =~= Seq::<RenderStepV>::empty());
    }
    plan_rec(t, &mut out, &mut next);
    proof {
        assert(steps_view(out@) =~= spec_plan(*t, 0));
    }
    out
}

/// The preorder-index targets of the Materialize steps of a plan, in
/// plan order.
pub open spec fn mat_targets(s: Seq<RenderStepV>) -> Seq<int>
    decreases s,
{
    if s.len() == 0 {
        Seq::empty()
    } else {
        mat_targets(s.drop_last()) + (match s.last() {
            RenderStepV::Materialize { node } => seq![node],
            _ => Seq::empty(),
        })
    }
}

/// The (parent, child) pairs of the Attach steps of a plan, in plan order.
pub open spec fn attach_pairs(s: Seq<RenderStepV>) -> Seq<(int, int)>
    decreases s,
{
    if s.len() == 0 {
        Seq::empty()
    } else {
        attach_pairs(s.drop_last()) + (match s.last() {
            RenderStepV::Attach { parent, child } => seq![(parent, child)],
            _ => Seq::empty(),
        })
    }
}

/// What a one-step plan materializes and attaches.
proof fn lemma_steps_single(x: RenderStepV)
    ensures
        mat_targets(seq![x]) == (match x {
            RenderStepV::Materialize { node } => seq![node],
            _ => Seq::<int>::empty(),
        }),
        attach_pairs(seq![x]) == (match x {
            RenderStepV::Attach { parent, child } => seq![(parent, child)],
            _ => Seq::<(int, int)>::empty(),
        }),
{
    reveal_with_fuel(mat_targets, 2);
    reveal_with_fuel(attach_pairs, 2);
    assert(seq![x].drop_last() =~= Seq::<RenderStepV>::empty());
    assert(seq![x].last() == x);
    match x {
        RenderStepV::Materialize { node } => {
            assert(mat_targets(seq![x]) =~= seq![node]);
            assert(attach_pairs(seq![x]) =~= Seq::<(int, int)>::empty());
        },
        RenderStepV::Attach { parent, child } => {
            assert(mat_targets(seq![x]) =~= Seq::<int>::empty());
            assert(attach_pairs(seq![x]) =~= seq![(parent, child)]);
        },
    }
}

/// Materialize targets distribute over plan concatenation.
proof fn lemma_mat_targets_concat(a: Seq<RenderStepV>, b: Seq<RenderStepV>)
    ensures
        mat_targets(a + b) == mat_targets(a) + mat_targets(b),
    decreases b.len(),
{
    if b.len() == 0 {
        assert(a + b =~= a);
        assert(mat_targets(a) + mat_targets(b) =~= mat_targets(a));
    } else {
        lemma_mat_targets_concat(a, b.drop_last());
        assert((a + b).drop_last() =~= a + b.drop_last());
        assert((a + b).last() == b.last());
        assert(mat_targets(a + b) =~= mat_targets(a) + mat_targets(b));
    }
}

/// Attach pairs distribute over plan concatenation.
proof fn lemma_attach_pairs_concat(a: Seq<RenderStepV>, b: Seq<RenderStepV>)
    ensures
        attach_pairs(a + b) == attach_pairs(a) + attach_pairs(b),
    decreases b.len(),
{
    if b.len() == 0 {
        assert(a + b =~= a);
        assert(attach_pairs(a) + attach_pairs(b) =~= attach_pairs(a));
    } else {
        lemma_attach_pairs_concat(a, b.drop_last());
        assert((a + b).drop_last() =~= a + b.drop_last());
        assert((a + b).last() == b.last());
        assert(attach_pairs(a + b) =~= attach_pairs(a) + attach_pairs(b));
    }
}

/// Law: a plan materializes exactly one widget per input node, in
/// preorder order — the Materialize targets of the plan of a tree rooted
/// at `base` are base, base+1, ..., base+size-1, in that order.
pub proof fn lemma_plan_materializes_once<C, G>(t: GeomNode<C, G>, base: int)
    ensures
        mat_targets(spec_plan(t, base)) == Seq::new(size(t), |i: int| base + i),
    decreases t,
{
    lemma_plan_children_mats(t.children@, base + 1, base);
    lemma_mat_targets_concat(
        seq![RenderStepV::Materialize { node: base }],
        spec_plan_children(t.children@, base + 1, base),
    );
    lemma_steps_single(RenderStepV::Materialize { node: base });
    assert(mat_targets(spec_plan(t, base)) =~= Seq::new(size(t), |i: int| base + i));
}

/// The Materialize targets of a forest's plan are one contiguous preorder
/// range.
proof fn lemma_plan_children_mats<C, G>(s: Seq<GeomNode<C, G>>, base: int, parent: int)
    ensures
        mat_targets(spec_plan_children(s, base, parent)) == Seq::new(
            size_all(s),
            |i: int| base + i,
        ),
    decreases s,
{
    if s.len() == 0 {
        assert(mat_targets(spec_plan_children(s, base, parent)) =~= Seq::new(
            size_all(s),
            |i: int| base + i,
        ));
    } else {
        let cb = base + size_all(s.drop_last());
        lemma_plan_children_mats(s.drop_last(), base, parent);
        lemma_plan_materializes_once(s.last(), cb);
        lemma_mat_targets_concat(
            spec_plan_children(s.drop_last(), base, parent),
            spec_plan(s.last(), cb),
        );
        lemma_mat_targets_concat(
            spec_plan_children(s.drop_last(), base, parent) + spec_plan(s.last(), cb),
            seq![RenderStepV::Attach { parent, child: cb }],
        );
        lemma_steps_single(RenderStepV::Attach { parent, child: cb });
        assert(mat_targets(spec_plan_children(s, base, parent)) =~= Seq::new(
            size_all(s),
            |i: int| base + i,
        ));
    }
}

/// The preorder bases of the roots of a forest whose first root has
/// preorder index `base`.
pub open spec fn child_bases<C, G>(s: Seq<GeomNode<C, G>>, base: int) -> Seq<int>
    decreases s,
{
    if s.len() == 0 {
        Seq::empty()
    } else {
        child_bases(s.drop_last(), base).push(base + size_all(s.drop_last()))
    }
}

/// Whether (p, c) is a parent/child edge of the tree `t` rooted at
/// preorder index `base`, both named by their preorder indices.
pub open spec fn is_edge<C, G>(t: GeomNode<C, G>, base: int, p: int, c: int) -> bool
    decreases t,
{
    (p == base && child_bases(t.children@, base + 1).contains(c)) || is_forest_edge(
        t.children@,
        base + 1,
        p,
        c,
    )
}

/// Whether (p, c) is an edge of one of the trees of a forest whose first
/// root has preorder index `base`.
pub open spec fn is_forest_edge<C, G>(s: Seq<GeomNode<C, G>>, base: int, p: int, c: int) -> bool
    decreases s,
{
    if s.len() == 0 {
        false
    } else {
        is_forest_edge(s.drop_last(), base, p, c) || is_edge(
            s.last(),
            base + size_all(s.drop_last()),
            p,
            c,
        )
    }
}

/// Whether some Attach pair of the list attaches the child index `id`.
pub open spec fn attaches_child(pairs: Seq<(int, int)>, id: int) -> bool {
    exists|k: int| 0 <= k < pairs.len() && (#[trigger] pairs[k]).1 == id
}

/// Whether the plan materializes the node `id` somewhere before position
/// `k`.
pub open spec fn materialized_before(plan: Seq<RenderStepV>, k: int, id: int) -> bool {
    exists|k1: int|
        0 <= k1 < k && #[trigger] plan[k1] == (RenderStepV::Materialize { node: id })
}

/// Law: in a plan, every Attach step stands after the Materialize steps
/// of both its endpoints — a widget exists before anything is attached
/// under it, and before it is attached anywhere.
pub proof fn lemma_plan_attaches_after_materialize<C, G>(t: GeomNode<C, G>, base: int)
    ensures
        forall|k: int|
            0 <= k < spec_plan(t, base).len() ==> ((#[trigger] spec_plan(t, base)[k]) matches
            RenderStepV::Attach { parent: p, child: c } ==> materialized_before(
                spec_plan(t, base),
                k,
                p,
            ) && materialized_before(spec_plan(t, base), k, c)),
    decreases t,
{
    let plan = spec_plan(t, base);
    let inner = spec_plan_children(t.children@, base + 1, base);
    lemma_plan_children_attach_after(t.children@, base + 1, base);
    assert(plan[0] == RenderStepV::Materialize { node: base });
    assert forall|k: int|
        0 <= k < plan.len() implies ((#[trigger] plan[k]) matches RenderStepV::Attach {
        parent: p,
        child: c,
    } ==> materialized_before(plan, k, p) && materialized_before(plan, k, c)) by {
        match plan[k] {
            RenderStepV::Attach { parent: p, child: c } => {
                assert(plan[k] == inner[k - 1]);
                if p == base {
                    assert(plan[0] == RenderStepV::Materialize { node: base });
                } else {
                    let k1 = choose|k1: int|
                        0 <= k1 < k - 1 && #[trigger] inner[k1] == (RenderStepV::Materialize {
                            node: p,
                        });
                    assert(plan[k1 + 1] == RenderStepV::Materialize { node: p });
                }
                let k2 = choose|k2: int|
                    0 <= k2 < k - 1 && #[trigger] inner[k2] == (RenderStepV::Materialize {
                        node: c,
                    });
                assert(plan[k2 + 1] == RenderStepV::Materialize { node: c });
            },
            _ => {},
        }
    }
}

/// Within a forest's plan, every Attach step stands after the Materialize
/// step of its child endpoint, and after that of its parent endpoint
/// unless the parent is the enclosing node, whose Materialize stands
/// before the whole segment.
proof fn lemma_plan_children_attach_after<C, G>(s: Seq<GeomNode<C, G>>, base: int, parent: int)
    ensures
        forall|k: int|
            0 <= k < spec_plan_children(s, base, parent).len() ==> ((#[trigger] spec_plan_children(
                s,
                base,
                parent,
            )[k]) matches RenderStepV::Attach { parent: p, child: c } ==> (p == parent
                || materialized_before(spec_plan_children(s, base, parent), k, p))
                && materialized_before(spec_plan_children(s, base, parent), k, c)),
    decreases s,
{
    if s.len() > 0 {
        let pre = spec_plan_children(s.drop_last(), base, parent);
        let cb = base + size_all(s.drop_last());
        let sub = spec_plan(s.last(), cb);
        let seg = spec_plan_children(s, base, parent);
        lemma_plan_children_attach_after(s.drop_last(), base, parent);
        lemma_plan_attaches_after_materialize(s.last(), cb);
        assert(seg =~= pre + sub + seq![RenderStepV::Attach { parent, child: cb }]);
        assert forall|k: int|
            0 <= k < seg.len() implies ((#[trigger] seg[k]) matches RenderStepV::Attach {
            parent: p,
            child: c,
        } ==> (p == parent || materialized_before(seg, k, p)) && materialized_before(
            seg,
            k,
            c,
        )) by {
            match seg[k] {
                RenderStepV::Attach { parent: p, child: c } => {
                    if k < pre.len() {
                        assert(seg[k] == pre[k]);
                        if p != parent {
                            let k1 = choose|k1: int|
                                0 <= k1 < k && #[trigger] pre[k1] == (RenderStepV::Materialize {
                                    node: p,
                                });
                            assert(seg[k1] == RenderStepV::Materialize { node: p });
                        }
                        let k2 = choose|k2: int|
                            0 <= k2 < k && #[trigger] pre[k2] == (RenderStepV::Materialize {
                                node: c,
                            });
                        assert(seg[k2] == RenderStepV::Materialize { node: c });
                    } else if k < pre.len() + sub.len() {
                        assert(seg[k] == sub[k - pre.len()]);
                        let k1 = choose|k1: int|
                            0 <= k1 < k - pre.len() && #[trigger] sub[k1]
                                == (RenderStepV::Materialize { node: p });
                        assert(seg[pre.len() + k1] == RenderStepV::Materialize { node: p });
                        let k2 = choose|k2: int|
                            0 <= k2 < k - pre.len() && #[trigger] sub[k2]
                                == (RenderStepV::Materialize { node: c });
                        assert(seg[pre.len() + k2] == RenderStepV::Materialize { node: c });
                    } else {
                        assert(seg[k] == RenderStepV::Attach { parent, child: cb });
                        assert(sub[0] == RenderStepV::Materialize { node: cb });
                        assert(seg[pre.len() as int] == RenderStepV::Materialize { node: cb });
                    }
                },
                _ => {},
            }
        }
    }
}

/// Law: the Attach steps of the plan of a tree rooted at `base` attach
/// every non-root node exactly once — there are size-1 of them, their
/// child indices are distinct and cover exactly the non-root preorder
/// range — each to its correct parent (every pair is an edge of the
/// tree), and attaches under one parent come in the child order of the tree.
pub proof fn lemma_plan_attaches_once<C, G>(t: GeomNode<C, G>, base: int)
    ensures
        attach_pairs(spec_plan(t, base)).len() == size(t) - 1,
        forall|k: int|
            0 <= k < size(t) - 1 ==> base <= (#[trigger] attach_pairs(spec_plan(t, base))[k]).0
                < attach_pairs(spec_plan(t, base))[k].1 < base + size(t),
        forall|k1: int, k2: int|
            0 <= k1 < k2 < size(t) - 1 ==> (#[trigger] attach_pairs(spec_plan(t, base))[k1]).1 != (
            #[trigger] attach_pairs(spec_plan(t, base))[k2]).1,
        forall|id: int|
            base < id < base + size(t) ==> #[trigger] attaches_child(
                attach_pairs(spec_plan(t, base)),
                id,
            ),
        forall|k1: int, k2: int|
            0 <= k1 < k2 < size(t) - 1 && (#[trigger] attach_pairs(spec_plan(t, base))[k1]).0 == (
            #[trigger] attach_pairs(spec_plan(t, base))[k2]).0 ==> attach_pairs(
                spec_plan(t, base),
            )[k1].1 < attach_pairs(spec_plan(t, base))[k2].1,
        forall|k: int|
            0 <= k < size(t) - 1 ==> is_edge(
                t,
                base,
                (#[trigger] attach_pairs(spec_plan(t, base))[k]).0,
                attach_pairs(spec_plan(t, base))[k].1,
            ),
    decreases t,
{
    lemma_plan_children_attaches(t.children@, base + 1, base);
    lemma_attach_pairs_concat(
        seq![RenderStepV::Materialize { node: base }],
        spec_plan_children(t.children@, base + 1, base),
    );
    lemma_steps_single(RenderStepV::Materialize { node: base });
    assert(attach_pairs(spec_plan(t, base)) =~= attach_pairs(
        spec_plan_children(t.children@, base + 1, base),
    ));
}

/// The Attach steps of a forest's plan attach every node of the forest
/// exactly once: subtree roots to `parent`, in root order, and inner
/// nodes to their parents inside their subtree.
proof fn lemma_plan_children_attaches<C, G>(s: Seq<GeomNode<C, G>>, base: int, parent: int)
    requires
        base == parent + 1,
    ensures
        attach_pairs(spec_plan_children(s, base, parent)).len() == size_all(s),
        forall|k: int|
            0 <= k < size_all(s) ==> parent <= (#[trigger] attach_pairs(
                spec_plan_children(s, base, parent),
            )[k]).0 < attach_pairs(spec_plan_children(s, base, parent))[k].1 < base + size_all(s),
        forall|k1: int, k2: int|
            0 <= k1 < k2 < size_all(s) ==> (#[trigger] attach_pairs(
                spec_plan_children(s, base, parent),
            )[k1]).1 != (#[trigger] attach_pairs(spec_plan_children(s, base, parent))[k2]).1,
        forall|id: int|
            base <= id < base + size_all(s) ==> #[trigger] attaches_child(
                attach_pairs(spec_plan_children(s, base, parent)),
                id,
            ),
        forall|k1: int, k2: int|
            0 <= k1 < k2 < size_all(s) && (#[trigger] attach_pairs(
                spec_plan_children(s, base, parent),
            )[k1]).0 == (#[trigger] attach_pairs(spec_plan_children(s, base, parent))[k2]).0
                ==> attach_pairs(spec_plan_children(s, base, parent))[k1].1 < attach_pairs(
                spec_plan_children(s, base, parent),
            )[k2].1,
        forall|k: int|
            0 <= k < size_all(s) ==> ((#[trigger] attach_pairs(
                spec_plan_children(s, base, parent),
            )[k]).0 == parent && child_bases(s, base).contains(
                attach_pairs(spec_plan_children(s, base, parent))[k].1,
            )) || is_forest_edge(
                s,
                base,
                attach_pairs(spec_plan_children(s, base, parent))[k].0,
                attach_pairs(spec_plan_children(s, base, parent))[k].1,
            ),
    decreases s,
{
    if s.len() == 0 {
        assert(attach_pairs(spec_plan_children(s, base, parent)) =~= Seq::<(int, int)>::empty());
    } else {
        let pre = s.drop_last();
        let cb = base + size_all(pre);
        let pairs_pre = attach_pairs(spec_plan_children(pre, base, parent));
        let pairs_sub = attach_pairs(spec_plan(s.last(), cb));
        lemma_plan_children_attaches(pre, base, parent);
        lemma_plan_attaches_once(s.last(), cb);
        lemma_attach_pairs_concat(spec_plan_children(pre, base, parent), spec_plan(s.last(), cb));
        lemma_attach_pairs_concat(
            spec_plan_children(pre, base, parent) + spec_plan(s.last(), cb),
            seq![RenderStepV::Attach { parent, child: cb }],
        );
        lemma_steps_single(RenderStepV::Attach { parent, child: cb });
        let pairs = attach_pairs(spec_plan_children(s, base, parent));
        assert(pairs =~= pairs_pre + pairs_sub + seq![(parent, cb)]);
        assert(size_all(s) == size_all(pre) + size(s.last()));
        assert(pairs_pre.len() == size_all(pre));
        assert(pairs_sub.len() == size(s.last()) - 1);
        // membership: every node of the forest is attached
        assert forall|id: int| base <= id < base + size_all(s) implies #[trigger] attaches_child(
            pairs,
            id,
        ) by {
            if id < base + size_all(pre) {
                assert(attaches_child(pairs_pre, id));
                let k0 = choose|k: int| 0 <= k < pairs_pre.len() && (#[trigger] pairs_pre[k]).1
                    == id;
                assert(pairs[k0].1 == id);
            } else if id == cb {
                assert(pairs[pairs.len() - 1].1 == id);
            } else {
                assert(attaches_child(pairs_sub, id));
                let k0 = choose|k: int| 0 <= k < pairs_sub.len() && (#[trigger] pairs_sub[k]).1
                    == id;
                assert(pairs[pairs_pre.len() + k0].1 == id);
            }
        }
        // the edge facts, carried through the concatenation
        assert forall|k: int| 0 <= k < size_all(s) implies ((#[trigger] pairs[k]).0 == parent
            && child_bases(s, base).contains(pairs[k].1)) || is_forest_edge(
            s,
            base,
            pairs[k].0,
            pairs[k].1,
        ) by {
            assert(child_bases(s, base) =~= child_bases(pre, base).push(cb));
            if k < pairs_pre.len() {
                assert(pairs[k] == pairs_pre[k]);
                if pairs_pre[k].0 == parent && child_bases(pre, base).contains(pairs_pre[k].1) {
                    let j = choose|j: int|
                        0 <= j < child_bases(pre, base).len() && child_bases(pre, base)[j]
                            == pairs_pre[k].1;
                    assert(child_bases(s, base)[j] == pairs_pre[k].1);
                }
            } else if k < pairs_pre.len() + pairs_sub.len() {
                assert(pairs[k] == pairs_sub[k - pairs_pre.len()]);
                assert(is_edge(s.last(), cb, pairs[k].0, pairs[k].1));
            } else {
                assert(pairs[k] == (parent, cb));
                assert(child_bases(s, base).last() == cb);
            }
        }
    }
}
/// The nodes of a geometry tree in preorder, each reduced to its context
/// and geometry; a node's preorder index is its position here.
pub open spec fn spec_flatten<C, G>(t: GeomNode<C, G>) -> Seq<(C, G)>
    decreases t,
{
    seq![(t.context, t.geom)] + spec_flatten_all(t.children@)
}

/// The preorder nodes of a sequence of geometry trees, in order.
pub open spec fn spec_flatten_all<C, G>(s: Seq<GeomNode<C, G>>) -> Seq<(C, G)>
    decreases s,
{
    if s.len() == 0 {
        Seq::empty()
    } else {
        spec_flatten_all(s.drop_last()) + spec_flatten(s.last())
    }
}

/// A flattened tree holds one entry per node.
pub proof fn lemma_flatten_len<C, G>(t: GeomNode<C, G>)
    ensures
        spec_flatten(t).len() == size(t),
    decreases t,
{
    lemma_flatten_all_len(t.children@);
}

/// A flattened forest holds one entry per node.
pub proof fn lemma_flatten_all_len<C, G>(s: Seq<GeomNode<C, G>>)
    ensures
        spec_flatten_all(s).len() == size_all(s),
    decreases s,
{
    if s.len() > 0 {
        lemma_flatten_all_len(s.drop_last());
        lemma_flatten_len(s.last());
    }
}

/// The node-to-origin association table: the tree's nodes in preorder,
/// each as its context and geometry, so that the node named by a plan
/// step's index is the entry at that index.
pub fn flatten<'a, C, G>(t: &'a GeomNode<C, G>) -> (r: Vec<(&'a C, &'a G)>)
    ensures
        r@.len() == size(*t),
        forall|k: int|
            0 <= k < size(*t) ==> (*(#[trigger] r@[k]).0, *r@[k].1) == spec_flatten(*t)[k],
    decreases *t,
{
    proof {
        lemma_flatten_all_len(t.children@);
    }
    let ghost cs = t.children@;
    let mut out: Vec<(&'a C, &'a G)> = Vec::new();
    out.push((&t.context, &t.geom));
    let mut i: usize = 0;
    while i < t.children.len()
        invariant
            i <= t.children.len(),
            cs == t.children@,
            out@.len() == 1 + spec_flatten_all(cs.take(i as int)).len(),
            forall|k: int|
                0 <= k < out@.len() ==> (*(#[trigger] out@[k]).0, *out@[k].1) == (seq![
                    (t.context, t.geom),
                ] + spec_flatten_all(cs.take(i as int)))[k],
        decreases t.children@.len() - i,
    {
        let mut sub = flatten(&t.children[i]);
        proof {
            lemma_flatten_len(t.children@[i as int]);
            assert(cs.take(i + 1).drop_last() =~= cs.take(i as int));
            assert(cs.take(i + 1).last() == cs[i as int]);
        }
        let ghost before = out@;
        let ghost sub0 = sub@;
        out.append(&mut sub);
        proof {
            assert forall|k: int|
                0 <= k < out@.len() implies (*(#[trigger] out@[k]).0, *out@[k].1) == (seq![
                (t.context, t.geom),
            ] + spec_flatten_all(cs.take(i + 1)))[k] by {
                if k >= before.len() {
                    assert(out@[k] == sub0[k - before.len()]);
                }
            }
        }
        i += 1;
    }
    proof {
        assert(cs.take(cs.len() as int) =~= cs);
        assert(seq![(t.context, t.geom)] + spec_flatten_all(cs) =~= spec_flatten(*t));
    }
    out
}

} // verus!
