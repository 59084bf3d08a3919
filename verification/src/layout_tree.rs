//! The layout-tree builder.
//!
//! An element tree is converted, children before parent, into the node
//! tree the layout engine takes: each node carries the element's extracted
//! style properties, a back-reference to what the element is (needed at
//! render time to materialize the right widget), and its children in the
//! element's child order. The built tree has exactly the element tree's
//! shape.

use vstd::prelude::*;

use crate::elem::{lemma_elems_view, Elem, ElemKind, ElemKindV, ElemV};
use crate::style::{layout_properties, props_view, FlexProperty, FlexPropertyV};

verus! {

/// One node of the layout engine's input tree.
pub struct LayoutNode {
    /// The style properties extracted from the originating element.
    pub props: Vec<FlexProperty>,
    /// What the originating element is, kept so that the computed
    /// geometry can be rendered back into the right widget.
    pub context: ElemKind,
    /// The node's children, in the element's child order.
    pub children: Vec<LayoutNode>,
}

/// The mathematical value of a [`LayoutNode`].
pub ghost struct LayoutNodeV {
    pub props: Seq<FlexPropertyV>,
    pub context: ElemKindV,
    pub children: Seq<LayoutNodeV>,
}

impl View for LayoutNode {
    type V = LayoutNodeV;

    open spec fn view(&self) -> LayoutNodeV
        decreases self,
    {
        match self {
            LayoutNode { props, context, children } => LayoutNodeV {
                props: props_view(props@),
                context: context@,
                children: layout_nodes_view(children@),
            },
        }
    }
}

/// The views of a sequence of layout nodes, in order.
pub open spec fn layout_nodes_view(s: Seq<LayoutNode>) -> Seq<LayoutNodeV>
    decreases s,
{
    if s.len() == 0 {
        Seq::empty()
    } else {
        layout_nodes_view(s.drop_last()).push(s.last()@)
    }
}

/// What building a layout node from an element yields: the element's
/// extracted properties, the element's kind as context, and the built
/// children in order.
pub open spec fn spec_build(e: ElemV) -> LayoutNodeV
    decreases e,
{
    LayoutNodeV {
        props: layout_properties(e.layout),
        context: e.kind,
        children: spec_build_all(e.children),
    }
}

/// What building each element of a sequence yields, in order.
pub open spec fn spec_build_all(s: Seq<ElemV>) -> Seq<LayoutNodeV>
    decreases s,
{
    if s.len() == 0 {
        Seq::empty()
    } else {
        spec_build_all(s.drop_last()).push(spec_build(s.last()))
    }
}

/// Converts an element tree into the layout engine's input tree,
/// children before parent, preserving child order exactly.
pub fn build(elem: &Elem) -> (r: LayoutNode)
    ensures
        r@ == spec_build(elem@),
    decreases elem,
{
    proof {
        lemma_elems_view(elem.children@);
    }
    let ghost cs = elem@.children;
    let mut children: Vec<LayoutNode> = Vec::new();
    let mut i: usize = 0;
    while i < elem.children.len()
        invariant
            i <= elem.children.len(),
            cs == elem@.children,
            cs.len() == elem.children@.len(),
            forall|k: int| 0 <= k < elem.children@.len() ==> cs[k] == elem.children@[k]@,
            layout_nodes_view(children@) == spec_build_all(cs.take(i as int)),
        decreases elem.children@.len() - i,
    {
        let node = build(&elem.children[i]);
        proof {
            assert(children@.push(node).drop_last() =~= children@);
            assert(cs.take(i + 1).drop_last() =~= cs.take(i as int));
            assert(cs.take(i + 1).last() == cs[i as int]);
        }
        children.push(node);
        i += 1;
    }
    proof {
        assert(cs.take(elem.children@.len() as int) =~= cs);
    }
    LayoutNode { props: elem.layout.properties(), context: elem.kind.clone(), children }
}

/// The pure shape of a tree: each node reduced to its ordered children.
pub ghost struct Shape {
    pub children: Seq<Shape>,
}

/// The number of nodes a shape holds.
pub open spec fn shape_size(s: Shape) -> nat
    decreases s,
{
    1 + shapes_size(s.children)
}

/// The number of nodes a sequence of shapes holds.
pub open spec fn shapes_size(s: Seq<Shape>) -> nat
    decreases s,
{
    if s.len() == 0 {
        0nat
    } else {
        shapes_size(s.drop_last()) + shape_size(s.last())
    }
}

/// The shape of an element tree.
pub open spec fn elem_shape(e: ElemV) -> Shape
    decreases e,
{
    Shape { children: elems_shape(e.children) }
}

/// The shapes of a sequence of element trees, in order.
pub open spec fn elems_shape(s: Seq<ElemV>) -> Seq<Shape>
    decreases s,
{
    if s.len() == 0 {
        Seq::empty()
    } else {
        elems_shape(s.drop_last()).push(elem_shape(s.last()))
    }
}

/// The shape of a layout-node tree.
pub open spec fn node_shape(n: LayoutNodeV) -> Shape
    decreases n,
{
    Shape { children: nodes_shape(n.children) }
}

/// The shapes of a sequence of layout-node trees, in order.
pub open spec fn nodes_shape(s: Seq<LayoutNodeV>) -> Seq<Shape>
    decreases s,
{
    if s.len() == 0 {
        Seq::empty()
    } else {
        nodes_shape(s.drop_last()).push(node_shape(s.last()))
    }
}

/// The layout tree built from an element tree has exactly the element
/// tree's shape: the same node count, and node for node the same child
/// count in the same order.
pub proof fn lemma_build_preserves_shape(e: ElemV)
    ensures
        node_shape(spec_build(e)) == elem_shape(e),
        shape_size(node_shape(spec_build(e))) == shape_size(elem_shape(e)),
    decreases e,
{
    lemma_build_all_preserves_shape(e.children);
}

/// The layout trees built from a sequence of element trees have exactly
/// the element trees' shapes, in order.
pub proof fn lemma_build_all_preserves_shape(s: Seq<ElemV>)
    ensures
        nodes_shape(spec_build_all(s)) == elems_shape(s),
    decreases s,
{
    if s.len() > 0 {
        lemma_build_all_preserves_shape(s.drop_last());
        lemma_build_preserves_shape(s.last());
        assert(spec_build_all(s.drop_last()).push(spec_build(s.last())).drop_last()
            =~= spec_build_all(s.drop_last()));
        assert(nodes_shape(spec_build_all(s)) =~= elems_shape(s));
    }
}

} // verus!
