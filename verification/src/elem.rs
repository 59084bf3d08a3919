//! The typed element tree.
//!
//! An element is a node of the authored UI tree: a container box, a text
//! leaf, or an image leaf. Every element owns one complete style record
//! and an ordered sequence of child elements; elements are value trees
//! with no sharing, immutable once built.

use vstd::prelude::*;

use crate::color::Color;
use crate::style::{default_layout, Layout, LayoutV};

verus! {

/// What kind of element a node is, with the data of that kind.
pub enum ElemKind {
    /// A container with an optional background color.
    Box { background: Option<Color> },
    /// A text leaf with literal content, an optional font size and an
    /// optional color.
    Text { content: String, font_size: Option<i32>, color: Option<Color> },
    /// An image leaf: its atlas, an optional atlas part, an optional tint,
    /// and whether it scales as nine slices.
    Image { atlas: String, part: Option<String>, tint: Option<Color>, nine_slice: bool },
}

/// The mathematical value of an [`ElemKind`].
pub ghost enum ElemKindV {
    Box { background: Option<Color> },
    Text { content: Seq<char>, font_size: Option<i32>, color: Option<Color> },
    Image { atlas: Seq<char>, part: Option<Seq<char>>, tint: Option<Color>, nine_slice: bool },
}

impl View for ElemKind {
    type V = ElemKindV;

    open spec fn view(&self) -> ElemKindV {
        match self {
            ElemKind::Box { background } => ElemKindV::Box { background: *background },
            ElemKind::Text { content, font_size, color } => ElemKindV::Text {
                content: content@,
                font_size: *font_size,
                color: *color,
            },
            ElemKind::Image { atlas, part, tint, nine_slice } => ElemKindV::Image {
                atlas: atlas@,
                part: match part {
                    Some(p) => Some(p@),
                    None => None,
                },
                tint: *tint,
                nine_slice: *nine_slice,
            },
        }
    }
}

impl Clone for ElemKind {
    fn clone(&self) -> (r: Self)
        ensures
            r@ == self@,
    {
        match self {
            ElemKind::Box { background } => ElemKind::Box { background: *background },
            ElemKind::Text { content, font_size, color } => ElemKind::Text {
                content: content.clone(),
                font_size: *font_size,
                color: *color,
            },
            ElemKind::Image { atlas, part, tint, nine_slice } => ElemKind::Image {
                atlas: atlas.clone(),
                part: match part {
                    Some(p) => Some(p.clone()),
                    None => None,
                },
                tint: *tint,
                nine_slice: *nine_slice,
            },
        }
    }
}

/// One node of the element tree.
pub struct Elem {
    pub kind: ElemKind,
    pub layout: Layout,
    pub children: Vec<Elem>,
}

/// The mathematical value of an [`Elem`].
pub ghost struct ElemV {
    pub kind: ElemKindV,
    pub layout: LayoutV,
    pub children: Seq<ElemV>,
}

impl View for Elem {
    type V = ElemV;

    open spec fn view(&self) -> ElemV
        decreases self,
    {
        match self {
            Elem { kind, layout, children } => ElemV {
                kind: kind@,
                layout: layout@,
                children: elems_view(children@),
            },
        }
    }
}

/// The views of a sequence of elements, in order.
pub open spec fn elems_view(s: Seq<Elem>) -> Seq<ElemV>
    decreases s,
{
    if s.len() == 0 {
        Seq::empty()
    } else {
        elems_view(s.drop_last()).push(s.last()@)
    }
}

/// The views of a sequence follow the sequence pointwise.
pub proof fn lemma_elems_view(s: Seq<Elem>)
    ensures
        elems_view(s).len() == s.len(),
        forall|i: int| 0 <= i < s.len() ==> elems_view(s)[i] == s[i]@,
    decreases s,
{
    if s.len() > 0 {
        lemma_elems_view(s.drop_last());
        assert(elems_view(s) == elems_view(s.drop_last()).push(s.last()@));
        assert forall|i: int| 0 <= i < s.len() implies elems_view(s)[i] == s[i]@ by {
            if i < s.len() - 1 {
                assert(elems_view(s)[i] == elems_view(s.drop_last())[i]);
                assert(s.drop_last()[i] == s[i]);
            }
        }
    }
}

/// Appending an element appends its view.
pub proof fn lemma_elems_view_push(s: Seq<Elem>, x: Elem)
    ensures
        elems_view(s.push(x)) == elems_view(s).push(x@),
{
    assert(s.push(x).drop_last() =~= s);
    assert(s.push(x).last() == x);
}

/// Whether an element's style record and, recursively, the style record
/// of every element beneath it is well formed.
pub open spec fn elem_wf(e: ElemV) -> bool
    decreases e,
{
    e.layout.wf() && elems_wf(e.children)
}

/// Whether every element of a sequence is well formed throughout.
pub open spec fn elems_wf(s: Seq<ElemV>) -> bool
    decreases s,
{
    s.len() == 0 || (elems_wf(s.drop_last()) && elem_wf(s.last()))
}

impl Elem {
    /// Builds a container element with the given children and optional
    /// background color, styled with the all-defaults layout.
    pub fn new_box(children: Vec<Elem>, color: Option<Color>) -> (r: Elem)
        ensures
            r@ == (ElemV {
                kind: ElemKindV::Box { background: color },
                layout: default_layout(),
                children: elems_view(children@),
            }),
    {
        Elem { kind: ElemKind::Box { background: color }, layout: Layout::new(), children }
    }

    /// Builds a text leaf with the given content, optional font size and
    /// optional color, styled with the all-defaults layout.
    pub fn new_text(content: &str, font_size: Option<i32>, color: Option<Color>) -> (r: Elem)
        ensures
            r@ == (ElemV {
                kind: ElemKindV::Text { content: content@, font_size, color },
                layout: default_layout(),
                children: Seq::empty(),
            }),
    {
        let r = Elem {
            kind: ElemKind::Text { content: content.to_owned(), font_size, color },
            layout: Layout::new(),
            children: Vec::new(),
        };
        proof {
            assert(elems_view(r.children@) =~= Seq::empty());
        }
        r
    }

    /// Builds an image leaf from its atlas, optional atlas part, optional
    /// tint and nine-slice flag, styled with the all-defaults layout.
    pub fn new_image(atlas: &str, part: Option<&str>, tint: Option<Color>, nine_slice: bool) -> (r:
        Elem)
        ensures
            r@ == (ElemV {
                kind: ElemKindV::Image {
                    atlas: atlas@,
                    part: match part {
                        Some(p) => Some(p@),
                        None => None,
                    },
                    tint,
                    nine_slice,
                },
                layout: default_layout(),
                children: Seq::empty(),
            }),
    {
        let r = Elem {
            kind: ElemKind::Image {
                atlas: atlas.to_owned(),
                part: match part {
                    Some(p) => Some(p.to_owned()),
                    None => None,
                },
                tint,
                nine_slice,
            },
            layout: Layout::new(),
            children: Vec::new(),
        };
        proof {
            assert(elems_view(r.children@) =~= Seq::empty());
        }
        r
    }

    /// The element's style record.
    pub fn layout(&self) -> (r: &Layout)
        ensures
            r@ == self@.layout,
    {
        &self.layout
    }

    /// The element's ordered children.
    pub fn children(&self) -> (r: &Vec<Elem>)
        ensures
            elems_view(r@) == self@.children,
    {
        &self.children
    }

    /// The same element, restyled with the given layout.
    pub fn with_layout(self, layout: Layout) -> (r: Elem)
        ensures
            r@ == (ElemV { layout: layout@, ..self@ }),
    {
        Elem { kind: self.kind, layout, children: self.children }
    }
}

} // verus!
