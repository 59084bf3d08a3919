//! The markup document model and its compiler.
//!
//! A tokenized markup document is a tree of generic nodes: tags with a
//! name, an attribute set and ordered children, raw text, and comments.
//! The compiler walks that tree and produces a typed element tree; the
//! tag vocabulary is `box`, `text` and `img`, and any other tag fails the
//! whole parse.

use vstd::prelude::*;

use crate::attrs::{attr_bool, attr_color, attr_i32, attr_scalar, attr_value, Attrs, AttrsV};
use crate::dimension::{parse_dimension, spec_parse_dimension, DimensionV};
use crate::elem::{elem_wf, elems_view, elems_wf, lemma_elems_view_push, Elem, ElemKindV, ElemV};
use crate::errors::{LiteralError, LiteralErrorV, MarkupError, MarkupErrorV};
use crate::scalar::is_unsigned_number;
use crate::text::{is_digit, str_eq};
use crate::style::{
    default_layout, parse_align, parse_direction, parse_position, parse_wrap, spec_parse_align,
    spec_parse_direction, spec_parse_position, spec_parse_wrap, FlexAlign, FlexDirection, FlexWrap,
    Layout, LayoutV, PositionType,
};

verus! {

/// One node of a tokenized markup document.
pub enum MarkupNode {
    /// A tag with its name, attributes and ordered children.
    Tag { name: String, attrs: Attrs, children: Vec<MarkupNode> },
    /// Raw text standing between tags.
    Raw(String),
    /// A comment, which never contributes an element.
    Comment,
}

/// The mathematical value of a [`MarkupNode`].
pub ghost enum NodeV {
    Tag { name: Seq<char>, attrs: AttrsV, children: Seq<NodeV> },
    Raw(Seq<char>),
    Comment,
}

impl View for MarkupNode {
    type V = NodeV;

    open spec fn view(&self) -> NodeV
        decreases self,
    {
        match self {
            MarkupNode::Tag { name, attrs, children } => NodeV::Tag {
                name: name@,
                attrs: attrs@,
                children: nodes_view(children@),
            },
            MarkupNode::Raw(t) => NodeV::Raw(t@),
            MarkupNode::Comment => NodeV::Comment,
        }
    }
}

/// The views of a sequence of markup nodes, in order.
pub open spec fn nodes_view(s: Seq<MarkupNode>) -> Seq<NodeV>
    decreases s,
{
    if s.len() == 0 {
        Seq::empty()
    } else {
        nodes_view(s.drop_last()).push(s.last()@)
    }
}

/// The views of a sequence follow the sequence pointwise.
pub proof fn lemma_nodes_view(s: Seq<MarkupNode>)
    ensures
        nodes_view(s).len() == s.len(),
        forall|i: int| 0 <= i < s.len() ==> nodes_view(s)[i] == s[i]@,
    decreases s,
{
    if s.len() > 0 {
        lemma_nodes_view(s.drop_last());
        assert(nodes_view(s) == nodes_view(s.drop_last()).push(s.last()@));
        assert forall|i: int| 0 <= i < s.len() implies nodes_view(s)[i] == s[i]@ by {
            if i < s.len() - 1 {
                assert(nodes_view(s)[i] == nodes_view(s.drop_last())[i]);
                assert(s.drop_last()[i] == s[i]);
            }
        }
    }
}

/// What the `position` attribute contributes to a style build.
pub open spec fn layout_field_position(attrs: AttrsV) -> Result<PositionType, LiteralErrorV> {
    match attr_value(attrs, "position"@) {
        None => Ok(PositionType::Relative),
        Some(v) => match spec_parse_position(v) {
            Some(p) => Ok(p),
            None => Err(LiteralErrorV::InvalidEnumValue("position"@)),
        },
    }
}

/// What the `flex-wrap` attribute contributes to a style build.
pub open spec fn layout_field_wrap(attrs: AttrsV) -> Result<FlexWrap, LiteralErrorV> {
    match attr_value(attrs, "flex-wrap"@) {
        None => Ok(FlexWrap::NoWrap),
        Some(v) => match spec_parse_wrap(v) {
            Some(w) => Ok(w),
            None => Err(LiteralErrorV::InvalidEnumValue("flex-wrap"@)),
        },
    }
}

/// What the `flex-direction` attribute contributes to a style build.
pub open spec fn layout_field_direction(attrs: AttrsV) -> Result<FlexDirection, LiteralErrorV> {
    match attr_value(attrs, "flex-direction"@) {
        None => Ok(FlexDirection::Row),
        Some(v) => match spec_parse_direction(v) {
            Some(d) => Ok(d),
            None => Err(LiteralErrorV::InvalidEnumValue("flex-direction"@)),
        },
    }
}

/// What one of the three alignment attributes contributes to a style build;
/// the error names the attribute.
pub open spec fn layout_field_align(attrs: AttrsV, name: Seq<char>) -> Result<
    FlexAlign,
    LiteralErrorV,
> {
    match attr_value(attrs, name) {
        None => Ok(FlexAlign::Inherit),
        Some(v) => match spec_parse_align(v) {
            Some(a) => Ok(a),
            None => Err(LiteralErrorV::InvalidEnumValue(name)),
        },
    }
}

/// What a dimension attribute (`width` or `height`) contributes to a
/// style build.
pub open spec fn layout_field_dim(attrs: AttrsV, name: Seq<char>) -> Result<
    DimensionV,
    LiteralErrorV,
> {
    match attr_value(attrs, name) {
        None => Ok(DimensionV::Auto),
        Some(v) => spec_parse_dimension(v),
    }
}

/// What a bare numeric attribute (`padding`, `margin` or `flex-grow`)
/// contributes to a style build.
pub open spec fn layout_field_scalar(attrs: AttrsV, name: Seq<char>) -> Result<
    Seq<char>,
    LiteralErrorV,
> {
    match attr_scalar(attrs, name) {
        Ok(None) => Ok("0"@),
        Ok(Some(v)) => Ok(v),
        Err(e) => Err(e),
    }
}

/// What building a style record from an attribute set yields. The
/// attributes are read in the order position, flex-wrap, flex-direction,
/// align-items, align-content, justify-content, width, height, padding,
/// margin, flex-grow; the first failure aborts the whole build.
pub open spec fn spec_parse_layout(attrs: AttrsV) -> Result<LayoutV, LiteralErrorV> {
    match layout_field_position(attrs) {
        Err(e) => Err(e),
        Ok(position) => match layout_field_wrap(attrs) {
            Err(e) => Err(e),
            Ok(wrap) => match layout_field_direction(attrs) {
                Err(e) => Err(e),
                Ok(direction) => match layout_field_align(attrs, "align-items"@) {
                    Err(e) => Err(e),
                    Ok(align_items) => match layout_field_align(attrs, "align-content"@) {
                        Err(e) => Err(e),
                        Ok(align_content) => match layout_field_align(attrs, "justify-content"@) {
                            Err(e) => Err(e),
                            Ok(justify_content) => match layout_field_dim(attrs, "width"@) {
                                Err(e) => Err(e),
                                Ok(width) => match layout_field_dim(attrs, "height"@) {
                                    Err(e) => Err(e),
                                    Ok(height) => match layout_field_scalar(attrs, "padding"@) {
                                        Err(e) => Err(e),
                                        Ok(padding) => match layout_field_scalar(
                                            attrs,
                                            "margin"@,
                                        ) {
                                            Err(e) => Err(e),
                                            Ok(margin) => match layout_field_scalar(
                                                attrs,
                                                "flex-grow"@,
                                            ) {
                                                Err(e) => Err(e),
                                                Ok(flex_grow) => Ok(
                                                    LayoutV {
                                                        position,
                                                        direction,
                                                        wrap,
                                                        align_items,
                                                        align_content,
                                                        justify_content,
                                                        width,
                                                        height,
                                                        margin_left: margin,
                                                        margin_right: margin,
                                                        margin_top: margin,
                                                        margin_bottom: margin,
                                                        padding_left: padding,
                                                        padding_right: padding,
                                                        padding_top: padding,
                                                        padding_bottom: padding,
                                                        flex_grow,
                                                    },
                                                ),
                                            },
                                        },
                                    },
                                },
                            },
                        },
                    },
                },
            },
        },
    }
}

/// The all-defaults style record is well formed.
pub proof fn lemma_default_layout_wf()
    ensures
        default_layout().wf(),
{
    reveal_strlit("0");
    assert(is_digit(("0"@)[0]));
    assert(is_unsigned_number("0"@));
}

/// Law: every style record a successful build yields is well formed —
/// each numeric field holds an accepted literal, so the record is fully
/// populated with exact values.
pub proof fn lemma_parse_layout_wf(attrs: AttrsV, l: LayoutV)
    requires
        spec_parse_layout(attrs) == Ok::<LayoutV, LiteralErrorV>(l),
    ensures
        l.wf(),
{
    lemma_default_layout_wf();
}

/// Builds a complete style record from a tag's attribute set.
///
/// Every recognized attribute that is present overwrites its default
/// field group; the first malformed value aborts the build with its
/// error, an unrecognized keyword naming the offending attribute.
#[verifier::rlimit(50)]
pub fn parse_layout(attrs: &Attrs) -> (r: Result<Layout, LiteralError>)
    ensures
        match r {
            Ok(l) => spec_parse_layout(attrs@) == Ok::<LayoutV, LiteralErrorV>(l@),
            Err(e) => spec_parse_layout(attrs@) == Err::<LayoutV, LiteralErrorV>(e@),
        },
{
    let mut layout = Layout::new();
    match attrs.get("position") {
        None => {},
        Some(v) => match parse_position(v.as_str()) {
            Some(p) => {
                layout.position = p;
            },
            None => {
                return Err(LiteralError::InvalidEnumValue("position".to_owned()));
            },
        },
    }
    match attrs.get("flex-wrap") {
        None => {},
        Some(v) => match parse_wrap(v.as_str()) {
            Some(w) => {
                layout.wrap = w;
            },
            None => {
                return Err(LiteralError::InvalidEnumValue("flex-wrap".to_owned()));
            },
        },
    }
    match attrs.get("flex-direction") {
        None => {},
        Some(v) => match parse_direction(v.as_str()) {
            Some(d) => {
                layout.direction = d;
            },
            None => {
                return Err(LiteralError::InvalidEnumValue("flex-direction".to_owned()));
            },
        },
    }
    match attrs.get("align-items") {
        None => {},
        Some(v) => match parse_align(v.as_str()) {
            Some(a) => {
                layout.align_items = a;
            },
            None => {
                return Err(LiteralError::InvalidEnumValue("align-items".to_owned()));
            },
        },
    }
    match attrs.get("align-content") {
        None => {},
        Some(v) => match parse_align(v.as_str()) {
            Some(a) => {
                layout.align_content = a;
            },
            None => {
                return Err(LiteralError::InvalidEnumValue("align-content".to_owned()));
            },
        },
    }
    match attrs.get("justify-content") {
        None => {},
        Some(v) => match parse_align(v.as_str()) {
            Some(a) => {
                layout.justify_content = a;
            },
            None => {
                return Err(LiteralError::InvalidEnumValue("justify-content".to_owned()));
            },
        },
    }
    match attrs.get("width") {
        None => {},
        Some(v) => match parse_dimension(v.as_str()) {
            Ok(d) => {
                layout.width = d;
            },
            Err(e) => {
                return Err(e);
            },
        },
    }
    match attrs.get("height") {
        None => {},
        Some(v) => match parse_dimension(v.as_str()) {
            Ok(d) => {
                layout.height = d;
            },
            Err(e) => {
                return Err(e);
            },
        },
    }
    match attrs.read_scalar("padding") {
        Ok(None) => {},
        Ok(Some(n)) => {
            layout.padding_left = n.clone();
            layout.padding_right = n.clone();
            layout.padding_top = n.clone();
            layout.padding_bottom = n;
        },
        Err(e) => {
            return Err(e);
        },
    }
    match attrs.read_scalar("margin") {
        Ok(None) => {},
        Ok(Some(n)) => {
            layout.margin_left = n.clone();
            layout.margin_right = n.clone();
            layout.margin_top = n.clone();
            layout.margin_bottom = n;
        },
        Err(e) => {
            return Err(e);
        },
    }
    match attrs.read_scalar("flex-grow") {
        Ok(None) => {},
        Ok(Some(n)) => {
            layout.flex_grow = n;
        },
        Err(e) => {
            return Err(e);
        },
    }
    Ok(layout)
}

/// The inner text of a node: raw text verbatim, nothing for a comment,
/// and the concatenated inner text of a tag's children in order.
pub open spec fn inner_text(n: NodeV) -> Seq<char>
    decreases n,
{
    match n {
        NodeV::Raw(t) => t,
        NodeV::Comment => Seq::empty(),
        NodeV::Tag { children, .. } => inner_texts(children),
    }
}

/// The concatenated inner text of a sequence of nodes, in order.
pub open spec fn inner_texts(s: Seq<NodeV>) -> Seq<char>
    decreases s,
{
    if s.len() == 0 {
        Seq::empty()
    } else {
        inner_texts(s.drop_last()) + inner_text(s.last())
    }
}

/// What compiling one markup node yields: an element, no element for a
/// skipped node, or the first error met.
pub open spec fn spec_parse_elem(n: NodeV) -> Result<Option<ElemV>, MarkupErrorV>
    decreases n,
{
    match n {
        NodeV::Raw(t) => Ok(
            Some(
                ElemV {
                    kind: ElemKindV::Text { content: t, font_size: None, color: None },
                    layout: default_layout(),
                    children: Seq::empty(),
                },
            ),
        ),
        NodeV::Comment => Ok(None),
        NodeV::Tag { name, attrs, children } => {
            if name == "box"@ {
                match spec_parse_children(children) {
                    Err(e) => Err(e),
                    Ok(es) => match attr_color(attrs, "background-color"@) {
                        Err(e) => Err(MarkupErrorV::Literal(e)),
                        Ok(bg) => match spec_parse_layout(attrs) {
                            Err(e) => Err(MarkupErrorV::Literal(e)),
                            Ok(l) => Ok(
                                Some(
                                    ElemV {
                                        kind: ElemKindV::Box { background: bg },
                                        layout: l,
                                        children: es,
                                    },
                                ),
                            ),
                        },
                    },
                }
            } else if name == "img"@ {
                match attr_value(attrs, "atlas"@) {
                    None => Ok(None),
                    Some(atlas) => match attr_color(attrs, "tint"@) {
                        Err(e) => Err(MarkupErrorV::Literal(e)),
                        Ok(tint) => match attr_bool(attrs, "nine-slice"@) {
                            Err(e) => Err(MarkupErrorV::Literal(e)),
                            Ok(nine) => match spec_parse_layout(attrs) {
                                Err(e) => Err(MarkupErrorV::Literal(e)),
                                Ok(l) => Ok(
                                    Some(
                                        ElemV {
                                            kind: ElemKindV::Image {
                                                atlas,
                                                part: attr_value(attrs, "part"@),
                                                tint,
                                                nine_slice: match nine {
                                                    Some(b) => b,
                                                    None => false,
                                                },
                                            },
                                            layout: l,
                                            children: Seq::empty(),
                                        },
                                    ),
                                ),
                            },
                        },
                    },
                }
            } else if name == "text"@ {
                match attr_i32(attrs, "font-size"@) {
                    Err(e) => Err(MarkupErrorV::Literal(e)),
                    Ok(font_size) => match attr_color(attrs, "color"@) {
                        Err(e) => Err(MarkupErrorV::Literal(e)),
                        Ok(color) => match spec_parse_layout(attrs) {
                            Err(e) => Err(MarkupErrorV::Literal(e)),
                            Ok(l) => Ok(
                                Some(
                                    ElemV {
                                        kind: ElemKindV::Text {
                                            content: inner_texts(children),
                                            font_size,
                                            color,
                                        },
                                        layout: l,
                                        children: Seq::empty(),
                                    },
                                ),
                            ),
                        },
                    },
                }
            } else {
                Err(MarkupErrorV::UnexpectedTag(name))
            }
        },
    }
}

/// What compiling an ordered sequence of markup nodes yields: the elements
/// of the nodes that produce one, in source order, or the leftmost error.
pub open spec fn spec_parse_children(s: Seq<NodeV>) -> Result<Seq<ElemV>, MarkupErrorV>
    decreases s,
{
    if s.len() == 0 {
        Ok(Seq::empty())
    } else {
        match spec_parse_children(s.drop_last()) {
            Err(e) => Err(e),
            Ok(es) => match spec_parse_elem(s.last()) {
                Err(e) => Err(e),
                Ok(None) => Ok(es),
                Ok(Some(e)) => Ok(es.push(e)),
            },
        }
    }
}

/// An error in a prefix of the child list is the error of the whole list.
pub proof fn lemma_parse_children_prefix_error(s: Seq<NodeV>, j: int)
    requires
        0 <= j <= s.len(),
        spec_parse_children(s.take(j)) is Err,
    ensures
        spec_parse_children(s) == spec_parse_children(s.take(j)),
    decreases s.len(),
{
    if j == s.len() {
        assert(s.take(j) =~= s);
    } else {
        assert(s.drop_last().take(j) =~= s.take(j));
        lemma_parse_children_prefix_error(s.drop_last(), j);
    }
}

/// What compiling a whole document yields: the element of its first
/// top-level node; any further top-level nodes are not consulted. A
/// document without a top-level node, or whose first top-level node
/// produces no element, has no content.
pub open spec fn spec_parse_document(s: Seq<NodeV>) -> Result<ElemV, MarkupErrorV> {
    if s.len() == 0 {
        Err(MarkupErrorV::EmptyDocument)
    } else {
        match spec_parse_elem(s[0]) {
            Err(e) => Err(e),
            Ok(None) => Err(MarkupErrorV::EmptyDocument),
            Ok(Some(e)) => Ok(e),
        }
    }
}

/// Law: every element the compiler yields carries a well-formed style,
/// and so does every element beneath it.
pub proof fn lemma_parse_elem_wf(n: NodeV, e: ElemV)
    requires
        spec_parse_elem(n) == Ok::<Option<ElemV>, MarkupErrorV>(Some(e)),
    ensures
        elem_wf(e),
    decreases n,
{
    match n {
        NodeV::Raw(_) => {
            lemma_default_layout_wf();
        },
        NodeV::Comment => {},
        NodeV::Tag { name, attrs, children } => {
            if name == "box"@ {
                let es = match spec_parse_children(children) {
                    Ok(es) => es,
                    Err(_) => Seq::empty(),
                };
                lemma_parse_children_wf(children, es);
                let l = match spec_parse_layout(attrs) {
                    Ok(l) => l,
                    Err(_) => default_layout(),
                };
                lemma_parse_layout_wf(attrs, l);
            } else if name == "img"@ || name == "text"@ {
                let l = match spec_parse_layout(attrs) {
                    Ok(l) => l,
                    Err(_) => default_layout(),
                };
                lemma_parse_layout_wf(attrs, l);
            }
        },
    }
}

/// Every element a successful child compilation yields is well formed
/// throughout.
proof fn lemma_parse_children_wf(s: Seq<NodeV>, es: Seq<ElemV>)
    requires
        spec_parse_children(s) == Ok::<Seq<ElemV>, MarkupErrorV>(es),
    ensures
        elems_wf(es),
    decreases s,
{
    if s.len() == 0 {
    } else {
        let es_pre = match spec_parse_children(s.drop_last()) {
            Ok(es_pre) => es_pre,
            Err(_) => Seq::empty(),
        };
        lemma_parse_children_wf(s.drop_last(), es_pre);
        match spec_parse_elem(s.last()) {
            Ok(Some(e)) => {
                lemma_parse_elem_wf(s.last(), e);
                assert(es_pre.push(e).drop_last() =~= es_pre);
            },
            _ => {},
        }
    }
}

/// Law: the root element of a successfully compiled document is well
/// formed throughout.
pub proof fn lemma_parse_document_wf(s: Seq<NodeV>, root: ElemV)
    requires
        spec_parse_document(s) == Ok::<ElemV, MarkupErrorV>(root),
    ensures
        elem_wf(root),
{
    lemma_parse_elem_wf(s[0], root);
}

/// Whether a node is a tag with the given name.
pub open spec fn is_tag_named(n: NodeV, name: Seq<char>) -> bool {
    n matches NodeV::Tag { name: nm, .. } && nm == name
}

/// When compiling a node list succeeds and no node of the list is
/// skipped, the result holds exactly one element per node, in order.
pub proof fn lemma_parse_children_no_skip(s: Seq<NodeV>, es: Seq<ElemV>)
    requires
        spec_parse_children(s) == Ok::<Seq<ElemV>, MarkupErrorV>(es),
        forall|i: int|
            0 <= i < s.len() ==> spec_parse_elem(#[trigger] s[i]) != Ok::<
                Option<ElemV>,
                MarkupErrorV,
            >(None),
    ensures
        es.len() == s.len(),
        forall|i: int|
            0 <= i < s.len() ==> spec_parse_elem(#[trigger] s[i]) == Ok::<
                Option<ElemV>,
                MarkupErrorV,
            >(Some(es[i])),
    decreases s,
{
    if s.len() > 0 {
        let pre = s.drop_last();
        let es_pre = match spec_parse_children(pre) {
            Ok(es_pre) => es_pre,
            Err(_) => Seq::empty(),
        };
        assert(forall|i: int| 0 <= i < pre.len() ==> pre[i] == s[i]);
        lemma_parse_children_no_skip(pre, es_pre);
        assert(s.last() == s[s.len() - 1]);
        assert(es =~= es_pre.push(es.last()));
    }
}

/// Law: a markup document whose root is a single `box` holding only
/// `text` and `box` children compiles, when it succeeds, to a root
/// element with exactly one child per markup child, in source order.
pub proof fn lemma_box_children_in_source_order(
    attrs: AttrsV,
    children: Seq<NodeV>,
    root: ElemV,
)
    requires
        forall|i: int|
            0 <= i < children.len() ==> is_tag_named(#[trigger] children[i], "text"@)
                || is_tag_named(children[i], "box"@),
        spec_parse_document(seq![NodeV::Tag { name: "box"@, attrs, children }]) == Ok::<
            ElemV,
            MarkupErrorV,
        >(root),
    ensures
        root.children.len() == children.len(),
        forall|i: int|
            0 <= i < children.len() ==> spec_parse_elem(#[trigger] children[i]) == Ok::<
                Option<ElemV>,
                MarkupErrorV,
            >(Some(root.children[i])),
{
    reveal_strlit("box");
    reveal_strlit("text");
    reveal_strlit("img");
    let doc = seq![NodeV::Tag { name: "box"@, attrs, children }];
    assert(spec_parse_elem(doc[0]) == Ok::<Option<ElemV>, MarkupErrorV>(Some(root)));
    let es = match spec_parse_children(children) {
        Ok(es) => es,
        Err(_) => Seq::empty(),
    };
    assert(root.children == es);
    assert forall|i: int| 0 <= i < children.len() implies spec_parse_elem(#[trigger] children[i])
        != Ok::<Option<ElemV>, MarkupErrorV>(None) by {
        assert(("text"@).len() == 4 && ("box"@).len() == 3 && ("img"@).len() == 3);
        assert(("box"@)[0] == 'b' && ("img"@)[0] == 'i');
    }
    lemma_parse_children_no_skip(children, es);
}

/// The inner text of one markup node.
pub fn inner_text_exec(node: &MarkupNode) -> (r: String)
    ensures
        r@ == inner_text(node@),
    decreases node,
{
    match node {
        MarkupNode::Raw(t) => t.clone(),
        MarkupNode::Comment => String::new(),
        MarkupNode::Tag { children, .. } => inner_texts_exec(children),
    }
}

/// The concatenated inner text of a node list, in order.
pub fn inner_texts_exec(children: &Vec<MarkupNode>) -> (r: String)
    ensures
        r@ == inner_texts(nodes_view(children@)),
    decreases children@,
{
    let ghost vs = nodes_view(children@);
    proof {
        lemma_nodes_view(children@);
    }
    let mut out = String::new();
    let mut i: usize = 0;
    while i < children.len()
        invariant
            i <= children.len(),
            vs == nodes_view(children@),
            vs.len() == children@.len(),
            forall|k: int| 0 <= k < children@.len() ==> vs[k] == children@[k]@,
            out@ == inner_texts(vs.take(i as int)),
        decreases children@.len() - i,
    {
        let piece = inner_text_exec(&children[i]);
        out.append(piece.as_str());
        proof {
            assert(vs.take(i + 1).drop_last() =~= vs.take(i as int));
            assert(vs.take(i + 1).last() == vs[i as int]);
        }
        i += 1;
    }
    proof {
        assert(vs.take(children@.len() as int) =~= vs);
    }
    out
}

/// Compiles one markup node into at most one element.
///
/// A raw text node is a plain text element; a comment is skipped; a `box`
/// compiles its children, then its optional background color, then its
/// style; an `img` without `atlas` is skipped, with `atlas` it reads the
/// optional `part` and `tint`, the `nine-slice` flag (absent means no nine
/// slicing), then its style; a `text` tag takes its inner text, optional
/// `font-size` and `color`, then its style. Any other tag name fails with
/// `UnexpectedTag`, and the first error anywhere aborts the whole parse.
pub fn parse_elem(node: &MarkupNode) -> (r: Result<Option<Elem>, MarkupError>)
    ensures
        match r {
            Ok(Some(el)) => spec_parse_elem(node@) == Ok::<Option<ElemV>, MarkupErrorV>(
                Some(el@),
            ),
            Ok(None) => spec_parse_elem(node@) == Ok::<Option<ElemV>, MarkupErrorV>(None),
            Err(e) => spec_parse_elem(node@) == Err::<Option<ElemV>, MarkupErrorV>(e@),
        },
    decreases node,
{
    match node {
        MarkupNode::Raw(t) => Ok(Some(Elem::new_text(t.as_str(), None, None))),
        MarkupNode::Comment => Ok(None),
        MarkupNode::Tag { name, attrs, children } => {
            if str_eq(name.as_str(), "box") {
                let child_elems = match parse_children(children) {
                    Ok(es) => es,
                    Err(e) => {
                        return Err(e);
                    },
                };
                let background = match attrs.read_color("background-color") {
                    Ok(c) => c,
                    Err(e) => {
                        return Err(MarkupError::Literal(e));
                    },
                };
                let layout = match parse_layout(attrs) {
                    Ok(l) => l,
                    Err(e) => {
                        return Err(MarkupError::Literal(e));
                    },
                };
                Ok(Some(Elem::new_box(child_elems, background).with_layout(layout)))
            } else if str_eq(name.as_str(), "img") {
                let atlas = match attrs.read_str("atlas") {
                    None => {
                        return Ok(None);
                    },
                    Some(a) => a,
                };
                let tint = match attrs.read_color("tint") {
                    Ok(c) => c,
                    Err(e) => {
                        return Err(MarkupError::Literal(e));
                    },
                };
                let nine_slice = match attrs.read_bool("nine-slice") {
                    Ok(Some(b)) => b,
                    Ok(None) => false,
                    Err(e) => {
                        return Err(MarkupError::Literal(e));
                    },
                };
                let layout = match parse_layout(attrs) {
                    Ok(l) => l,
                    Err(e) => {
                        return Err(MarkupError::Literal(e));
                    },
                };
                let part = attrs.read_str("part");
                let el = Elem::new_image(
                    atlas.as_str(),
                    match part {
                        Some(p) => Some(p.as_str()),
                        None => None,
                    },
                    tint,
                    nine_slice,
                );
                Ok(Some(el.with_layout(layout)))
            } else if str_eq(name.as_str(), "text") {
                let content = inner_texts_exec(children);
                let font_size = match attrs.read_i32("font-size") {
                    Ok(n) => n,
                    Err(e) => {
                        return Err(MarkupError::Literal(e));
                    },
                };
                let color = match attrs.read_color("color") {
                    Ok(c) => c,
                    Err(e) => {
                        return Err(MarkupError::Literal(e));
                    },
                };
                let layout = match parse_layout(attrs) {
                    Ok(l) => l,
                    Err(e) => {
                        return Err(MarkupError::Literal(e));
                    },
                };
                Ok(Some(Elem::new_text(content.as_str(), font_size, color).with_layout(layout)))
            } else {
                Err(MarkupError::UnexpectedTag(name.clone()))
            }
        },
    }
}

/// Compiles an ordered node list into the elements it produces, in source
/// order, aborting at the first error.
pub fn parse_children(children: &Vec<MarkupNode>) -> (r: Result<Vec<Elem>, MarkupError>)
    ensures
        match r {
            Ok(es) => spec_parse_children(nodes_view(children@)) == Ok::<
                Seq<ElemV>,
                MarkupErrorV,
            >(elems_view(es@)),
            Err(e) => spec_parse_children(nodes_view(children@)) == Err::<
                Seq<ElemV>,
                MarkupErrorV,
            >(e@),
        },
    decreases children@,
{
    let ghost vs = nodes_view(children@);
    proof {
        lemma_nodes_view(children@);
        assert(vs.take(0) =~= Seq::<NodeV>::empty());
        assert(elems_view(Seq::<Elem>::empty()) =~= Seq::<ElemV>::empty());
    }
    let mut out: Vec<Elem> = Vec::new();
    let mut i: usize = 0;
    while i < children.len()
        invariant
            i <= children.len(),
            vs == nodes_view(children@),
            vs.len() == children@.len(),
            forall|k: int| 0 <= k < children@.len() ==> vs[k] == children@[k]@,
            spec_parse_children(vs.take(i as int)) == Ok::<Seq<ElemV>, MarkupErrorV>(
                elems_view(out@),
            ),
        decreases children@.len() - i,
    {
        proof {
            assert(vs.take(i + 1).drop_last() =~= vs.take(i as int));
            assert(vs.take(i + 1).last() == vs[i as int]);
        }
        match parse_elem(&children[i]) {
            Err(e) => {
                proof {
                    lemma_parse_children_prefix_error(vs, i + 1);
                }
                return Err(e);
            },
            Ok(None) => {},
            Ok(Some(el)) => {
                proof {
                    lemma_elems_view_push(out@, el);
                }
                out.push(el);
            },
        }
        i += 1;
    }
    proof {
        assert(vs.take(children@.len() as int) =~= vs);
    }
    Ok(out)
}

/// Compiles a whole tokenized document: its first top-level node must
/// produce an element, which becomes the root of the element tree; any
/// further top-level nodes are not consulted.
///
/// An empty document, or one whose first node is skipped (a comment, or
/// an `img` without `atlas`), fails with `EmptyDocument`.
pub fn parse_document(nodes: &Vec<MarkupNode>) -> (r: Result<Elem, MarkupError>)
    ensures
        match r {
            Ok(el) => spec_parse_document(nodes_view(nodes@)) == Ok::<ElemV, MarkupErrorV>(el@),
            Err(e) => spec_parse_document(nodes_view(nodes@)) == Err::<ElemV, MarkupErrorV>(e@),
        },
{
    proof {
        lemma_nodes_view(nodes@);
    }
    if nodes.len() == 0 {
        return Err(MarkupError::EmptyDocument);
    }
    match parse_elem(&nodes[0]) {
        Err(e) => Err(e),
        Ok(None) => Err(MarkupError::EmptyDocument),
        Ok(Some(el)) => Ok(el),
    }
}

} // verus!
