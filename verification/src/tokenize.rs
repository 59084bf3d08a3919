//! The tokenizer boundary.
//!
//! Markup text is tokenized into a generic tag/attribute/children tree by
//! an outside tokenizer; everything after that boundary — the vocabulary,
//! the literals, the element tree — is this crate's own verified logic.

use vstd::prelude::*;

use crate::attrs::{Attr, Attrs};
use crate::elem::{Elem, ElemV};
use crate::errors::{MarkupError, MarkupErrorV};
use crate::markup::{nodes_view, parse_document, spec_parse_document, MarkupNode, NodeV};

verus! {

#[verifier::external_type_specification]
#[verifier::external_body]
pub struct ExTlNode<'a>(tl::Node<'a>);

#[verifier::external_type_specification]
#[verifier::external_body]
pub struct ExTlTag<'a>(tl::HTMLTag<'a>);

#[verifier::external_type_specification]
#[verifier::external_body]
pub struct ExTlParser<'a>(tl::Parser<'a>);

/// The tokenized node tree of a markup text, or nothing when the
/// tokenizer rejects the text. The tokenizer is deterministic and the
/// model reads each tag's attribute pairs as a map, so what a text
/// tokenizes to is a function of the text alone, however the tokenizer
/// stores and walks an attribute set internally.
pub uninterp spec fn dom_of(s: Seq<char>) -> Option<Seq<NodeV>>;

/// Relies on tl's node variants: carries one tokenized node into the
/// crate's own node type, one arm per variant.
#[verifier::external_body]
fn convert_node(node: &tl::Node, parser: &tl::Parser) -> (r: MarkupNode) {
    match node {
        tl::Node::Tag(tag) => convert_tag(tag, parser),
        tl::Node::Raw(b) => MarkupNode::Raw(b.as_utf8_str().into_owned()),
        tl::Node::Comment(_) => MarkupNode::Comment,
    }
}

/// Relies on tl's tag accessors (`name`, `attributes`, `children`):
/// carries a tag's name, attribute pairs and children over field by
/// field, converting each child through `convert_node`.
#[verifier::external_body]
fn convert_tag(tag: &tl::HTMLTag, parser: &tl::Parser) -> (r: MarkupNode) {
    let items = tag.attributes().iter().map(
        |(k, v)| Attr { name: k.into_owned(), value: v.map(|x| x.into_owned()) },
    ).collect();
    MarkupNode::Tag {
        name: tag.name().as_utf8_str().into_owned(),
        attrs: Attrs { items },
        children: tag.children().top().iter().filter_map(|h| h.get(parser)).map(
            |n| convert_node(n, parser),
        ).collect(),
    }
}

/// Relies on tl::parse: tokenizes markup text into its top-level node
/// list, which `convert_node` carries over node by node.
#[verifier::external_body]
fn tokenize(source: &str) -> (r: Option<Vec<MarkupNode>>)
    ensures
        match r {
            Some(nodes) => dom_of(source@) == Some(nodes_view(nodes@)),
            None => dom_of(source@) == None::<Seq<NodeV>>,
        },
{
    let dom = match tl::parse(source, tl::ParserOptions::default()) {
        Ok(dom) => dom,
        Err(_) => return None,
    };
    let parser = dom.parser();
    Some(dom.children().iter().filter_map(|h| h.get(parser)).map(
        |n| convert_node(n, parser),
    ).collect())
}

/// Parses markup text into an element tree: tokenizes the text, then
/// compiles the tokenized document.
///
/// Text that the tokenizer rejects fails with `InvalidMarkup`; everything
/// after tokenization fails exactly as [`parse_document`] does.
pub fn parse(source: &str) -> (r: Result<Elem, MarkupError>)
    ensures
        match dom_of(source@) {
            None => r matches Err(e) && e@ == MarkupErrorV::InvalidMarkup,
            Some(ns) => match r {
                Ok(el) => spec_parse_document(ns) == Ok::<ElemV, MarkupErrorV>(el@),
                Err(e) => spec_parse_document(ns) == Err::<ElemV, MarkupErrorV>(e@),
            },
        },
{
    match tokenize(source) {
        None => Err(MarkupError::InvalidMarkup),
        Some(nodes) => parse_document(&nodes),
    }
}

/// The path under which a named markup template is stored: the fixed
/// templates directory, the template's name, and the markup extension.
pub fn template_path(name: &str) -> (r: String)
    ensures
        r@ == "r6/ui/templates/"@ + name@ + ".html"@,
{
    let mut path = "r6/ui/templates/".to_owned();
    path.append(name);
    path.append(".html");
    path
}

} // verus!
