use flexy_reds::attrs::{Attr, Attrs};
use flexy_reds::dimension::Dimension;
use flexy_reds::elem::{Elem, ElemKind};
use flexy_reds::errors::{LiteralError, MarkupError};
use flexy_reds::style::PositionType;
use flexy_reds::tokenize::{parse, template_path};

fn attr(name: &str, value: &str) -> Attr {
    Attr { name: name.to_string(), value: Some(value.to_string()) }
}

#[test]
fn parse_simple_box() {
    let dom = tl::parse("<box flex-grow='1'>as</box>", tl::ParserOptions::default()).unwrap();
    let parser = dom.parser();
    let node = dom.children().first().unwrap().get(parser).unwrap();
    let tag = node.as_tag().unwrap().name();
    assert_eq!(tag.as_utf8_str(), "box");
}

#[test]
fn box_with_text_child_and_grow() {
    let root = parse("<box flex-grow=\"1\">hello</box>").unwrap();
    assert!(matches!(root.kind, ElemKind::Box { background: None }));
    assert_eq!(root.layout.flex_grow().text, "1");
    assert_eq!(root.children.len(), 1);
    let child = &root.children[0];
    assert!(matches!(
        &child.kind,
        ElemKind::Text { content, font_size: None, color: None } if content == "hello"
    ));
}

#[test]
fn image_without_atlas_is_skipped() {
    let root = parse("<box><img/></box>").unwrap();
    assert!(matches!(root.kind, ElemKind::Box { .. }));
    assert_eq!(root.children.len(), 0);
}

#[test]
fn unknown_tag_fails_whole_parse() {
    assert!(matches!(
        parse("<card>x</card>"),
        Err(MarkupError::UnexpectedTag(name)) if name == "card"
    ));
}

#[test]
fn unknown_tag_inside_box_fails_whole_parse() {
    assert!(matches!(
        parse("<box><card>x</card></box>"),
        Err(MarkupError::UnexpectedTag(name)) if name == "card"
    ));
}

#[test]
fn box_children_keep_source_order() {
    let root = parse("<box><text font-size=\"12\">a</text><box></box><text>c</text></box>")
        .unwrap();
    assert_eq!(root.children.len(), 3);
    assert!(matches!(
        &root.children[0].kind,
        ElemKind::Text { content, font_size: Some(12), .. } if content == "a"
    ));
    assert!(matches!(&root.children[1].kind, ElemKind::Box { .. }));
    assert!(matches!(
        &root.children[2].kind,
        ElemKind::Text { content, .. } if content == "c"
    ));
}

#[test]
fn empty_document_fails() {
    assert!(matches!(parse(""), Err(MarkupError::EmptyDocument)));
}

#[test]
fn image_with_atlas_reads_all_attributes() {
    let root = parse(
        "<box><img atlas=\"icons\" part=\"p1\" tint=\"#010203\" nine-slice=\"true\"/></box>",
    ).unwrap();
    assert_eq!(root.children.len(), 1);
    match &root.children[0].kind {
        ElemKind::Image { atlas, part, tint, nine_slice } => {
            assert_eq!(atlas, "icons");
            assert_eq!(part.as_deref(), Some("p1"));
            let t = tint.unwrap();
            assert_eq!((t.red, t.green, t.blue, t.alpha), (1, 2, 3, 255));
            assert!(*nine_slice);
        },
        other => panic!("not an image: {:?}", std::mem::discriminant(other)),
    }
}

#[test]
fn malformed_background_color_is_an_error() {
    assert!(matches!(
        parse("<box background-color=\"112233\"></box>"),
        Err(MarkupError::Literal(LiteralError::MissingPrefix))
    ));
}

#[test]
fn malformed_nine_slice_is_an_error() {
    assert!(matches!(
        parse("<box><img atlas=\"a\" nine-slice=\"yes\"/></box>"),
        Err(MarkupError::Literal(LiteralError::MalformedBoolean))
    ));
}

#[test]
fn malformed_font_size_is_an_error() {
    assert!(matches!(
        parse("<text font-size=\"12px\">x</text>"),
        Err(MarkupError::Literal(LiteralError::MalformedNumber))
    ));
    assert!(matches!(
        parse("<text font-size=\"99999999999\">x</text>"),
        Err(MarkupError::Literal(LiteralError::MalformedNumber))
    ));
}

#[test]
fn unknown_position_keyword_names_the_field() {
    assert!(matches!(
        parse("<box position=\"sticky\"></box>"),
        Err(MarkupError::Literal(LiteralError::InvalidEnumValue(f))) if f == "position"
    ));
}

#[test]
fn width_attribute_parses_as_dimension() {
    let root = parse("<box width=\"50%\" height=\"320pt\" position=\"absolute\"></box>").unwrap();
    assert!(matches!(root.layout.width(), Dimension::Percent(v) if v.text == "50"));
    assert!(matches!(root.layout.height(), Dimension::Point(v) if v.text == "320"));
    assert_eq!(root.layout.position_type(), PositionType::Absolute);
}

#[test]
fn malformed_width_aborts_the_parse() {
    assert!(matches!(
        parse("<box width=\"50\"></box>"),
        Err(MarkupError::Literal(LiteralError::MissingUnit))
    ));
}

#[test]
fn text_inner_text_concatenates_descendants() {
    let root = parse("<text>a<box>b</box>c</text>").unwrap();
    assert!(matches!(
        &root.kind,
        ElemKind::Text { content, .. } if content == "abc"
    ));
}

#[test]
fn negative_font_size_is_read() {
    let root = parse("<text font-size=\"-3\">x</text>").unwrap();
    assert!(matches!(&root.kind, ElemKind::Text { font_size: Some(-3), .. }));
}

#[test]
fn attrs_absent_value_counts_as_absent() {
    let mut attrs = Attrs::new();
    attrs.push_bare("atlas".to_string());
    assert!(attrs.read_str("atlas").is_none());
    let mut attrs = Attrs::new();
    attrs.push("atlas".to_string(), "a".to_string());
    assert_eq!(attrs.read_str("atlas").unwrap(), "a");
    assert!(attrs.read_str("part").is_none());
}

#[test]
fn attrs_first_pair_under_a_name_wins() {
    let mut attrs = Attrs::new();
    attrs.push("k".to_string(), "1".to_string());
    attrs.push("k".to_string(), "2".to_string());
    assert_eq!(attrs.read_str("k").unwrap(), "1");
}

#[test]
fn attrs_read_i32_bounds() {
    let a = Attrs { items: vec![attr("n", "2147483647")] };
    assert_eq!(a.read_i32("n").unwrap(), Some(2147483647));
    let a = Attrs { items: vec![attr("n", "2147483648")] };
    assert!(matches!(a.read_i32("n"), Err(LiteralError::MalformedNumber)));
    let a = Attrs { items: vec![attr("n", "-2147483648")] };
    assert_eq!(a.read_i32("n").unwrap(), Some(-2147483648));
    let a = Attrs { items: vec![attr("n", "+42")] };
    assert_eq!(a.read_i32("n").unwrap(), Some(42));
    let a = Attrs { items: vec![attr("n", "")] };
    assert!(matches!(a.read_i32("n"), Err(LiteralError::MalformedNumber)));
    let a = Attrs { items: vec![] };
    assert_eq!(a.read_i32("n").unwrap(), None);
}

#[test]
fn template_path_is_fixed_location() {
    assert_eq!(template_path("menu"), "r6/ui/templates/menu.html");
}

#[test]
fn raw_top_level_text_is_a_text_element() {
    let root = parse("hello").unwrap();
    assert!(matches!(
        &root.kind,
        ElemKind::Text { content, font_size: None, color: None } if content == "hello"
    ));
    assert!(root.children.is_empty());
}

#[test]
fn elem_constructors_carry_their_fields() {
    let text = Elem::new_text("hi", Some(9), None);
    let boxed = Elem::new_box(vec![text], None);
    assert_eq!(boxed.children().len(), 1);
    assert!(matches!(
        &boxed.children()[0].kind,
        ElemKind::Text { content, font_size: Some(9), .. } if content == "hi"
    ));
    let img = Elem::new_image("atlas", Some("part"), None, false);
    assert!(matches!(
        &img.kind,
        ElemKind::Image { atlas, part: Some(p), tint: None, nine_slice: false }
            if atlas == "atlas" && p == "part"
    ));
}

#[test]
fn document_uses_first_top_level_node() {
    let root = parse("<box></box><text>late</text>").unwrap();
    assert!(matches!(root.kind, ElemKind::Box { .. }));
}

#[test]
fn document_whose_first_node_is_a_comment_has_no_content() {
    assert!(matches!(parse("<!-- banner --><box></box>"), Err(MarkupError::EmptyDocument)));
}
