use flexy_reds::dimension::{parse_dimension, Dimension, DimensionUnit};
use flexy_reds::errors::LiteralError;
use flexy_reds::scalar::{parse_scalar, Scalar};
use flexy_reds::style::{FlexAlign, FlexDirection, FlexProperty, FlexWrap, Layout, PositionType};

#[test]
fn it_parses_percentages() {
    assert!(matches!(parse_dimension("100%"), Ok(Dimension::Percent(v)) if v.text == "100"));
}

#[test]
fn it_parses_points() {
    assert!(matches!(parse_dimension("320pt"), Ok(Dimension::Point(v)) if v.text == "320"));
}

#[test]
fn dimension_auto_is_exact() {
    assert!(matches!(parse_dimension("auto"), Ok(Dimension::Auto)));
}

#[test]
fn dimension_without_unit_fails() {
    assert!(matches!(parse_dimension("320"), Err(LiteralError::MissingUnit)));
}

#[test]
fn dimension_with_unknown_unit_fails() {
    assert!(matches!(parse_dimension("320xx"), Err(LiteralError::InvalidLiteral)));
}

#[test]
fn dimension_empty_fails() {
    assert!(matches!(parse_dimension(""), Err(LiteralError::MissingUnit)));
}

#[test]
fn dimension_strips_spaces() {
    assert!(matches!(parse_dimension("3 2 pt"), Ok(Dimension::Point(v)) if v.text == "32"));
}

#[test]
fn dimension_rejects_leading_sign() {
    // a sign is a boundary character, so the whole tail is an unknown unit
    assert!(matches!(parse_dimension("-3pt"), Err(LiteralError::InvalidLiteral)));
}

#[test]
fn dimension_rejects_two_dots() {
    assert!(matches!(parse_dimension("1.2.3pt"), Err(LiteralError::MalformedNumber)));
}

#[test]
fn dimension_rejects_bare_dot_mantissa() {
    assert!(matches!(parse_dimension(".pt"), Err(LiteralError::MalformedNumber)));
}

#[test]
fn dimension_parts_round_trip() {
    let (val, unit) = parse_dimension("12.5%").unwrap().parts();
    assert_eq!(unit, DimensionUnit::Percent);
    assert_eq!(val.as_ref().unwrap().text, "12.5");
    assert!(matches!(
        Dimension::from_parts(val, unit),
        Dimension::Percent(v) if v.text == "12.5"
    ));
}

#[test]
fn dimension_from_absent_parts_is_auto() {
    assert!(matches!(Dimension::from_parts(None, DimensionUnit::Point), Dimension::Auto));
    let five = parse_scalar("5").unwrap();
    assert!(matches!(
        Dimension::from_parts(Some(five), DimensionUnit::Point),
        Dimension::Point(v) if v.text == "5"
    ));
}

#[test]
fn scalar_accepts_signed_decimals() {
    assert_eq!(parse_scalar("-1.5").unwrap().text, "-1.5");
    assert_eq!(parse_scalar(".5").unwrap().text, ".5");
    assert_eq!(parse_scalar("1.").unwrap().text, "1.");
    assert!(matches!(parse_scalar("1.2.3"), Err(LiteralError::MalformedNumber)));
    assert!(matches!(parse_scalar("."), Err(LiteralError::MalformedNumber)));
    assert!(matches!(parse_scalar("-"), Err(LiteralError::MalformedNumber)));
    assert!(matches!(parse_scalar(""), Err(LiteralError::MalformedNumber)));
}

#[test]
fn host_tags_round_trip() {
    assert_eq!(PositionType::Absolute.tag(), 1);
    assert_eq!(PositionType::from_tag(1), Some(PositionType::Absolute));
    assert_eq!(PositionType::from_tag(9), None);
    assert_eq!(FlexDirection::from_tag(3), Some(FlexDirection::ColumnReverse));
    assert_eq!(FlexDirection::from_tag(4), None);
    assert_eq!(FlexWrap::from_tag(2), Some(FlexWrap::WrapReverse));
    assert_eq!(FlexAlign::from_tag(7), Some(FlexAlign::Baseline));
    assert_eq!(FlexAlign::SpaceAround.tag(), 6);
    assert_eq!(DimensionUnit::from_tag(2), Some(DimensionUnit::Percent));
    assert_eq!(DimensionUnit::Point.tag(), 1);
}

#[test]
fn layout_defaults_are_complete() {
    let l = Layout::new();
    assert_eq!(l.position_type(), PositionType::Relative);
    assert_eq!(l.flex_direction(), FlexDirection::Row);
    assert_eq!(l.flex_wrap(), FlexWrap::NoWrap);
    assert_eq!(l.align_items(), FlexAlign::Inherit);
    assert_eq!(l.align_content(), FlexAlign::Inherit);
    assert_eq!(l.justify_content(), FlexAlign::Inherit);
    assert!(matches!(l.width(), Dimension::Auto));
    assert!(matches!(l.height(), Dimension::Auto));
    assert_eq!(l.margin_left().text, "0");
    assert_eq!(l.padding_bottom().text, "0");
    assert_eq!(l.flex_grow().text, "0");
}

#[test]
fn layout_with_margin_fills_all_sides() {
    let l = Layout::new().with_margin(parse_scalar("7").unwrap());
    assert_eq!(l.margin_left().text, "7");
    assert_eq!(l.margin_right().text, "7");
    assert_eq!(l.margin_top().text, "7");
    assert_eq!(l.margin_bottom().text, "7");
    // padding is untouched
    assert_eq!(l.padding_left().text, "0");
}

#[test]
fn layout_builders_overwrite_one_field() {
    let l = Layout::new()
        .with_position_type(PositionType::Absolute)
        .with_flex_direction(FlexDirection::Column)
        .with_flex_wrap(FlexWrap::Wrap)
        .with_align_items(FlexAlign::Center)
        .with_flex_grow(parse_scalar("2").unwrap());
    assert_eq!(l.position_type(), PositionType::Absolute);
    assert_eq!(l.flex_direction(), FlexDirection::Column);
    assert_eq!(l.flex_wrap(), FlexWrap::Wrap);
    assert_eq!(l.align_items(), FlexAlign::Center);
    assert_eq!(l.flex_grow().text, "2");
    assert_eq!(l.justify_content(), FlexAlign::Inherit);
}

#[test]
fn layout_properties_come_in_engine_order() {
    let l = Layout::new().with_position_type(PositionType::Absolute).with_margin(
        parse_scalar("3").unwrap(),
    );
    let props = l.properties();
    assert_eq!(props.len(), 17);
    assert!(matches!(props[0], FlexProperty::Direction(FlexDirection::Row)));
    assert!(matches!(props[1], FlexProperty::Wrap(FlexWrap::NoWrap)));
    assert!(matches!(&props[7], FlexProperty::MarginLeft(Scalar { text }) if text == "3"));
    assert!(matches!(&props[10], FlexProperty::MarginBottom(Scalar { text }) if text == "3"));
    assert!(matches!(&props[15], FlexProperty::Grow(Scalar { text }) if text == "0"));
    assert!(matches!(props[16], FlexProperty::Fixed(true)));
}
