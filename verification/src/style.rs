//! The layout style record and its keyword vocabulary.
//!
//! A [`Layout`] is always fully populated: construction starts from the
//! all-defaults record and each recognized attribute overwrites exactly
//! one group of fields. The keyword tables map attribute text to the
//! style enumerations; an unrecognized keyword is an error naming the
//! attribute, never a silent default.

use vstd::prelude::*;

use crate::dimension::{Dimension, DimensionV};
use crate::scalar::{is_number, Scalar};
use crate::text::str_eq;

verus! {

/// How a node is positioned: in the normal flow or absolutely.
#[derive(Clone, Copy, Debug, PartialEq, Eq, Structural)]
pub enum PositionType {
    Relative,
    Absolute,
}

/// The main axis direction of a flex container.
#[derive(Clone, Copy, Debug, PartialEq, Eq, Structural)]
pub enum FlexDirection {
    Row,
    Column,
    RowReverse,
    ColumnReverse,
}

/// Whether and how a flex container wraps its lines.
#[derive(Clone, Copy, Debug, PartialEq, Eq, Structural)]
pub enum FlexWrap {
    NoWrap,
    Wrap,
    WrapReverse,
}

/// An alignment keyword, shared by the three alignment attributes.
#[derive(Clone, Copy, Debug, PartialEq, Eq, Structural)]
pub enum FlexAlign {
    Inherit,
    Stretch,
    Start,
    Center,
    End,
    SpaceBetween,
    SpaceAround,
    Baseline,
}

impl PositionType {
    /// The host's integer encoding of this position kind.
    pub fn tag(self) -> (r: u64)
        ensures
            r == (match self {
                PositionType::Relative => 0u64,
                PositionType::Absolute => 1u64,
            }),
    {
        match self {
            PositionType::Relative => 0,
            PositionType::Absolute => 1,
        }
    }

    /// Decodes the host's integer encoding of a position kind; an unknown
    /// tag is no position kind.
    pub fn from_tag(tag: u64) -> (r: Option<PositionType>)
        ensures
            r == (if tag == 0 {
                Some(PositionType::Relative)
            } else if tag == 1 {
                Some(PositionType::Absolute)
            } else {
                None::<PositionType>
            }),
    {
        match tag {
            0 => Some(PositionType::Relative),
            1 => Some(PositionType::Absolute),
            _ => None,
        }
    }
}

impl FlexDirection {
    /// The host's integer encoding of this direction.
    pub fn tag(self) -> (r: u64)
        ensures
            r == (match self {
                FlexDirection::Row => 0u64,
                FlexDirection::Column => 1u64,
                FlexDirection::RowReverse => 2u64,
                FlexDirection::ColumnReverse => 3u64,
            }),
    {
        match self {
            FlexDirection::Row => 0,
            FlexDirection::Column => 1,
            FlexDirection::RowReverse => 2,
            FlexDirection::ColumnReverse => 3,
        }
    }

    /// Decodes the host's integer encoding of a flex direction.
    pub fn from_tag(tag: u64) -> (r: Option<FlexDirection>)
        ensures
            r == (if tag == 0 {
                Some(FlexDirection::Row)
            } else if tag == 1 {
                Some(FlexDirection::Column)
            } else if tag == 2 {
                Some(FlexDirection::RowReverse)
            } else if tag == 3 {
                Some(FlexDirection::ColumnReverse)
            } else {
                None::<FlexDirection>
            }),
    {
        match tag {
            0 => Some(FlexDirection::Row),
            1 => Some(FlexDirection::Column),
            2 => Some(FlexDirection::RowReverse),
            3 => Some(FlexDirection::ColumnReverse),
            _ => None,
        }
    }
}

impl FlexWrap {
    /// The host's integer encoding of this wrap mode.
    pub fn tag(self) -> (r: u64)
        ensures
            r == (match self {
                FlexWrap::NoWrap => 0u64,
                FlexWrap::Wrap => 1u64,
                FlexWrap::WrapReverse => 2u64,
            }),
    {
        match self {
            FlexWrap::NoWrap => 0,
            FlexWrap::Wrap => 1,
            FlexWrap::WrapReverse => 2,
        }
    }

    /// Decodes the host's integer encoding of a wrap mode.
    pub fn from_tag(tag: u64) -> (r: Option<FlexWrap>)
        ensures
            r == (if tag == 0 {
                Some(FlexWrap::NoWrap)
            } else if tag == 1 {
                Some(FlexWrap::Wrap)
            } else if tag == 2 {
                Some(FlexWrap::WrapReverse)
            } else {
                None::<FlexWrap>
            }),
    {
        match tag {
            0 => Some(FlexWrap::NoWrap),
            1 => Some(FlexWrap::Wrap),
            2 => Some(FlexWrap::WrapReverse),
            _ => None,
        }
    }
}

impl FlexAlign {
    /// The host's integer encoding of this alignment.
    pub fn tag(self) -> (r: u64)
        ensures
            r == (match self {
                FlexAlign::Inherit => 0u64,
                FlexAlign::Stretch => 1u64,
                FlexAlign::Start => 2u64,
                FlexAlign::Center => 3u64,
                FlexAlign::End => 4u64,
                FlexAlign::SpaceBetween => 5u64,
                FlexAlign::SpaceAround => 6u64,
                FlexAlign::Baseline => 7u64,
            }),
    {
        match self {
            FlexAlign::Inherit => 0,
            FlexAlign::Stretch => 1,
            FlexAlign::Start => 2,
            FlexAlign::Center => 3,
            FlexAlign::End => 4,
            FlexAlign::SpaceBetween => 5,
            FlexAlign::SpaceAround => 6,
            FlexAlign::Baseline => 7,
        }
    }

    /// Decodes the host's integer encoding of an alignment.
    pub fn from_tag(tag: u64) -> (r: Option<FlexAlign>)
        ensures
            r == (if tag == 0 {
                Some(FlexAlign::Inherit)
            } else if tag == 1 {
                Some(FlexAlign::Stretch)
            } else if tag == 2 {
                Some(FlexAlign::Start)
            } else if tag == 3 {
                Some(FlexAlign::Center)
            } else if tag == 4 {
                Some(FlexAlign::End)
            } else if tag == 5 {
                Some(FlexAlign::SpaceBetween)
            } else if tag == 6 {
                Some(FlexAlign::SpaceAround)
            } else if tag == 7 {
                Some(FlexAlign::Baseline)
            } else {
                None::<FlexAlign>
            }),
    {
        match tag {
            0 => Some(FlexAlign::Inherit),
            1 => Some(FlexAlign::Stretch),
            2 => Some(FlexAlign::Start),
            3 => Some(FlexAlign::Center),
            4 => Some(FlexAlign::End),
            5 => Some(FlexAlign::SpaceBetween),
            6 => Some(FlexAlign::SpaceAround),
            7 => Some(FlexAlign::Baseline),
            _ => None,
        }
    }
}

/// What the `position` keyword table yields.
pub open spec fn spec_parse_position(s: Seq<char>) -> Option<PositionType> {
    if s == "relative"@ {
        Some(PositionType::Relative)
    } else if s == "absolute"@ {
        Some(PositionType::Absolute)
    } else {
        None
    }
}

/// Maps `position` keyword text to its variant.
pub fn parse_position(s: &str) -> (r: Option<PositionType>)
    ensures
        r == spec_parse_position(s@),
{
    if str_eq(s, "relative") {
        Some(PositionType::Relative)
    } else if str_eq(s, "absolute") {
        Some(PositionType::Absolute)
    } else {
        None
    }
}

/// What the `flex-direction` keyword table yields.
pub open spec fn spec_parse_direction(s: Seq<char>) -> Option<FlexDirection> {
    if s == "row"@ {
        Some(FlexDirection::Row)
    } else if s == "column"@ {
        Some(FlexDirection::Column)
    } else if s == "row-reverse"@ {
        Some(FlexDirection::RowReverse)
    } else if s == "column-reverse"@ {
        Some(FlexDirection::ColumnReverse)
    } else {
        None
    }
}

/// Maps `flex-direction` keyword text to its variant.
pub fn parse_direction(s: &str) -> (r: Option<FlexDirection>)
    ensures
        r == spec_parse_direction(s@),
{
    if str_eq(s, "row") {
        Some(FlexDirection::Row)
    } else if str_eq(s, "column") {
        Some(FlexDirection::Column)
    } else if str_eq(s, "row-reverse") {
        Some(FlexDirection::RowReverse)
    } else if str_eq(s, "column-reverse") {
        Some(FlexDirection::ColumnReverse)
    } else {
        None
    }
}

/// What the `flex-wrap` keyword table yields.
pub open spec fn spec_parse_wrap(s: Seq<char>) -> Option<FlexWrap> {
    if s == "no-wrap"@ {
        Some(FlexWrap::NoWrap)
    } else if s == "wrap"@ {
        Some(FlexWrap::Wrap)
    } else if s == "wrap-reverse"@ {
        Some(FlexWrap::WrapReverse)
    } else {
        None
    }
}

/// Maps `flex-wrap` keyword text to its variant.
pub fn parse_wrap(s: &str) -> (r: Option<FlexWrap>)
    ensures
        r == spec_parse_wrap(s@),
{
    if str_eq(s, "no-wrap") {
        Some(FlexWrap::NoWrap)
    } else if str_eq(s, "wrap") {
        Some(FlexWrap::Wrap)
    } else if str_eq(s, "wrap-reverse") {
        Some(FlexWrap::WrapReverse)
    } else {
        None
    }
}

/// What the alignment keyword table yields, shared by `align-items`,
/// `align-content` and `justify-content`.
pub open spec fn spec_parse_align(s: Seq<char>) -> Option<FlexAlign> {
    if s == "inherit"@ {
        Some(FlexAlign::Inherit)
    } else if s == "stretch"@ {
        Some(FlexAlign::Stretch)
    } else if s == "start"@ {
        Some(FlexAlign::Start)
    } else if s == "center"@ {
        Some(FlexAlign::Center)
    } else if s == "end"@ {
        Some(FlexAlign::End)
    } else if s == "space-between"@ {
        Some(FlexAlign::SpaceBetween)
    } else if s == "space-around"@ {
        Some(FlexAlign::SpaceAround)
    } else if s == "baseline"@ {
        Some(FlexAlign::Baseline)
    } else {
        None
    }
}

/// Maps alignment keyword text to its variant.
pub fn parse_align(s: &str) -> (r: Option<FlexAlign>)
    ensures
        r == spec_parse_align(s@),
{
    if str_eq(s, "inherit") {
        Some(FlexAlign::Inherit)
    } else if str_eq(s, "stretch") {
        Some(FlexAlign::Stretch)
    } else if str_eq(s, "start") {
        Some(FlexAlign::Start)
    } else if str_eq(s, "center") {
        Some(FlexAlign::Center)
    } else if str_eq(s, "end") {
        Some(FlexAlign::End)
    } else if str_eq(s, "space-between") {
        Some(FlexAlign::SpaceBetween)
    } else if str_eq(s, "space-around") {
        Some(FlexAlign::SpaceAround)
    } else if str_eq(s, "baseline") {
        Some(FlexAlign::Baseline)
    } else {
        None
    }
}

/// A complete style record. Margins and paddings are kept per side; the
/// markup surface writes one uniform value that fills all four sides.
pub struct Layout {
    pub position: PositionType,
    pub direction: FlexDirection,
    pub wrap: FlexWrap,
    pub align_items: FlexAlign,
    pub align_content: FlexAlign,
    pub justify_content: FlexAlign,
    pub width: Dimension,
    pub height: Dimension,
    pub margin_left: Scalar,
    pub margin_right: Scalar,
    pub margin_top: Scalar,
    pub margin_bottom: Scalar,
    pub padding_left: Scalar,
    pub padding_right: Scalar,
    pub padding_top: Scalar,
    pub padding_bottom: Scalar,
    pub flex_grow: Scalar,
}

/// The mathematical value of a [`Layout`].
pub ghost struct LayoutV {
    pub position: PositionType,
    pub direction: FlexDirection,
    pub wrap: FlexWrap,
    pub align_items: FlexAlign,
    pub align_content: FlexAlign,
    pub justify_content: FlexAlign,
    pub width: DimensionV,
    pub height: DimensionV,
    pub margin_left: Seq<char>,
    pub margin_right: Seq<char>,
    pub margin_top: Seq<char>,
    pub margin_bottom: Seq<char>,
    pub padding_left: Seq<char>,
    pub padding_right: Seq<char>,
    pub padding_top: Seq<char>,
    pub padding_bottom: Seq<char>,
    pub flex_grow: Seq<char>,
}

impl LayoutV {
    /// Whether every numeric field of the record holds an accepted
    /// literal: the well-formedness that the all-defaults record has and
    /// every style build keeps.
    pub open spec fn wf(&self) -> bool {
        &&& self.width.wf()
        &&& self.height.wf()
        &&& is_number(self.margin_left)
        &&& is_number(self.margin_right)
        &&& is_number(self.margin_top)
        &&& is_number(self.margin_bottom)
        &&& is_number(self.padding_left)
        &&& is_number(self.padding_right)
        &&& is_number(self.padding_top)
        &&& is_number(self.padding_bottom)
        &&& is_number(self.flex_grow)
    }
}

impl View for Layout {
    type V = LayoutV;

    open spec fn view(&self) -> LayoutV {
        LayoutV {
            position: self.position,
            direction: self.direction,
            wrap: self.wrap,
            align_items: self.align_items,
            align_content: self.align_content,
            justify_content: self.justify_content,
            width: self.width@,
            height: self.height@,
            margin_left: self.margin_left@,
            margin_right: self.margin_right@,
            margin_top: self.margin_top@,
            margin_bottom: self.margin_bottom@,
            padding_left: self.padding_left@,
            padding_right: self.padding_right@,
            padding_top: self.padding_top@,
            padding_bottom: self.padding_bottom@,
            flex_grow: self.flex_grow@,
        }
    }
}

impl Clone for Layout {
    fn clone(&self) -> (r: Self)
        ensures
            r@ == self@,
    {
        Layout {
            position: self.position,
            direction: self.direction,
            wrap: self.wrap,
            align_items: self.align_items,
            align_content: self.align_content,
            justify_content: self.justify_content,
            width: self.width.clone(),
            height: self.height.clone(),
            margin_left: self.margin_left.clone(),
            margin_right: self.margin_right.clone(),
            margin_top: self.margin_top.clone(),
            margin_bottom: self.margin_bottom.clone(),
            padding_left: self.padding_left.clone(),
            padding_right: self.padding_right.clone(),
            padding_top: self.padding_top.clone(),
            padding_bottom: self.padding_bottom.clone(),
            flex_grow: self.flex_grow.clone(),
        }
    }
}

/// The all-defaults style: relative row flow without wrapping, inherited
/// alignment, automatic size, and zero margin, padding and grow.
pub open spec fn default_layout() -> LayoutV {
    LayoutV {
        position: PositionType::Relative,
        direction: FlexDirection::Row,
        wrap: FlexWrap::NoWrap,
        align_items: FlexAlign::Inherit,
        align_content: FlexAlign::Inherit,
        justify_content: FlexAlign::Inherit,
        width: DimensionV::Auto,
        height: DimensionV::Auto,
        margin_left: "0"@,
        margin_right: "0"@,
        margin_top: "0"@,
        margin_bottom: "0"@,
        padding_left: "0"@,
        padding_right: "0"@,
        padding_top: "0"@,
        padding_bottom: "0"@,
        flex_grow: "0"@,
    }
}

/// One extracted style property, in the form the layout engine's input
/// takes: sizes as dimensions, spacing per side, and absolute positioning
/// as a fixed flag.
pub enum FlexProperty {
    Direction(FlexDirection),
    Wrap(FlexWrap),
    AlignItems(FlexAlign),
    AlignContent(FlexAlign),
    JustifyContent(FlexAlign),
    Height(Dimension),
    Width(Dimension),
    MarginLeft(Scalar),
    MarginRight(Scalar),
    MarginTop(Scalar),
    MarginBottom(Scalar),
    PaddingLeft(Scalar),
    PaddingRight(Scalar),
    PaddingTop(Scalar),
    PaddingBottom(Scalar),
    Grow(Scalar),
    Fixed(bool),
}

/// The mathematical value of a [`FlexProperty`].
pub ghost enum FlexPropertyV {
    Direction(FlexDirection),
    Wrap(FlexWrap),
    AlignItems(FlexAlign),
    AlignContent(FlexAlign),
    JustifyContent(FlexAlign),
    Height(DimensionV),
    Width(DimensionV),
    MarginLeft(Seq<char>),
    MarginRight(Seq<char>),
    MarginTop(Seq<char>),
    MarginBottom(Seq<char>),
    PaddingLeft(Seq<char>),
    PaddingRight(Seq<char>),
    PaddingTop(Seq<char>),
    PaddingBottom(Seq<char>),
    Grow(Seq<char>),
    Fixed(bool),
}

impl View for FlexProperty {
    type V = FlexPropertyV;

    open spec fn view(&self) -> FlexPropertyV {
        match self {
            FlexProperty::Direction(d) => FlexPropertyV::Direction(*d),
            FlexProperty::Wrap(w) => FlexPropertyV::Wrap(*w),
            FlexProperty::AlignItems(a) => FlexPropertyV::AlignItems(*a),
            FlexProperty::AlignContent(a) => FlexPropertyV::AlignContent(*a),
            FlexProperty::JustifyContent(a) => FlexPropertyV::JustifyContent(*a),
            FlexProperty::Height(d) => FlexPropertyV::Height(d@),
            FlexProperty::Width(d) => FlexPropertyV::Width(d@),
            FlexProperty::MarginLeft(n) => FlexPropertyV::MarginLeft(n@),
            FlexProperty::MarginRight(n) => FlexPropertyV::MarginRight(n@),
            FlexProperty::MarginTop(n) => FlexPropertyV::MarginTop(n@),
            FlexProperty::MarginBottom(n) => FlexPropertyV::MarginBottom(n@),
            FlexProperty::PaddingLeft(n) => FlexPropertyV::PaddingLeft(n@),
            FlexProperty::PaddingRight(n) => FlexPropertyV::PaddingRight(n@),
            FlexProperty::PaddingTop(n) => FlexPropertyV::PaddingTop(n@),
            FlexProperty::PaddingBottom(n) => FlexPropertyV::PaddingBottom(n@),
            FlexProperty::Grow(n) => FlexPropertyV::Grow(n@),
            FlexProperty::Fixed(b) => FlexPropertyV::Fixed(*b),
        }
    }
}

/// The views of a property list, in order.
pub open spec fn props_view(s: Seq<FlexProperty>) -> Seq<FlexPropertyV> {
    s.map_values(|p: FlexProperty| p@)
}

/// The complete property list a style record extracts to, in the fixed
/// order the layout bridge hands the layout engine: direction, wrap, the
/// three alignments, height, width, the four margins, the four paddings,
/// grow, and the fixed-position flag.
pub open spec fn layout_properties(l: LayoutV) -> Seq<FlexPropertyV> {
    seq![
        FlexPropertyV::Direction(l.direction),
        FlexPropertyV::Wrap(l.wrap),
        FlexPropertyV::AlignItems(l.align_items),
        FlexPropertyV::AlignContent(l.align_content),
        FlexPropertyV::JustifyContent(l.justify_content),
        FlexPropertyV::Height(l.height),
        FlexPropertyV::Width(l.width),
        FlexPropertyV::MarginLeft(l.margin_left),
        FlexPropertyV::MarginRight(l.margin_right),
        FlexPropertyV::MarginTop(l.margin_top),
        FlexPropertyV::MarginBottom(l.margin_bottom),
        FlexPropertyV::PaddingLeft(l.padding_left),
        FlexPropertyV::PaddingRight(l.padding_right),
        FlexPropertyV::PaddingTop(l.padding_top),
        FlexPropertyV::PaddingBottom(l.padding_bottom),
        FlexPropertyV::Grow(l.flex_grow),
        FlexPropertyV::Fixed(l.position == PositionType::Absolute),
    ]
}

impl Layout {
    /// The freshly constructed, all-defaults style record.
    pub fn new() -> (r: Layout)
        ensures
            r@ == default_layout(),
    {
        Layout {
            position: PositionType::Relative,
            direction: FlexDirection::Row,
            wrap: FlexWrap::NoWrap,
            align_items: FlexAlign::Inherit,
            align_content: FlexAlign::Inherit,
            justify_content: FlexAlign::Inherit,
            width: Dimension::Auto,
            height: Dimension::Auto,
            margin_left: Scalar::zero(),
            margin_right: Scalar::zero(),
            margin_top: Scalar::zero(),
            margin_bottom: Scalar::zero(),
            padding_left: Scalar::zero(),
            padding_right: Scalar::zero(),
            padding_top: Scalar::zero(),
            padding_bottom: Scalar::zero(),
            flex_grow: Scalar::zero(),
        }
    }

    /// The position kind.
    pub fn position_type(&self) -> (r: PositionType)
        ensures
            r == self@.position,
    {
        self.position
    }

    /// This style with the position kind overwritten.
    pub fn with_position_type(self, typ: PositionType) -> (r: Self)
        ensures
            r@ == (LayoutV { position: typ, ..self@ }),
    {
        Layout { position: typ, ..self }
    }

    /// The flex direction.
    pub fn flex_direction(&self) -> (r: FlexDirection)
        ensures
            r == self@.direction,
    {
        self.direction
    }

    /// This style with the flex direction overwritten.
    pub fn with_flex_direction(self, dir: FlexDirection) -> (r: Self)
        ensures
            r@ == (LayoutV { direction: dir, ..self@ }),
    {
        Layout { direction: dir, ..self }
    }

    /// The flex wrap mode.
    pub fn flex_wrap(&self) -> (r: FlexWrap)
        ensures
            r == self@.wrap,
    {
        self.wrap
    }

    /// This style with the flex wrap mode overwritten.
    pub fn with_flex_wrap(self, wrap: FlexWrap) -> (r: Self)
        ensures
            r@ == (LayoutV { wrap, ..self@ }),
    {
        Layout { wrap, ..self }
    }

    /// The alignment of items along the cross axis.
    pub fn align_items(&self) -> (r: FlexAlign)
        ensures
            r == self@.align_items,
    {
        self.align_items
    }

    /// This style with the item alignment overwritten.
    pub fn with_align_items(self, align: FlexAlign) -> (r: Self)
        ensures
            r@ == (LayoutV { align_items: align, ..self@ }),
    {
        Layout { align_items: align, ..self }
    }

    /// The alignment of wrapped content lines.
    pub fn align_content(&self) -> (r: FlexAlign)
        ensures
            r == self@.align_content,
    {
        self.align_content
    }

    /// This style with the content alignment overwritten.
    pub fn with_align_content(self, align: FlexAlign) -> (r: Self)
        ensures
            r@ == (LayoutV { align_content: align, ..self@ }),
    {
        Layout { align_content: align, ..self }
    }

    /// The distribution of children along the main axis.
    pub fn justify_content(&self) -> (r: FlexAlign)
        ensures
            r == self@.justify_content,
    {
        self.justify_content
    }

    /// This style with the main-axis distribution overwritten.
    pub fn with_justify_content(self, align: FlexAlign) -> (r: Self)
        ensures
            r@ == (LayoutV { justify_content: align, ..self@ }),
    {
        Layout { justify_content: align, ..self }
    }

    /// The width dimension.
    pub fn width(&self) -> (r: &Dimension)
        ensures
            r@ == self@.width,
    {
        &self.width
    }

    /// This style with the width overwritten.
    pub fn with_width(self, width: Dimension) -> (r: Self)
        ensures
            r@ == (LayoutV { width: width@, ..self@ }),
    {
        Layout { width, ..self }
    }

    /// The height dimension.
    pub fn height(&self) -> (r: &Dimension)
        ensures
            r@ == self@.height,
    {
        &self.height
    }

    /// This style with the height overwritten.
    pub fn with_height(self, height: Dimension) -> (r: Self)
        ensures
            r@ == (LayoutV { height: height@, ..self@ }),
    {
        Layout { height, ..self }
    }

    /// The left margin.
    pub fn margin_left(&self) -> (r: &Scalar)
        ensures
            r@ == self@.margin_left,
    {
        &self.margin_left
    }

    /// The right margin.
    pub fn margin_right(&self) -> (r: &Scalar)
        ensures
            r@ == self@.margin_right,
    {
        &self.margin_right
    }

    /// The top margin.
    pub fn margin_top(&self) -> (r: &Scalar)
        ensures
            r@ == self@.margin_top,
    {
        &self.margin_top
    }

    /// The bottom margin.
    pub fn margin_bottom(&self) -> (r: &Scalar)
        ensures
            r@ == self@.margin_bottom,
    {
        &self.margin_bottom
    }

    /// This style with one uniform margin on all four sides.
    pub fn with_margin(self, val: Scalar) -> (r: Self)
        ensures
            r@ == (LayoutV {
                margin_left: val@,
                margin_right: val@,
                margin_top: val@,
                margin_bottom: val@,
                ..self@
            }),
    {
        Layout {
            margin_left: val.clone(),
            margin_right: val.clone(),
            margin_top: val.clone(),
            margin_bottom: val,
            ..self
        }
    }

    /// The left padding.
    pub fn padding_left(&self) -> (r: &Scalar)
        ensures
            r@ == self@.padding_left,
    {
        &self.padding_left
    }

    /// The right padding.
    pub fn padding_right(&self) -> (r: &Scalar)
        ensures
            r@ == self@.padding_right,
    {
        &self.padding_right
    }

    /// The top padding.
    pub fn padding_top(&self) -> (r: &Scalar)
        ensures
            r@ == self@.padding_top,
    {
        &self.padding_top
    }

    /// The bottom padding.
    pub fn padding_bottom(&self) -> (r: &Scalar)
        ensures
            r@ == self@.padding_bottom,
    {
        &self.padding_bottom
    }

    /// This style with one uniform padding on all four sides.
    pub fn with_padding(self, val: Scalar) -> (r: Self)
        ensures
            r@ == (LayoutV {
                padding_left: val@,
                padding_right: val@,
                padding_top: val@,
                padding_bottom: val@,
                ..self@
            }),
    {
        Layout {
            padding_left: val.clone(),
            padding_right: val.clone(),
            padding_top: val.clone(),
            padding_bottom: val,
            ..self
        }
    }

    /// The flex grow factor.
    pub fn flex_grow(&self) -> (r: &Scalar)
        ensures
            r@ == self@.flex_grow,
    {
        &self.flex_grow
    }

    /// This style with the flex grow factor overwritten.
    pub fn with_flex_grow(self, val: Scalar) -> (r: Self)
        ensures
            r@ == (LayoutV { flex_grow: val@, ..self@ }),
    {
        Layout { flex_grow: val, ..self }
    }

    /// Extracts the complete property list of this style record, in the
    /// fixed order the layout bridge hands the layout engine.
    pub fn properties(&self) -> (r: Vec<FlexProperty>)
        ensures
            props_view(r@) == layout_properties(self@),
    {
        let r = vec![
            FlexProperty::Direction(self.direction),
            FlexProperty::Wrap(self.wrap),
            FlexProperty::AlignItems(self.align_items),
            FlexProperty::AlignContent(self.align_content),
            FlexProperty::JustifyContent(self.justify_content),
            FlexProperty::Height(self.height.clone()),
            FlexProperty::Width(self.width.clone()),
            FlexProperty::MarginLeft(self.margin_left.clone()),
            FlexProperty::MarginRight(self.margin_right.clone()),
            FlexProperty::MarginTop(self.margin_top.clone()),
            FlexProperty::MarginBottom(self.margin_bottom.clone()),
            FlexProperty::PaddingLeft(self.padding_left.clone()),
            FlexProperty::PaddingRight(self.padding_right.clone()),
            FlexProperty::PaddingTop(self.padding_top.clone()),
            FlexProperty::PaddingBottom(self.padding_bottom.clone()),
            FlexProperty::Grow(self.flex_grow.clone()),
            FlexProperty::Fixed(self.position == PositionType::Absolute),
        ];
        proof {
            assert(props_view(r@) =~= layout_properties(self@));
        }
        r
    }
}

} // verus!
