//! The dimension literal parser.
//!
//! A dimension is `auto`, a point size such as `320pt`, or a percentage
//! such as `100%`. Apart from the exact word `auto`, a literal is read by
//! removing space characters, scanning for the first character that is
//! neither a decimal digit nor a decimal point, and splitting there into a
//! numeric mantissa and a unit suffix. A leading sign is not part of the
//! mantissa grammar, so a signed literal fails with `InvalidLiteral`.

use vstd::prelude::*;

use crate::errors::{LiteralError, LiteralErrorV};
use crate::scalar::{check_digits, is_unsigned_number, Scalar};
use crate::text::{is_num_char, is_num_char_exec, push_char, str_eq};

verus! {

/// The unit tag of a dimension, as the host's structured form encodes it.
#[derive(Clone, Copy, Debug, PartialEq, Eq, Structural)]
pub enum DimensionUnit {
    Auto,
    Point,
    Percent,
}

impl DimensionUnit {
    /// The host's integer encoding of this unit.
    pub fn tag(self) -> (r: u64)
        ensures
            r == (match self {
                DimensionUnit::Auto => 0u64,
                DimensionUnit::Point => 1u64,
                DimensionUnit::Percent => 2u64,
            }),
    {
        match self {
            DimensionUnit::Auto => 0,
            DimensionUnit::Point => 1,
            DimensionUnit::Percent => 2,
        }
    }

    /// Decodes the host's integer encoding of a dimension unit; an
    /// unknown tag is no unit.
    pub fn from_tag(tag: u64) -> (r: Option<DimensionUnit>)
        ensures
            r == (if tag == 0 {
                Some(DimensionUnit::Auto)
            } else if tag == 1 {
                Some(DimensionUnit::Point)
            } else if tag == 2 {
                Some(DimensionUnit::Percent)
            } else {
                None::<DimensionUnit>
            }),
    {
        match tag {
            0 => Some(DimensionUnit::Auto),
            1 => Some(DimensionUnit::Point),
            2 => Some(DimensionUnit::Percent),
            _ => None,
        }
    }
}

/// A sized style value: automatic, an absolute point size, or a
/// percentage of the parent's size.
pub enum Dimension {
    Auto,
    Point(Scalar),
    Percent(Scalar),
}

/// The mathematical value of a [`Dimension`]: the unit together with the
/// exact mantissa text.
pub ghost enum DimensionV {
    Auto,
    Point(Seq<char>),
    Percent(Seq<char>),
}

impl View for Dimension {
    type V = DimensionV;

    open spec fn view(&self) -> DimensionV {
        match self {
            Dimension::Auto => DimensionV::Auto,
            Dimension::Point(n) => DimensionV::Point(n@),
            Dimension::Percent(n) => DimensionV::Percent(n@),
        }
    }
}

impl Clone for Dimension {
    fn clone(&self) -> (r: Self)
        ensures
            r@ == self@,
    {
        match self {
            Dimension::Auto => Dimension::Auto,
            Dimension::Point(n) => Dimension::Point(n.clone()),
            Dimension::Percent(n) => Dimension::Percent(n.clone()),
        }
    }
}

impl DimensionV {
    /// Whether the mantissa, if any, holds an accepted unsigned literal.
    /// Every dimension built by [`parse_dimension`] satisfies this.
    pub open spec fn wf(&self) -> bool {
        match self {
            DimensionV::Auto => true,
            DimensionV::Point(n) => is_unsigned_number(*n),
            DimensionV::Percent(n) => is_unsigned_number(*n),
        }
    }
}

impl Dimension {
    /// Whether the mantissa, if any, holds an accepted unsigned literal.
    pub open spec fn wf(&self) -> bool {
        self@.wf()
    }

    /// The structured form of a dimension: its mantissa, absent for
    /// `Auto`, and its unit tag.
    pub fn parts(&self) -> (r: (Option<Scalar>, DimensionUnit))
        ensures
            match self {
                Dimension::Auto => r.0 is None && r.1 == DimensionUnit::Auto,
                Dimension::Point(n) => r.0 matches Some(m) && m@ == n@ && r.1
                    == DimensionUnit::Point,
                Dimension::Percent(n) => r.0 matches Some(m) && m@ == n@ && r.1
                    == DimensionUnit::Percent,
            },
    {
        match self {
            Dimension::Auto => (None, DimensionUnit::Auto),
            Dimension::Point(n) => (Some(n.clone()), DimensionUnit::Point),
            Dimension::Percent(n) => (Some(n.clone()), DimensionUnit::Percent),
        }
    }

    /// Rebuilds a dimension from the host's structured form, where an
    /// absent value means `Auto` whatever the unit tag says.
    pub fn from_parts(value: Option<Scalar>, unit: DimensionUnit) -> (r: Dimension)
        ensures
            match value {
                None => r@ == DimensionV::Auto,
                Some(n) => match unit {
                    DimensionUnit::Auto => r@ == DimensionV::Auto,
                    DimensionUnit::Point => r@ == DimensionV::Point(n@),
                    DimensionUnit::Percent => r@ == DimensionV::Percent(n@),
                },
            },
    {
        match value {
            None => Dimension::Auto,
            Some(n) => match unit {
                DimensionUnit::Auto => Dimension::Auto,
                DimensionUnit::Point => Dimension::Point(n),
                DimensionUnit::Percent => Dimension::Percent(n),
            },
        }
    }
}

/// `s` with every space character removed.
pub open spec fn strip_spaces(s: Seq<char>) -> Seq<char>
    decreases s.len(),
{
    if s.len() == 0 {
        Seq::empty()
    } else {
        let rest = strip_spaces(s.drop_last());
        if s.last() == ' ' {
            rest
        } else {
            rest.push(s.last())
        }
    }
}

/// The index of the first character of `s` that is neither a digit nor a
/// decimal point, or `s.len()` when every character is one.
pub open spec fn first_boundary(s: Seq<char>) -> int
    decreases s.len(),
{
    if s.len() == 0 {
        0
    } else if !is_num_char(s[0]) {
        0
    } else {
        1 + first_boundary(s.skip(1))
    }
}

/// The defining properties of [`first_boundary`]: it is the least index
/// holding a non-mantissa character.
pub proof fn lemma_first_boundary(s: Seq<char>)
    ensures
        0 <= first_boundary(s) <= s.len(),
        forall|k: int| 0 <= k < first_boundary(s) ==> is_num_char(#[trigger] s[k]),
        first_boundary(s) < s.len() ==> !is_num_char(s[first_boundary(s)]),
    decreases s.len(),
{
    if s.len() > 0 && is_num_char(s[0]) {
        lemma_first_boundary(s.skip(1));
        assert forall|k: int| 0 <= k < first_boundary(s) implies is_num_char(#[trigger] s[k]) by {
            if k > 0 {
                assert(s.skip(1)[k - 1] == s[k]);
            }
        }
        if first_boundary(s) < s.len() {
            assert(s.skip(1)[first_boundary(s) - 1] == s[first_boundary(s)]);
        }
    }
}

/// What [`parse_dimension`] returns on the character sequence `s`.
pub open spec fn spec_parse_dimension(s: Seq<char>) -> Result<DimensionV, LiteralErrorV> {
    if s == "auto"@ {
        Ok(DimensionV::Auto)
    } else {
        let t = strip_spaces(s);
        let b = first_boundary(t);
        if b == t.len() {
            Err(LiteralErrorV::MissingUnit)
        } else {
            let mantissa = t.take(b);
            let suffix = t.skip(b);
            if suffix == "pt"@ {
                if is_unsigned_number(mantissa) {
                    Ok(DimensionV::Point(mantissa))
                } else {
                    Err(LiteralErrorV::MalformedNumber)
                }
            } else if suffix == "%"@ {
                if is_unsigned_number(mantissa) {
                    Ok(DimensionV::Percent(mantissa))
                } else {
                    Err(LiteralErrorV::MalformedNumber)
                }
            } else {
                Err(LiteralErrorV::InvalidLiteral)
            }
        }
    }
}

/// Removes every space character of `s`.
fn strip_spaces_exec(s: &str) -> (t: String)
    ensures
        t@ == strip_spaces(s@),
{
    let len = s.unicode_len();
    let mut t = String::new();
    let mut i: usize = 0;
    while i < len
        invariant
            i <= len,
            len == s@.len(),
            t@ == strip_spaces(s@.take(i as int)),
        decreases len - i,
    {
        let c = s.get_char(i);
        proof {
            assert(s@.take(i + 1).drop_last() =~= s@.take(i as int));
            assert(s@.take(i + 1).last() == s@[i as int]);
        }
        if c != ' ' {
            push_char(&mut t, c);
        }
        i += 1;
    }
    proof {
        assert(s@.take(len as int) =~= s@);
    }
    t
}

/// Parses a dimension literal.
///
/// `auto` is automatic sizing; otherwise the text, with spaces removed,
/// is split at the first character that is neither a digit nor a decimal
/// point. No such character fails with `MissingUnit`; a suffix other than
/// `pt` or `%` fails with `InvalidLiteral`; a mantissa that is not an
/// unsigned decimal literal fails with `MalformedNumber`.
pub fn parse_dimension(s: &str) -> (r: Result<Dimension, LiteralError>)
    ensures
        match r {
            Ok(d) => spec_parse_dimension(s@) == Ok::<DimensionV, LiteralErrorV>(d@) && d.wf(),
            Err(e) => spec_parse_dimension(s@) == Err::<DimensionV, LiteralErrorV>(e@),
        },
{
    if str_eq(s, "auto") {
        return Ok(Dimension::Auto);
    }
    let t = strip_spaces_exec(s);
    let ts = t.as_str();
    let len = ts.unicode_len();
    let mut b: usize = 0;
    while b < len && is_num_char_exec(ts.get_char(b))
        invariant
            b <= len,
            len == ts@.len(),
            ts@ == strip_spaces(s@),
            forall|k: int| 0 <= k < b ==> is_num_char(#[trigger] ts@[k]),
        decreases len - b,
    {
        b += 1;
    }
    proof {
        lemma_first_boundary(ts@);
        assert(first_boundary(ts@) == b) by {
            if first_boundary(ts@) < b {
                assert(is_num_char(ts@[first_boundary(ts@)]));
            }
            if b < first_boundary(ts@) {
                assert(is_num_char(ts@[b as int]));
            }
        }
    }
    if b == len {
        return Err(LiteralError::MissingUnit);
    }
    let mantissa = ts.substring_char(0, b);
    let suffix = ts.substring_char(b, len);
    proof {
        assert(mantissa@ =~= ts@.take(b as int));
        assert(suffix@ =~= ts@.skip(b as int));
    }
    if str_eq(suffix, "pt") {
        if check_digits(mantissa, 0) {
            proof {
                assert(mantissa@.skip(0) =~= mantissa@);
            }
            Ok(Dimension::Point(Scalar { text: mantissa.to_owned() }))
        } else {
            proof {
                assert(mantissa@.skip(0) =~= mantissa@);
            }
            Err(LiteralError::MalformedNumber)
        }
    } else if str_eq(suffix, "%") {
        if check_digits(mantissa, 0) {
            proof {
                assert(mantissa@.skip(0) =~= mantissa@);
            }
            Ok(Dimension::Percent(Scalar { text: mantissa.to_owned() }))
        } else {
            proof {
                assert(mantissa@.skip(0) =~= mantissa@);
            }
            Err(LiteralError::MalformedNumber)
        }
    } else {
        Err(LiteralError::InvalidLiteral)
    }
}

} // verus!
