//! Typed attribute reading.
//!
//! A tag's attribute set is a list of name/value pairs whose meaning is a
//! finite map: the first pair under a name wins, and a pair standing
//! without a value counts as absent. Absence of an attribute is a normal
//! outcome; a present but malformed value is an error and is never
//! silently defaulted.

use vstd::prelude::*;

use crate::color::{parse_color, spec_parse_color, Color};
use crate::errors::{LiteralError, LiteralErrorV};
use crate::scalar::{is_number, parse_scalar, Scalar};
use crate::text::{is_digit, is_digit_exec, str_eq};

verus! {

/// One attribute of a tag: a name and an optional value.
pub struct Attr {
    pub name: String,
    pub value: Option<String>,
}

/// The mathematical value of an [`Attr`].
pub ghost struct AttrV {
    pub name: Seq<char>,
    pub value: Option<Seq<char>>,
}

impl View for Attr {
    type V = AttrV;

    open spec fn view(&self) -> AttrV {
        AttrV {
            name: self.name@,
            value: match self.value {
                Some(ref v) => Some(v@),
                None => None,
            },
        }
    }
}

/// What an attribute set means: each stored name mapped to its stored
/// value, which may itself be absent for an attribute written without
/// one.
pub type AttrsV = Map<Seq<char>, Option<Seq<char>>>;

/// An attribute set, kept as the tokenizer's pair list.
pub struct Attrs {
    pub items: Vec<Attr>,
}

/// The map a pair list means: under each name, the value of the first
/// pair that carries it.
pub open spec fn map_of(items: Seq<Attr>) -> AttrsV
    decreases items,
{
    if items.len() == 0 {
        Map::empty()
    } else {
        let m = map_of(items.drop_last());
        if m.contains_key(items.last()@.name) {
            m
        } else {
            m.insert(items.last()@.name, items.last()@.value)
        }
    }
}

impl View for Attrs {
    type V = AttrsV;

    open spec fn view(&self) -> AttrsV {
        map_of(self.items@)
    }
}

/// A name no pair of the list carries is not in its map.
proof fn lemma_map_of_absent(items: Seq<Attr>, name: Seq<char>)
    requires
        forall|j: int| 0 <= j < items.len() ==> (#[trigger] items[j])@.name != name,
    ensures
        !map_of(items).contains_key(name),
    decreases items,
{
    if items.len() > 0 {
        lemma_map_of_absent(items.drop_last(), name);
    }
}

/// The map holds, under each carried name, the value of the first pair
/// that carries it.
proof fn lemma_map_of_first(items: Seq<Attr>, i: int, name: Seq<char>)
    requires
        0 <= i < items.len(),
        items[i]@.name == name,
        forall|j: int| 0 <= j < i ==> (#[trigger] items[j])@.name != name,
    ensures
        map_of(items).contains_key(name),
        map_of(items)[name] == items[i]@.value,
    decreases items,
{
    if i == items.len() - 1 {
        lemma_map_of_absent(items.drop_last(), name);
    } else {
        lemma_map_of_first(items.drop_last(), i, name);
    }
}

/// The usable value of the attribute named `name`: absent when no such
/// attribute exists or when it stands without a value.
pub open spec fn attr_value(attrs: AttrsV, name: Seq<char>) -> Option<Seq<char>> {
    if attrs.contains_key(name) {
        match attrs[name] {
            None => None,
            Some(v) => Some(v),
        }
    } else {
        None
    }
}

/// What reading the attribute `name` as a color yields: absent attributes
/// are no error, malformed literals are.
pub open spec fn attr_color(attrs: AttrsV, name: Seq<char>) -> Result<
    Option<Color>,
    LiteralErrorV,
> {
    match attr_value(attrs, name) {
        None => Ok(None),
        Some(v) => match spec_parse_color(v) {
            Ok(c) => Ok(Some(c)),
            Err(e) => Err(e),
        },
    }
}

/// What reading the attribute `name` as a bare number yields: the exact
/// text of the accepted literal.
pub open spec fn attr_scalar(attrs: AttrsV, name: Seq<char>) -> Result<
    Option<Seq<char>>,
    LiteralErrorV,
> {
    match attr_value(attrs, name) {
        None => Ok(None),
        Some(v) => if is_number(v) {
            Ok(Some(v))
        } else {
            Err(LiteralErrorV::MalformedNumber)
        },
    }
}

/// What reading the attribute `name` as a boolean yields.
pub open spec fn attr_bool(attrs: AttrsV, name: Seq<char>) -> Result<
    Option<bool>,
    LiteralErrorV,
> {
    match attr_value(attrs, name) {
        None => Ok(None),
        Some(v) => match spec_parse_bool(v) {
            Ok(b) => Ok(Some(b)),
            Err(e) => Err(e),
        },
    }
}

/// What reading the attribute `name` as a 32-bit integer yields.
pub open spec fn attr_i32(attrs: AttrsV, name: Seq<char>) -> Result<
    Option<i32>,
    LiteralErrorV,
> {
    match attr_value(attrs, name) {
        None => Ok(None),
        Some(v) => match spec_parse_i32(v) {
            Ok(n) => Ok(Some(n)),
            Err(e) => Err(e),
        },
    }
}

impl Attrs {
    /// An empty attribute set.
    pub fn new() -> (r: Attrs)
        ensures
            r@ == Map::<Seq<char>, Option<Seq<char>>>::empty(),
    {
        Attrs { items: Vec::new() }
    }

    /// Appends an attribute that carries a value; an attribute already
    /// stored under the name keeps its place.
    pub fn push(&mut self, name: String, value: String)
        ensures
            final(self)@ == (if old(self)@.contains_key(name@) {
                old(self)@
            } else {
                old(self)@.insert(name@, Some(value@))
            }),
    {
        let ghost before = self.items@;
        self.items.push(Attr { name, value: Some(value) });
        proof {
            assert(self.items@.drop_last() =~= before);
        }
    }

    /// Appends an attribute that stands without a value; an attribute
    /// already stored under the name keeps its place.
    pub fn push_bare(&mut self, name: String)
        ensures
            final(self)@ == (if old(self)@.contains_key(name@) {
                old(self)@
            } else {
                old(self)@.insert(name@, None)
            }),
    {
        let ghost before = self.items@;
        self.items.push(Attr { name, value: None });
        proof {
            assert(self.items@.drop_last() =~= before);
        }
    }

    /// The usable value of the attribute named `name`, borrowed: the
    /// first pair that carries the name, where a valueless pair counts as
    /// absent.
    pub fn get<'a>(&'a self, name: &str) -> (r: Option<&'a String>)
        ensures
            match attr_value(self@, name@) {
                None => r is None,
                Some(v) => r matches Some(x) && x@ == v,
            },
    {
        let n = self.items.len();
        let mut i: usize = 0;
        while i < n
            invariant
                i <= n,
                n == self.items.len(),
                forall|j: int| 0 <= j < i ==> (#[trigger] self.items@[j])@.name != name@,
            decreases n - i,
        {
            if str_eq(self.items[i].name.as_str(), name) {
                proof {
                    lemma_map_of_first(self.items@, i as int, name@);
                }
                return match &self.items[i].value {
                    Some(v) => Some(v),
                    None => None,
                };
            }
            i += 1;
        }
        proof {
            lemma_map_of_absent(self.items@, name@);
        }
        None
    }

    /// Reads a string attribute: absent is `None`, never an error.
    pub fn read_str<'a>(&'a self, name: &str) -> (r: Option<&'a String>)
        ensures
            match attr_value(self@, name@) {
                None => r is None,
                Some(v) => r matches Some(x) && x@ == v,
            },
    {
        self.get(name)
    }

    /// Reads a color attribute. Absence is `Ok(None)`; a present but
    /// malformed literal is an error.
    pub fn read_color(&self, name: &str) -> (r: Result<Option<Color>, LiteralError>)
        ensures
            match r {
                Ok(c) => attr_color(self@, name@) == Ok::<Option<Color>, LiteralErrorV>(c),
                Err(e) => attr_color(self@, name@) == Err::<Option<Color>, LiteralErrorV>(e@),
            },
    {
        match self.get(name) {
            None => Ok(None),
            Some(v) => match parse_color(v.as_str()) {
                Ok(c) => Ok(Some(c)),
                Err(e) => Err(e),
            },
        }
    }

    /// Reads a bare numeric attribute, keeping its exact text. Absence is
    /// `Ok(None)`; a present but malformed number is an error.
    pub fn read_scalar(&self, name: &str) -> (r: Result<Option<Scalar>, LiteralError>)
        ensures
            match r {
                Ok(c) => attr_scalar(self@, name@) == Ok::<Option<Seq<char>>, LiteralErrorV>(
                    match c {
                        Some(ref n) => Some(n@),
                        None => None,
                    },
                ) && (c matches Some(n) ==> n.wf()),
                Err(e) => attr_scalar(self@, name@) == Err::<Option<Seq<char>>, LiteralErrorV>(e@),
            },
    {
        match self.get(name) {
            None => Ok(None),
            Some(v) => match parse_scalar(v.as_str()) {
                Ok(n) => Ok(Some(n)),
                Err(e) => Err(e),
            },
        }
    }

    /// Reads a boolean attribute, written exactly `true` or `false`.
    /// Absence is `Ok(None)`; anything else is an error.
    pub fn read_bool(&self, name: &str) -> (r: Result<Option<bool>, LiteralError>)
        ensures
            match r {
                Ok(b) => attr_bool(self@, name@) == Ok::<Option<bool>, LiteralErrorV>(b),
                Err(e) => attr_bool(self@, name@) == Err::<Option<bool>, LiteralErrorV>(e@),
            },
    {
        match self.get(name) {
            None => Ok(None),
            Some(v) => {
                if str_eq(v.as_str(), "true") {
                    Ok(Some(true))
                } else if str_eq(v.as_str(), "false") {
                    Ok(Some(false))
                } else {
                    Err(LiteralError::MalformedBoolean)
                }
            },
        }
    }

    /// Reads a 32-bit integer attribute. Absence is `Ok(None)`; a present
    /// but malformed or out-of-range number is an error.
    pub fn read_i32(&self, name: &str) -> (r: Result<Option<i32>, LiteralError>)
        ensures
            match r {
                Ok(c) => attr_i32(self@, name@) == Ok::<Option<i32>, LiteralErrorV>(c),
                Err(e) => attr_i32(self@, name@) == Err::<Option<i32>, LiteralErrorV>(e@),
            },
    {
        match self.get(name) {
            None => Ok(None),
            Some(v) => match parse_i32(v.as_str()) {
                Ok(n) => Ok(Some(n)),
                Err(e) => Err(e),
            },
        }
    }
}

/// What a boolean attribute value parses to.
pub open spec fn spec_parse_bool(s: Seq<char>) -> Result<bool, LiteralErrorV> {
    if s == "true"@ {
        Ok(true)
    } else if s == "false"@ {
        Ok(false)
    } else {
        Err(LiteralErrorV::MalformedBoolean)
    }
}

/// Whether `s` is a decimal integer literal with an optional leading sign.
pub open spec fn is_int_literal(s: Seq<char>) -> bool {
    let body = int_body(s);
    body.len() > 0 && forall|i: int| 0 <= i < body.len() ==> is_digit(#[trigger] body[i])
}

/// The digits of an integer literal, past any leading sign.
pub open spec fn int_body(s: Seq<char>) -> Seq<char> {
    if s.len() > 0 && (s[0] == '+' || s[0] == '-') {
        s.skip(1)
    } else {
        s
    }
}

/// The value of a digit string, most significant digit first.
pub open spec fn digits_val(s: Seq<char>) -> int
    decreases s.len(),
{
    if s.len() == 0 {
        0
    } else {
        digits_val(s.drop_last()) * 10 + (s.last() as int - '0' as int)
    }
}

/// The signed value of an integer literal.
pub open spec fn int_val(s: Seq<char>) -> int {
    if s.len() > 0 && s[0] == '-' {
        -digits_val(int_body(s))
    } else {
        digits_val(int_body(s))
    }
}

/// What a 32-bit integer attribute value parses to: the literal's value
/// when it is well-formed and representable, `MalformedNumber` otherwise.
pub open spec fn spec_parse_i32(s: Seq<char>) -> Result<i32, LiteralErrorV> {
    if is_int_literal(s) && i32::MIN <= int_val(s) <= i32::MAX {
        Ok(int_val(s) as i32)
    } else {
        Err(LiteralErrorV::MalformedNumber)
    }
}

/// The value of a digit string is never negative and never shrinks as
/// digits are appended.
proof fn lemma_digits_val_bounds(s: Seq<char>, i: int, j: int)
    requires
        forall|k: int| 0 <= k < s.len() ==> is_digit(#[trigger] s[k]),
        0 <= i <= j <= s.len(),
    ensures
        0 <= digits_val(s.take(i)) <= digits_val(s.take(j)),
    decreases j - i,
{
    if i == j {
        assert(digits_val(s.take(i)) >= 0) by {
            lemma_digits_val_nonneg(s.take(i));
        }
    } else {
        lemma_digits_val_bounds(s, i, j - 1);
        assert(s.take(j).drop_last() =~= s.take(j - 1));
        assert(s.take(j).last() == s[j - 1]);
    }
}

/// The value of a digit string is never negative.
proof fn lemma_digits_val_nonneg(s: Seq<char>)
    requires
        forall|k: int| 0 <= k < s.len() ==> is_digit(#[trigger] s[k]),
    ensures
        digits_val(s) >= 0,
    decreases s.len(),
{
    if s.len() > 0 {
        assert(s.drop_last() =~= s.take(s.len() - 1));
        lemma_digits_val_nonneg(s.drop_last());
    }
}

/// Parses a 32-bit integer literal: an optional sign, then decimal digits,
/// rejected when empty, non-numeric, or out of the representable range.
pub fn parse_i32(s: &str) -> (r: Result<i32, LiteralError>)
    ensures
        match r {
            Ok(n) => spec_parse_i32(s@) == Ok::<i32, LiteralErrorV>(n),
            Err(e) => spec_parse_i32(s@) == Err::<i32, LiteralErrorV>(e@),
        },
{
    let len = s.unicode_len();
    let mut start: usize = 0;
    let mut neg: bool = false;
    if len > 0 {
        let c0 = s.get_char(0);
        if c0 == '-' {
            neg = true;
            start = 1;
        } else if c0 == '+' {
            start = 1;
        }
    }
    let ghost body = int_body(s@);
    if start == len {
        // no digits at all
        assert(!is_int_literal(s@));
        return Err(LiteralError::MalformedNumber);
    }
    let mut acc: i64 = 0;
    let mut i: usize = start;
    while i < len
        invariant
            start <= i <= len,
            start < len,
            len == s@.len(),
            (start == 1) == (s@.len() > 0 && (s@[0] == '+' || s@[0] == '-')),
            neg == (s@.len() > 0 && s@[0] == '-'),
            body == int_body(s@),
            body.len() == len - start,
            forall|k: int| 0 <= k < i - start ==> is_digit(#[trigger] body[k]),
            acc == digits_val(body.take(i - start)),
            0 <= acc <= 0x8000_0000,
        decreases len - i,
    {
        let c = s.get_char(i);
        proof {
            if start == 1 {
                assert(body[i - start] == s@.skip(1)[i - 1]);
                assert(s@.skip(1)[i - 1] == s@[i as int]);
            }
            assert(body[i - start] == s@[i as int]);
        }
        if !is_digit_exec(c) {
            assert(!is_int_literal(s@)) by {
                assert(!is_digit(body[i - start]));
            }
            return Err(LiteralError::MalformedNumber);
        }
        let d = c as u32 - '0' as u32;
        proof {
            assert(body.take(i - start + 1).drop_last() =~= body.take(i - start));
            assert(body.take(i - start + 1).last() == body[i - start]);
        }
        if acc > 214748364 || (acc == 214748364 && d > 8) {
            // the value can only grow from here on: it cannot fit
            assert(digits_val(body.take(i - start + 1)) > 0x8000_0000) by {
                assert(acc * 10 + d > 0x8000_0000) by (nonlinear_arith)
                    requires
                        acc == digits_val(body.take(i - start)),
                        0 <= d < 10,
                        acc > 214748364 || (acc == 214748364 && d > 8),
                        acc >= 0,
                ;
            }
            assert(spec_parse_i32(s@) == Err::<i32, LiteralErrorV>(
                LiteralErrorV::MalformedNumber,
            )) by {
                if is_int_literal(s@) {
                    lemma_digits_val_bounds(body, i - start + 1, body.len() as int);
                    assert(body.take(body.len() as int) =~= body);
                    assert(int_val(s@) > 0x8000_0000 || int_val(s@) < -0x8000_0000);
                }
            }
            return Err(LiteralError::MalformedNumber);
        }
        acc = acc * 10 + (d as i64);
        i += 1;
    }
    proof {
        assert(body.take(body.len() as int) =~= body);
        assert(is_int_literal(s@));
    }
    if neg {
        proof {
            assert(int_val(s@) == -digits_val(body));
        }
        Ok((-acc) as i32)
    } else {
        if acc > 0x7fff_ffff {
            assert(int_val(s@) > i32::MAX);
            return Err(LiteralError::MalformedNumber);
        }
        Ok(acc as i32)
    }
}

} // verus!
