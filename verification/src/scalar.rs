//! Exact decimal scalars.
//!
//! Style values that the markup surface writes as bare numbers (padding,
//! margin, flex-grow) and the mantissas of dimension literals are kept as
//! the exact text of the accepted literal, so that no precision is lost
//! before the layout engine reads them. The accepted grammar is an optional
//! leading `-`, then at least one decimal digit and at most one decimal
//! point, and nothing else; forms such as `1.` and `.5` are legal, as they
//! are for the platform's float parser.

use vstd::prelude::*;

use crate::errors::{LiteralError, LiteralErrorV};
use crate::text::{is_digit, is_digit_exec, is_num_char, is_num_char_exec};

verus! {

/// Whether at most one position of `s` holds a decimal point.
pub open spec fn at_most_one_dot(s: Seq<char>) -> bool {
    forall|i: int, j: int|
        0 <= i < j < s.len() ==> !(#[trigger] s[i] == '.' && #[trigger] s[j] == '.')
}

/// Whether some position of `s` holds a decimal digit.
pub open spec fn has_digit(s: Seq<char>) -> bool {
    exists|i: int| 0 <= i < s.len() && is_digit(#[trigger] s[i])
}

/// Whether `s` is an unsigned decimal literal: non-empty, nothing but
/// digits and decimal points, at most one point, at least one digit.
pub open spec fn is_unsigned_number(s: Seq<char>) -> bool {
    &&& s.len() > 0
    &&& forall|i: int| 0 <= i < s.len() ==> is_num_char(#[trigger] s[i])
    &&& at_most_one_dot(s)
    &&& has_digit(s)
}

/// Whether `s` is a decimal literal with an optional leading sign.
pub open spec fn is_number(s: Seq<char>) -> bool {
    if s.len() > 0 && s[0] == '-' {
        is_unsigned_number(s.skip(1))
    } else {
        is_unsigned_number(s)
    }
}

/// An exact decimal scalar: the text of an accepted numeric literal,
/// kept verbatim.
pub struct Scalar {
    pub text: String,
}

impl View for Scalar {
    type V = Seq<char>;

    open spec fn view(&self) -> Seq<char> {
        self.text@
    }
}

impl Clone for Scalar {
    fn clone(&self) -> (r: Self)
        ensures
            r@ == self@,
    {
        Scalar { text: self.text.clone() }
    }
}

impl Scalar {
    /// Whether this scalar holds an accepted numeric literal. Every scalar
    /// built by [`parse_scalar`] or [`Scalar::zero`] satisfies this.
    pub open spec fn wf(&self) -> bool {
        is_number(self@)
    }

    /// The all-defaults scalar: zero.
    pub fn zero() -> (r: Scalar)
        ensures
            r@ == "0"@,
            r.wf(),
    {
        proof {
            reveal_strlit("0");
        }
        let r = Scalar { text: "0".to_owned() };
        proof {
            assert(is_digit(r@[0]));
            assert(is_unsigned_number(r@));
        }
        r
    }
}

/// Checks `s` against the unsigned literal grammar starting at `start`,
/// which is 0 for an unsigned literal and 1 past a leading sign.
pub(crate) fn check_digits(s: &str, start: usize) -> (r: bool)
    requires
        start <= s@.len(),
    ensures
        r == is_unsigned_number(s@.skip(start as int)),
{
    let ghost t = s@.skip(start as int);
    let len = s.unicode_len();
    if start == len {
        return false;
    }
    let mut i: usize = start;
    let mut seen_dot: bool = false;
    let mut seen_digit: bool = false;
    while i < len
        invariant
            start <= i <= len,
            len == s@.len(),
            start < len,
            t == s@.skip(start as int),
            forall|k: int| 0 <= k < i - start ==> is_num_char(#[trigger] t[k]),
            seen_dot == exists|k: int| 0 <= k < i - start && #[trigger] t[k] == '.',
            seen_digit == exists|k: int| 0 <= k < i - start && is_digit(#[trigger] t[k]),
            forall|p: int, q: int|
                0 <= p < q < i - start ==> !(#[trigger] t[p] == '.' && #[trigger] t[q] == '.'),
        decreases len - i,
    {
        let c = s.get_char(i);
        proof {
            assert(t[i - start] == s@[i as int]);
        }
        if !is_num_char_exec(c) {
            assert(!is_unsigned_number(t)) by {
                assert(!is_num_char(t[i - start]));
            }
            return false;
        }
        if c == '.' {
            if seen_dot {
                assert(!at_most_one_dot(t)) by {
                    let p = choose|k: int| 0 <= k < i - start && #[trigger] t[k] == '.';
                    assert(t[p] == '.' && t[i - start] == '.');
                }
                return false;
            }
            seen_dot = true;
        } else {
            seen_digit = true;
        }
        i += 1;
    }
    if !seen_digit {
        assert(!has_digit(t));
        return false;
    }
    assert(is_unsigned_number(t)) by {
        assert(t.len() == len - start);
    }
    true
}

/// Parses a bare numeric attribute value, keeping its exact text.
///
/// Returns the scalar exactly when the text matches the accepted grammar,
/// and fails with `MalformedNumber` otherwise.
pub fn parse_scalar(s: &str) -> (r: Result<Scalar, LiteralError>)
    ensures
        match r {
            Ok(n) => is_number(s@) && n@ == s@ && n.wf(),
            Err(e) => !is_number(s@) && e@ == LiteralErrorV::MalformedNumber,
        },
{
    let len = s.unicode_len();
    let ok = if len > 0 && s.get_char(0) == '-' {
        check_digits(s, 1)
    } else {
        check_digits(s, 0)
    };
    if ok {
        proof {
            assert(s@.skip(0) =~= s@);
        }
        Ok(Scalar { text: s.to_owned() })
    } else {
        proof {
            assert(s@.skip(0) =~= s@);
        }
        Err(LiteralError::MalformedNumber)
    }
}

} // verus!
