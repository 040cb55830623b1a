//! The shapes a rename can take: one value for both directions, or separate
//! values for writing (`serialize`) and reading (`deserialize`).

use vstd::prelude::*;

use crate::token::is_ident;
use crate::token::is_punct;
use crate::token::spec_string_literal;
use crate::token::AttrError;
use crate::token::Delimiter;
use crate::token::Token;

verus! {

/// A rename, of variant names (`T` a string) or of a whole type (`T` a
/// [`RenameRule`](crate::case::RenameRule)). A form with neither direction
/// cannot be built.
#[derive(Debug, Clone, Copy, PartialEq)]
pub enum RenameAttr<T> {
    /// `= "value"`
    Both(T),
    /// `(serialize = "value")`
    SerializeOnly(T),
    /// `(deserialize = "value")`
    DeserializeOnly(T),
    /// `(serialize = "value", deserialize = "value")`
    ExplicitBoth { serialize: T, deserialize: T },
}

impl<T: View> View for RenameAttr<T> {
    type V = RenameAttr<T::V>;

    open spec fn view(&self) -> RenameAttr<T::V> {
        match self {
            RenameAttr::Both(v) => RenameAttr::Both(v@),
            RenameAttr::SerializeOnly(v) => RenameAttr::SerializeOnly(v@),
            RenameAttr::DeserializeOnly(v) => RenameAttr::DeserializeOnly(v@),
            RenameAttr::ExplicitBoth { serialize, deserialize } => RenameAttr::ExplicitBoth {
                serialize: serialize@,
                deserialize: deserialize@,
            },
        }
    }
}

impl<T> RenameAttr<T> {
    /// The value used when writing, if the rename gives one.
    pub open spec fn spec_serialize(self) -> Option<T> {
        match self {
            RenameAttr::Both(v) => Some(v),
            RenameAttr::SerializeOnly(v) => Some(v),
            RenameAttr::DeserializeOnly(_) => None,
            RenameAttr::ExplicitBoth { serialize, .. } => Some(serialize),
        }
    }

    /// The value used when reading, if the rename gives one.
    pub open spec fn spec_deserialize(self) -> Option<T> {
        match self {
            RenameAttr::Both(v) => Some(v),
            RenameAttr::SerializeOnly(_) => None,
            RenameAttr::DeserializeOnly(v) => Some(v),
            RenameAttr::ExplicitBoth { deserialize, .. } => Some(deserialize),
        }
    }

    /// The value for writing: given by `Both`, `SerializeOnly` and
    /// `ExplicitBoth`.
    pub fn serialize_ref(&self) -> (r: Option<&T>)
        ensures
            match self.spec_serialize() {
                Some(v) => r matches Some(x) && *x == v,
                None => r is None,
            },
    {
        match self {
            RenameAttr::Both(serialize) => Some(serialize),
            RenameAttr::SerializeOnly(serialize) => Some(serialize),
            RenameAttr::ExplicitBoth { serialize, .. } => Some(serialize),
            RenameAttr::DeserializeOnly(_) => None,
        }
    }

    /// The value for reading: given by `Both`, `DeserializeOnly` and
    /// `ExplicitBoth`.
    pub fn deserialize_ref(&self) -> (r: Option<&T>)
        ensures
            match self.spec_deserialize() {
                Some(v) => r matches Some(x) && *x == v,
                None => r is None,
            },
    {
        match self {
            RenameAttr::Both(deserialize) => Some(deserialize),
            RenameAttr::DeserializeOnly(deserialize) => Some(deserialize),
            RenameAttr::ExplicitBoth { deserialize, .. } => Some(deserialize),
            RenameAttr::SerializeOnly(_) => None,
        }
    }
}

/// The entry `key = "value"` at `p` of `u`: whether the key is `serialize`
/// (else it is `deserialize`), and the value.
pub open spec fn spec_entry(u: Seq<Token>, p: int) -> Result<(bool, Seq<char>), AttrError> {
    if p >= u.len() || !(u[p] is Ident) {
        Err(AttrError::ExpectedIdent)
    } else if p + 1 >= u.len() || !is_punct(u[p + 1], '=') {
        Err(AttrError::ExpectedEq)
    } else if p + 2 >= u.len() || spec_string_literal(u[p + 2]) is None {
        Err(AttrError::ExpectedStringLiteral)
    } else if is_ident(u[p], "serialize"@) {
        Ok((true, spec_string_literal(u[p + 2])->Some_0))
    } else if is_ident(u[p], "deserialize"@) {
        Ok((false, spec_string_literal(u[p + 2])->Some_0))
    } else {
        Err(AttrError::ExpectedSerializeOrDeserialize)
    }
}

pub open spec fn one_direction<T>(serialize: bool, v: T) -> RenameAttr<T> {
    if serialize {
        RenameAttr::SerializeOnly(v)
    } else {
        RenameAttr::DeserializeOnly(v)
    }
}

pub open spec fn two_directions<T>(first_serialize: bool, first: T, second: T) -> RenameAttr<T> {
    if first_serialize {
        RenameAttr::ExplicitBoth { serialize: first, deserialize: second }
    } else {
        RenameAttr::ExplicitBoth { serialize: second, deserialize: first }
    }
}

pub open spec fn duplicate_error(serialize: bool) -> AttrError {
    if serialize {
        AttrError::DuplicateSerialize
    } else {
        AttrError::DuplicateDeserialize
    }
}

/// The rename written as `u`: `= "v"`, `(serialize = "v")`,
/// `(deserialize = "v")`, or both keys in either order.
pub open spec fn spec_parse_rename(u: Seq<Token>) -> Result<RenameAttr<Seq<char>>, AttrError> {
    if u.len() == 0 {
        Err(AttrError::ExpectedEqOrParen)
    } else if is_punct(u[0], '=') {
        if u.len() < 2 || spec_string_literal(u[1]) is None {
            Err(AttrError::ExpectedStringLiteral)
        } else if u.len() > 2 {
            Err(AttrError::UnexpectedToken)
        } else {
            Ok(RenameAttr::Both(spec_string_literal(u[1])->Some_0))
        }
    } else if u[0] == Token::Open(Delimiter::Parenthesis) {
        match spec_entry(u, 1) {
            Err(e) => Err(e),
            Ok((k1, v1)) => if 4 < u.len() && u[4] == Token::Close(Delimiter::Parenthesis) {
                if u.len() == 5 {
                    Ok(one_direction(k1, v1))
                } else {
                    Err(AttrError::UnexpectedToken)
                }
            } else if 4 < u.len() && is_punct(u[4], ',') {
                match spec_entry(u, 5) {
                    Err(e) => Err(e),
                    Ok((k2, v2)) => if k2 == k1 {
                        Err(duplicate_error(k2))
                    } else if 8 < u.len() && u[8] == Token::Close(Delimiter::Parenthesis) {
                        if u.len() == 9 {
                            Ok(two_directions(k1, v1, v2))
                        } else {
                            Err(AttrError::UnexpectedToken)
                        }
                    } else {
                        Err(AttrError::ExpectedSerializeOrDeserialize)
                    },
                }
            } else {
                Err(AttrError::ExpectedComma)
            },
        }
    } else {
        Err(AttrError::ExpectedEqOrParen)
    }
}

/// Parses the entry at `start + p`, reading no further than `end`.
fn parse_entry(t: &Vec<Token>, start: usize, end: usize, p: usize) -> (r: Result<
    (bool, String),
    AttrError,
>)
    requires
        start <= end <= t@.len(),
        p <= end - start,
    ensures
        match spec_entry(t@.subrange(start as int, end as int), p as int) {
            Ok((k, v)) => r matches Ok((rk, rv)) && rk == k && rv@ == v,
            Err(e) => r == Err::<(bool, String), AttrError>(e),
        },
{
    let ghost u = t@.subrange(start as int, end as int);
    let n = end - start;
    if p >= n || !matches!(t[start + p], Token::Ident(_)) {
        return Err(AttrError::ExpectedIdent);
    }
    if p + 1 >= n || !t[start + p + 1].is_punct('=') {
        return Err(AttrError::ExpectedEq);
    }
    if p + 2 >= n {
        return Err(AttrError::ExpectedStringLiteral);
    }
    let value = match t[start + p + 2].string_literal() {
        Some(v) => v,
        None => {
            return Err(AttrError::ExpectedStringLiteral);
        },
    };
    if t[start + p].is_ident("serialize") {
        Ok((true, value))
    } else if t[start + p].is_ident("deserialize") {
        Ok((false, value))
    } else {
        Err(AttrError::ExpectedSerializeOrDeserialize)
    }
}

impl RenameAttr<String> {
    /// Parses the rename written in `t[start..end]`.
    pub fn parse(t: &Vec<Token>, start: usize, end: usize) -> (r: Result<
        RenameAttr<String>,
        AttrError,
    >)
        requires
            start <= end <= t@.len(),
        ensures
            match spec_parse_rename(t@.subrange(start as int, end as int)) {
                Ok(a) => r matches Ok(x) && x@ == a,
                Err(e) => r == Err::<RenameAttr<String>, AttrError>(e),
            },
    {
        let ghost u = t@.subrange(start as int, end as int);
        let n = end - start;
        if n == 0 {
            return Err(AttrError::ExpectedEqOrParen);
        }
        if t[start].is_punct('=') {
            if n < 2 {
                return Err(AttrError::ExpectedStringLiteral);
            }
            let value = match t[start + 1].string_literal() {
                Some(v) => v,
                None => {
                    return Err(AttrError::ExpectedStringLiteral);
                },
            };
            if n > 2 {
                return Err(AttrError::UnexpectedToken);
            }
            return Ok(RenameAttr::Both(value));
        }
        if !t[start].is_open(Delimiter::Parenthesis) {
            return Err(AttrError::ExpectedEqOrParen);
        }
        let (k1, v1) = match parse_entry(t, start, end, 1) {
            Ok(entry) => entry,
            Err(e) => {
                return Err(e);
            },
        };
        if 4 < n && t[start + 4].is_close(Delimiter::Parenthesis) {
            if n == 5 {
                return Ok(
                    if k1 {
                        RenameAttr::SerializeOnly(v1)
                    } else {
                        RenameAttr::DeserializeOnly(v1)
                    },
                );
            }
            return Err(AttrError::UnexpectedToken);
        }
        if !(4 < n && t[start + 4].is_punct(',')) {
            return Err(AttrError::ExpectedComma);
        }
        let (k2, v2) = match parse_entry(t, start, end, 5) {
            Ok(entry) => entry,
            Err(e) => {
                return Err(e);
            },
        };
        if k2 == k1 {
            return Err(
                if k2 {
                    AttrError::DuplicateSerialize
                } else {
                    AttrError::DuplicateDeserialize
                },
            );
        }
        if !(8 < n && t[start + 8].is_close(Delimiter::Parenthesis)) {
            return Err(AttrError::ExpectedSerializeOrDeserialize);
        }
        if n != 9 {
            return Err(AttrError::UnexpectedToken);
        }
        if k1 {
            Ok(RenameAttr::ExplicitBoth { serialize: v1, deserialize: v2 })
        } else {
            Ok(RenameAttr::ExplicitBoth { serialize: v2, deserialize: v1 })
        }
    }
}

} // verus!
