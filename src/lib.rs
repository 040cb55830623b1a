//! Conversion of enum variant names to and from their textual forms.
//!
//! The library resolves, for each variant of a unit-only enum, the name it is
//! written as (`serialize`) and the name it is read from (`deserialize`), from
//! the enum's own `#[str ...]` attributes and from the rename keys of its
//! `#[serde(...)]` attributes.

pub mod attrs;
pub mod case;
pub mod error;
pub mod rename;
pub mod resolve;
pub mod token;

pub use crate::case::ParseError;
pub use crate::case::RenameRule;
pub use crate::error::InvalidVariantError;
pub use crate::rename::RenameAttr;
pub use crate::resolve::Enum;
pub use crate::resolve::EnumVariant;
pub use crate::resolve::TypeDecl;
pub use crate::token::Attribute;
pub use crate::token::Token;

use vstd::prelude::*;

verus! {

/// An enum whose unit variants have names in text.
pub trait StringEnum: Copy + Sized + 'static {
    /// Every variant, in the order of declaration.
    const VARIANTS: &'static [Self];

    /// The name the variant is written as.
    fn as_str(&self) -> &'static str;
}

} // verus!
