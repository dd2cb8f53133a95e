//! Localizable values and selector matching for a message formatter.
//!
//! A [`FluentValue`] is either text or a number kept in its textual form. It
//! renders to display text and can be matched against another value; a text
//! value that names a plural category matches a number that the cardinal plural
//! rules of the negotiated locale put into that category.

pub mod context;
pub mod locale;
pub mod number;
pub mod plural;
pub mod text;
pub mod value;

pub use context::MessageContext;
pub use plural::PluralCategory;
pub use value::{FluentValue, InvalidNumber};
