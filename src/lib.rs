//! A 128-bit globally unique identifier with a fixed binary layout, derivation
//! from a type signature, and conversion to and from its hyphenated text form.
pub mod guid;
pub mod signature;
pub mod text;

pub use guid::Guid;
pub use text::GuidParseError;
