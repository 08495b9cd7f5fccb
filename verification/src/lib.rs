//! Derivable conversions between typed records and an untyped dynamic value.
//!
//! A typed record is described by a [`record::Schema`]; [`codec::decode`]
//! reconstructs a [`record::Record`] from a [`value::DynValue`] whose shape
//! matches the schema, and [`codec::encode`] renders a record as a dynamic
//! value. [`templates`] holds the declaration processor: given a type name
//! and a conversion capability it emits the source text of the
//! corresponding conversion implementations.

pub mod codec;
pub mod record;
pub mod templates;
pub mod value;
