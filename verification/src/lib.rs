//! Accessor synthesis for sum types with attached key/value metadata.
//!
//! Given a sum type whose variants carry property declarations (`key = value`
//! pairs grouped under sub-attributes, plus `disabled` and type-level
//! `requires(...)` modifiers), this crate extracts per-variant metadata,
//! validates duplicate-occurrence and required-key constraints, and builds a
//! total, typed lookup structure from (variant, key) to an optional value.

pub mod accessor;
pub mod diagnostics;
pub mod enum_properties;
pub mod metadata;
pub mod validate;
pub mod value;
