//! Shared vocabulary of generation failures.
//!
//! A failure is reported as a [`Diagnostic`]: a kind plus an ordered list of
//! (location, message) notes, so that one reported error can reference
//! several source locations at once.

use vstd::prelude::*;
use vstd::string::*;

verus! {

/// A source location handed in by the annotation tokenizer, as a half-open
/// byte range into the source text. The engine never inspects the range; it
/// only carries it back out in diagnostics.
#[derive(Clone, Copy, PartialEq, Eq, Structural, Debug)]
pub struct SrcSpan {
    pub lo: usize,
    pub hi: usize,
}

impl SrcSpan {
    /// The span used for failures not anchored to any particular token.
    pub fn call_site() -> (s: SrcSpan)
        ensures
            s == (SrcSpan { lo: 0, hi: 0 }),
    {
        SrcSpan { lo: 0, hi: 0 }
    }
}

/// Classification of a generation failure.
#[derive(Clone, Copy, PartialEq, Eq, Structural, Debug)]
pub enum ErrorKind {
    /// The input type definition is not a sum type.
    NotAnEnum,
    /// A variant has fields where only unit variants are supported.
    NotUnitVariant,
    /// A pass-through attribute was expected but something else was found.
    PassthroughAttributeExpected,
    /// The same grouped sub-attribute occurs twice on one variant.
    DuplicateOccurrence,
    /// A type-level required key is missing on some non-disabled variant.
    MissingRequirement,
}

/// One (location, message) entry of a diagnostic.
#[derive(Debug)]
pub struct Note {
    pub span: SrcSpan,
    pub message: String,
}

/// A generation failure: its kind and an ordered list of notes. The first
/// note is the primary anchor; later notes point at related locations.
#[derive(Debug)]
pub struct Diagnostic {
    pub kind: ErrorKind,
    pub notes: Vec<Note>,
}

/// A failure with a single note.
fn single_note(kind: ErrorKind, span: SrcSpan, message: String) -> (d: Diagnostic)
    ensures
        d.kind == kind,
        d.notes@.len() == 1,
        d.notes@[0].span == span,
        d.notes@[0].message == message,
{
    let mut notes: Vec<Note> = Vec::new();
    notes.push(Note { span, message });
    Diagnostic { kind, notes }
}

/// The failure reported when the input type definition is not a sum type.
pub fn non_enum_error() -> (d: Diagnostic)
    ensures
        d.kind == ErrorKind::NotAnEnum,
        d.notes@.len() == 1,
        d.notes@[0].span == (SrcSpan { lo: 0, hi: 0 }),
        d.notes@[0].message@ == "This macro only supports enums."@,
{
    single_note(
        ErrorKind::NotAnEnum,
        SrcSpan::call_site(),
        "This macro only supports enums.".to_owned(),
    )
}

/// The failure reported when a variant carries fields where only unit
/// variants are supported.
pub fn non_unit_variant_error() -> (d: Diagnostic)
    ensures
        d.kind == ErrorKind::NotUnitVariant,
        d.notes@.len() == 1,
        d.notes@[0].span == (SrcSpan { lo: 0, hi: 0 }),
        d.notes@[0].message@
            == "This macro only supports enums of strictly unit variants. Consider using it in conjunction with [`EnumDiscriminants`]"@,
{
    single_note(
        ErrorKind::NotUnitVariant,
        SrcSpan::call_site(),
        "This macro only supports enums of strictly unit variants. Consider using it in conjunction with [`EnumDiscriminants`]".to_owned(),
    )
}

/// The failure reported when a pass-through attribute was expected.
pub fn strum_discriminants_passthrough_error(span: SrcSpan) -> (d: Diagnostic)
    ensures
        d.kind == ErrorKind::PassthroughAttributeExpected,
        d.notes@.len() == 1,
        d.notes@[0].span == span,
        d.notes@[0].message@
            == "expected a pass-through attribute, e.g. #[strum_discriminants(serde(rename = \"var0\"))]"@,
{
    single_note(
        ErrorKind::PassthroughAttributeExpected,
        span,
        "expected a pass-through attribute, e.g. #[strum_discriminants(serde(rename = \"var0\"))]".to_owned(),
    )
}

/// The failure reported when the grouped sub-attribute `attr` occurs twice on
/// one variant: the primary note is anchored at the second occurrence, and a
/// secondary note points back at the first, so both locations surface in one
/// reported error.
pub fn occurrence_error(fst: SrcSpan, snd: SrcSpan, attr: &str) -> (d: Diagnostic)
    ensures
        d.kind == ErrorKind::DuplicateOccurrence,
        d.notes@.len() == 2,
        d.notes@[0].span == snd,
        d.notes@[0].message@ == "Found multiple occurrences of strum("@ + attr@ + ")"@,
        d.notes@[1].span == fst,
        d.notes@[1].message@ == "first one here"@,
{
    let mut message = "Found multiple occurrences of strum(".to_owned();
    message.append(attr);
    message.append(")");
    let mut notes: Vec<Note> = Vec::new();
    notes.push(Note { span: snd, message });
    notes.push(Note { span: fst, message: "first one here".to_owned() });
    Diagnostic { kind: ErrorKind::DuplicateOccurrence, notes }
}

/// The failure reported when the required key `key` is not declared on every
/// non-disabled variant, anchored at the requirement's own declaration site.
pub fn missing_requirement_error(key: &str, span: SrcSpan) -> (d: Diagnostic)
    ensures
        d.kind == ErrorKind::MissingRequirement,
        d.notes@.len() == 1,
        d.notes@[0].span == span,
        d.notes@[0].message@ == "Requirement '"@ + key@ + "' missing on some variants"@,
{
    let mut message = "Requirement '".to_owned();
    message.append(key);
    message.append("' missing on some variants");
    single_note(ErrorKind::MissingRequirement, span, message)
}

} // verus!
