//! The generation pass end to end: extraction, validation, accessors.

use enum_props::accessor::Accessor;
use enum_props::diagnostics::{
    non_enum_error, non_unit_variant_error, occurrence_error, strum_discriminants_passthrough_error,
    ErrorKind, SrcSpan,
};
use enum_props::enum_properties::enum_properties_inner;
use enum_props::metadata::{
    extract_variant, FieldShape, PropGroup, RawEntry, RawTypeDef, RawVariant, Requirement,
};

fn span(lo: usize, hi: usize) -> SrcSpan {
    SrcSpan { lo, hi }
}

fn entry(key: &str, token: &str) -> RawEntry {
    RawEntry {
        key: key.to_string(),
        token: token.to_string(),
    }
}

fn group(attr: &str, at: SrcSpan, entries: Vec<RawEntry>) -> PropGroup {
    PropGroup {
        attr: attr.to_string(),
        span: at,
        entries,
    }
}

fn variant(ident: &str, disabled: bool, groups: Vec<PropGroup>) -> RawVariant {
    RawVariant {
        ident: ident.to_string(),
        shape: FieldShape::Unit,
        disabled,
        groups,
    }
}

fn type_def(ident: &str, variants: Vec<RawVariant>, requirements: Vec<Requirement>) -> RawTypeDef {
    RawTypeDef {
        ident: ident.to_string(),
        is_enum: true,
        crate_path: "strum".to_string(),
        variants,
        requirements,
    }
}

/// The `Status` type of the scenario: `Active` declares `label = "on"`,
/// `Inactive` declares `label = "off"`, `Hidden` is disabled.
fn status() -> Accessor {
    let td = type_def(
        "Status",
        vec![
            variant(
                "Active",
                false,
                vec![group("props", span(1, 2), vec![entry("label", "\"on\"")])],
            ),
            variant(
                "Inactive",
                false,
                vec![group("props", span(3, 4), vec![entry("label", "\"off\"")])],
            ),
            variant(
                "Hidden",
                true,
                vec![group("props", span(5, 6), vec![entry("label", "\"ghost\"")])],
            ),
        ],
        vec![],
    );
    enum_properties_inner(&td).expect("generation succeeds")
}

#[test]
fn status_scenario_string_lookups() {
    let acc = status();
    assert_eq!(acc.get_str(0, "label"), Some("on".to_string()));
    assert_eq!(acc.get_str(1, "label"), Some("off".to_string()));
    assert_eq!(acc.get_str(2, "label"), None);
    assert_eq!(acc.get_str(0, "missing"), None);
}

#[test]
fn lookups_are_total_beyond_the_type() {
    let acc = status();
    assert_eq!(acc.get_str(3, "label"), None);
    assert_eq!(acc.get_str(usize::MAX, "label"), None);
    assert_eq!(acc.get_bool(0, "label"), None);
    assert_eq!(acc.get_int(0, "label"), None);
    assert_eq!(acc.get(7, "label"), None);
    assert_eq!(acc.get(0, ""), None);
}

#[test]
fn disabled_variant_is_absent_for_every_kind() {
    let acc = status();
    assert_eq!(acc.get_str(2, "label"), None);
    assert_eq!(acc.get_bool(2, "label"), None);
    assert_eq!(acc.get_int(2, "label"), None);
    assert_eq!(acc.get(2, "label"), None);
}

#[test]
fn accessor_keeps_name_and_destination() {
    let acc = status();
    assert_eq!(acc.ident, "Status");
    assert_eq!(acc.crate_path, "strum");
}

#[test]
fn typed_lookups_pick_their_kind() {
    let td = type_def(
        "Mixed",
        vec![variant(
            "Only",
            false,
            vec![group(
                "props",
                span(1, 2),
                vec![
                    entry("key", "42"),
                    entry("key", "\"s\""),
                    entry("flag", "true"),
                ],
            )],
        )],
        vec![],
    );
    let acc = enum_properties_inner(&td).expect("generation succeeds");
    assert_eq!(acc.get_int(0, "key"), Some(42));
    assert_eq!(acc.get_str(0, "key"), Some("s".to_string()));
    assert_eq!(acc.get_bool(0, "key"), None);
    assert_eq!(acc.get_bool(0, "flag"), Some(true));
    // the unified accessor returns the first declaration's rendering
    assert_eq!(acc.get(0, "key"), Some("42".to_string()));
    assert_eq!(acc.get(0, "flag"), Some("true".to_string()));
}

#[test]
fn first_declaration_wins_on_duplicate_keys() {
    let td = type_def(
        "Shadow",
        vec![variant(
            "Only",
            false,
            vec![group(
                "props",
                span(1, 2),
                vec![entry("label", "\"first\""), entry("label", "\"second\"")],
            )],
        )],
        vec![],
    );
    let acc = enum_properties_inner(&td).expect("generation succeeds");
    assert_eq!(acc.get_str(0, "label"), Some("first".to_string()));
    assert_eq!(acc.get(0, "label"), Some("\"first\"".to_string()));
}

#[test]
fn requirement_on_every_variant_succeeds() {
    let td = type_def(
        "Labelled",
        vec![
            variant(
                "A",
                false,
                vec![group("props", span(1, 2), vec![entry("label", "\"a\"")])],
            ),
            variant(
                "B",
                false,
                vec![group("props", span(3, 4), vec![entry("label", "7")])],
            ),
            // disabled and without the key: exempt from the requirement
            variant("Gone", true, vec![]),
        ],
        vec![Requirement {
            key: "label".to_string(),
            span: span(90, 99),
        }],
    );
    assert!(enum_properties_inner(&td).is_ok());
}

#[test]
fn missing_requirement_fails_and_names_the_key() {
    let td = type_def(
        "Status",
        vec![
            variant(
                "Active",
                false,
                vec![group("props", span(1, 2), vec![entry("label", "\"on\"")])],
            ),
            variant("Unlabeled", false, vec![]),
        ],
        vec![Requirement {
            key: "label".to_string(),
            span: span(90, 99),
        }],
    );
    let d = enum_properties_inner(&td).err().expect("generation fails");
    assert_eq!(d.kind, ErrorKind::MissingRequirement);
    assert_eq!(d.notes.len(), 1);
    assert_eq!(d.notes[0].span, span(90, 99));
    assert_eq!(d.notes[0].message, "Requirement 'label' missing on some variants");
}

#[test]
fn duplicate_group_fails_with_both_sites() {
    let td = type_def(
        "Dup",
        vec![
            variant("Fine", false, vec![group("props", span(1, 2), vec![])]),
            variant(
                "Twice",
                false,
                vec![
                    group("props", span(10, 20), vec![entry("a", "1")]),
                    group("props", span(30, 40), vec![entry("b", "2")]),
                ],
            ),
        ],
        vec![],
    );
    let d = enum_properties_inner(&td).err().expect("generation fails");
    assert_eq!(d.kind, ErrorKind::DuplicateOccurrence);
    assert_eq!(d.notes.len(), 2);
    assert_eq!(d.notes[0].span, span(30, 40));
    assert_eq!(d.notes[0].message, "Found multiple occurrences of strum(props)");
    assert_eq!(d.notes[1].span, span(10, 20));
    assert_eq!(d.notes[1].message, "first one here");
}

#[test]
fn duplicate_check_runs_before_requirements() {
    let td = type_def(
        "Both",
        vec![variant(
            "Twice",
            false,
            vec![
                group("props", span(10, 20), vec![]),
                group("props", span(30, 40), vec![]),
            ],
        )],
        vec![Requirement {
            key: "label".to_string(),
            span: span(90, 99),
        }],
    );
    let d = enum_properties_inner(&td).err().expect("generation fails");
    assert_eq!(d.kind, ErrorKind::DuplicateOccurrence);
}

#[test]
fn non_enum_input_is_rejected() {
    let mut td = type_def("NotASum", vec![], vec![]);
    td.is_enum = false;
    let d = enum_properties_inner(&td).err().expect("generation fails");
    assert_eq!(d.kind, ErrorKind::NotAnEnum);
    assert_eq!(d.notes.len(), 1);
    assert_eq!(d.notes[0].message, "This macro only supports enums.");
}

#[test]
fn extraction_flattens_groups_in_order() {
    let raw = variant(
        "V",
        false,
        vec![
            group("props", span(1, 2), vec![entry("a", "1"), entry("b", "\"x\"")]),
            group("extra", span(3, 4), vec![entry("c", "true")]),
        ],
    );
    let m = extract_variant(&raw);
    assert_eq!(m.ident, "V");
    assert!(!m.disabled);
    let keys: Vec<&str> = m.decls.iter().map(|d| d.key.as_str()).collect();
    assert_eq!(keys, vec!["a", "b", "c"]);
    assert_eq!(m.occurrences.len(), 2);
    assert_eq!(m.occurrences[0].attr, "props");
    assert_eq!(m.occurrences[0].span, span(1, 2));
    assert_eq!(m.occurrences[1].attr, "extra");
    assert_eq!(m.occurrences[1].span, span(3, 4));
}

#[test]
fn diagnostic_constructors_carry_their_messages() {
    let d = non_enum_error();
    assert_eq!(d.kind, ErrorKind::NotAnEnum);
    assert_eq!(d.notes[0].message, "This macro only supports enums.");

    let d = non_unit_variant_error();
    assert_eq!(d.kind, ErrorKind::NotUnitVariant);
    assert_eq!(
        d.notes[0].message,
        "This macro only supports enums of strictly unit variants. Consider using it in conjunction with [`EnumDiscriminants`]"
    );

    let d = strum_discriminants_passthrough_error(span(7, 8));
    assert_eq!(d.kind, ErrorKind::PassthroughAttributeExpected);
    assert_eq!(d.notes[0].span, span(7, 8));
    assert_eq!(
        d.notes[0].message,
        "expected a pass-through attribute, e.g. #[strum_discriminants(serde(rename = \"var0\"))]"
    );

    let d = occurrence_error(span(1, 2), span(3, 4), "props");
    assert_eq!(d.kind, ErrorKind::DuplicateOccurrence);
    assert_eq!(d.notes.len(), 2);
    assert_eq!(d.notes[0].span, span(3, 4));
    assert_eq!(d.notes[0].message, "Found multiple occurrences of strum(props)");
    assert_eq!(d.notes[1].span, span(1, 2));
    assert_eq!(d.notes[1].message, "first one here");
}
