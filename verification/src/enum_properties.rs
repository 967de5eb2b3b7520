//! The generation pass: extract, validate, synthesize.
//!
//! [`enum_properties_inner`] consumes a raw type definition and either
//! builds the [`Accessor`] for it or fails with a single diagnostic: the
//! type is not a sum type, a grouped sub-attribute occurs twice on one
//! variant, or a required key is missing on some non-disabled variant. Its
//! contract pins success and every failure down to the raw input alone.

use crate::accessor::Accessor;
use crate::diagnostics::{non_enum_error, Diagnostic, ErrorKind, SrcSpan};
use crate::metadata::{
    extract_variants, flat_entries, variant_extracted, variants_extracted, PropGroup, RawEntry,
    RawTypeDef, RawVariant, Requirement, VariantMeta,
};
use crate::validate::{
    contains_key, decl_keys, dup_diag, first_dup_variant, first_unmet, has_dup, is_first_dup_pair,
    missing_diag, occ_names, requirement_met, validate,
};
use vstd::prelude::*;

verus! {

/// The names of a raw variant's grouped sub-attributes, in order.
pub open spec fn group_names(groups: Seq<PropGroup>) -> Seq<Seq<char>> {
    groups.map_values(|g: PropGroup| g.attr@)
}

/// The keys of raw entries, in order.
pub open spec fn entry_keys(entries: Seq<RawEntry>) -> Seq<Seq<char>> {
    entries.map_values(|e: RawEntry| e.key@)
}

/// Whether the raw variant declares `key` under some grouped sub-attribute.
pub open spec fn raw_declares(v: RawVariant, key: Seq<char>) -> bool {
    contains_key(entry_keys(flat_entries(v.groups@)), key)
}

/// Whether `key` is declared on every non-disabled raw variant.
pub open spec fn raw_requirement_met(raws: Seq<RawVariant>, key: Seq<char>) -> bool {
    forall|v: int|
        0 <= v < raws.len() && !(#[trigger] raws[v]).disabled ==> raw_declares(raws[v], key)
}

/// Whether no raw variant declares the same grouped sub-attribute twice.
pub open spec fn no_dup_groups(raws: Seq<RawVariant>) -> bool {
    forall|v: int| 0 <= v < raws.len() ==> !has_dup(group_names((#[trigger] raws[v]).groups@))
}

/// Whether every type-level required key is declared on every non-disabled
/// raw variant.
pub open spec fn requirements_met(raws: Seq<RawVariant>, reqs: Seq<Requirement>) -> bool {
    forall|k: int|
        0 <= k < reqs.len() ==> raw_requirement_met(raws, (#[trigger] reqs[k]).key@)
}

/// Whether the generation pass succeeds on `ast`: it is a sum type, no
/// variant declares the same grouped sub-attribute twice, and every
/// required key is declared on every non-disabled variant.
pub open spec fn generation_succeeds(ast: RawTypeDef) -> bool {
    &&& ast.is_enum
    &&& no_dup_groups(ast.variants@)
    &&& requirements_met(ast.variants@, ast.requirements@)
}

/// Whether raw variant `v` is the first one with a duplicate grouped
/// sub-attribute.
pub open spec fn raw_first_dup_variant(raws: Seq<RawVariant>, v: int) -> bool {
    &&& 0 <= v < raws.len()
    &&& has_dup(group_names(raws[v].groups@))
    &&& forall|v2: int| 0 <= v2 < v ==> !has_dup(group_names((#[trigger] raws[v2]).groups@))
}

/// Whether requirement `k` is the first one not met by the raw variants.
pub open spec fn raw_first_unmet(raws: Seq<RawVariant>, reqs: Seq<Requirement>, k: int) -> bool {
    &&& 0 <= k < reqs.len()
    &&& !raw_requirement_met(raws, reqs[k].key@)
    &&& forall|k2: int| 0 <= k2 < k ==> raw_requirement_met(raws, (#[trigger] reqs[k2]).key@)
}

/// Whether `d` is the duplicate-occurrence failure for the grouped
/// sub-attribute occurrences `fst` and `snd`, both declaration sites
/// combined into one reported error.
pub open spec fn raw_dup_diag(d: Diagnostic, fst: PropGroup, snd: PropGroup) -> bool {
    &&& d.kind == ErrorKind::DuplicateOccurrence
    &&& d.notes@.len() == 2
    &&& d.notes@[0].span == snd.span
    &&& d.notes@[0].message@ == "Found multiple occurrences of strum("@ + snd.attr@ + ")"@
    &&& d.notes@[1].span == fst.span
    &&& d.notes@[1].message@ == "first one here"@
}

/// Extraction preserves the grouped sub-attribute names and locations.
proof fn lemma_extracted_occ_names(m: VariantMeta, raw: RawVariant)
    requires
        variant_extracted(m, raw),
    ensures
        occ_names(m.occurrences@) == group_names(raw.groups@),
{
    assert(occ_names(m.occurrences@) =~= group_names(raw.groups@));
}

/// Extraction preserves the declared keys, in order.
proof fn lemma_extracted_keys(m: VariantMeta, raw: RawVariant)
    requires
        variant_extracted(m, raw),
    ensures
        decl_keys(m.decls@) == entry_keys(flat_entries(raw.groups@)),
{
    assert(decl_keys(m.decls@) =~= entry_keys(flat_entries(raw.groups@)));
}

/// A required key is met by the extracted records exactly when it is met
/// by the raw variants.
proof fn lemma_requirement_bridge(metas: Seq<VariantMeta>, raws: Seq<RawVariant>, key: Seq<char>)
    requires
        variants_extracted(metas, raws),
    ensures
        requirement_met(metas, key) == raw_requirement_met(raws, key),
{
    if requirement_met(metas, key) {
        assert forall|v: int| 0 <= v < raws.len() && !(#[trigger] raws[v]).disabled implies
            raw_declares(raws[v], key) by {
            lemma_extracted_keys(metas[v], raws[v]);
            assert(!metas[v].disabled);
        }
    }
    if raw_requirement_met(raws, key) {
        assert forall|v: int| 0 <= v < metas.len() && !(#[trigger] metas[v]).disabled implies
            contains_key(decl_keys(metas[v].decls@), key) by {
            lemma_extracted_keys(metas[v], raws[v]);
            assert(!raws[v].disabled);
        }
    }
}

/// The engine's entry: check that the definition is a sum type, extract
/// the per-variant metadata, validate the constraints fail-fast, and build
/// the accessor. Succeeds exactly when [`generation_succeeds`] holds of the
/// input; each failure is pinned to its source locations.
pub fn enum_properties_inner(ast: &RawTypeDef) -> (r: Result<Accessor, Diagnostic>)
    ensures
        r is Ok <==> generation_succeeds(*ast),
        r matches Ok(a) ==> a.ident@ == ast.ident@ && a.crate_path@ == ast.crate_path@
            && variants_extracted(a.variants@, ast.variants@),
        r matches Err(d) ==> (!ast.is_enum ==> d.kind == ErrorKind::NotAnEnum && d.notes@.len() == 1
            && d.notes@[0].span == (SrcSpan { lo: 0, hi: 0 }) && d.notes@[0].message@
            == "This macro only supports enums."@),
        r matches Err(d) ==> (ast.is_enum ==> d.kind == ErrorKind::DuplicateOccurrence || d.kind
            == ErrorKind::MissingRequirement),
        r matches Err(d) ==> (d.kind == ErrorKind::DuplicateOccurrence ==> exists|
            v: int,
            i: int,
            j: int,
        |
            raw_first_dup_variant(ast.variants@, v) && #[trigger] is_first_dup_pair(
                group_names(ast.variants@[v].groups@),
                i,
                j,
            ) && raw_dup_diag(d, ast.variants@[v].groups@[i], ast.variants@[v].groups@[j])),
        r matches Err(d) ==> (d.kind == ErrorKind::MissingRequirement ==> no_dup_groups(
            ast.variants@,
        ) && exists|k: int|
            #[trigger] raw_first_unmet(ast.variants@, ast.requirements@, k) && missing_diag(
                d,
                ast.requirements@[k],
            )),
{
    if !ast.is_enum {
        return Err(non_enum_error());
    }
    let metas = extract_variants(&ast.variants);
    let ghost ms = metas@;
    let ghost raws = ast.variants@;
    let ghost reqs = ast.requirements@;
    proof {
        assert forall|v: int|
            #![trigger ms[v]]
            #![trigger raws[v]]
            0 <= v < raws.len() implies occ_names(ms[v].occurrences@) == group_names(
            raws[v].groups@,
        ) by {
            lemma_extracted_occ_names(ms[v], raws[v]);
        }
        assert forall|k: int| #![trigger reqs[k]] 0 <= k < reqs.len() implies requirement_met(
            ms,
            reqs[k].key@,
        ) == raw_requirement_met(raws, reqs[k].key@) by {
            lemma_requirement_bridge(ms, raws, reqs[k].key@);
        }
    }
    match validate(&metas, &ast.requirements) {
        Ok(_) => {
        },
        Err(d) => {
            proof {
                if d.kind == ErrorKind::DuplicateOccurrence {
                    let (v, i, j) = choose|v: int, i: int, j: int|
                        first_dup_variant(ms, v) && #[trigger] is_first_dup_pair(
                            occ_names(ms[v].occurrences@),
                            i,
                            j,
                        ) && dup_diag(d, ms[v].occurrences@[i], ms[v].occurrences@[j]);
                    assert(raw_first_dup_variant(raws, v));
                    assert(is_first_dup_pair(group_names(raws[v].groups@), i, j));
                    assert(ms[v].occurrences@[i].span == raws[v].groups@[i].span);
                    assert(ms[v].occurrences@[j].span == raws[v].groups@[j].span);
                    assert(ms[v].occurrences@[j].attr@ == raws[v].groups@[j].attr@);
                    assert(raw_dup_diag(d, raws[v].groups@[i], raws[v].groups@[j]));
                } else {
                    let k = choose|k: int| #[trigger] first_unmet(ms, reqs, k) && missing_diag(
                        d,
                        reqs[k],
                    );
                    assert(raw_first_unmet(raws, reqs, k));
                }
            }
            return Err(d);
        },
    }
    Ok(Accessor { ident: ast.ident.clone(), crate_path: ast.crate_path.clone(), variants: metas })
}

} // verus!
