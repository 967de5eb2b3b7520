//! The constraint validator.
//!
//! Given the extracted variant records and the type-level required keys, it
//! enforces, fail-fast and in this order:
//!   1. occurrence uniqueness: no grouped sub-attribute is declared twice on
//!      one variant — a violation combines both declaration sites into one
//!      reported failure;
//!   2. required-key coverage: every key of the type-level constraint set is
//!      declared on every non-disabled variant — a violation names the key
//!      and points at the requirement's own declaration site.

use crate::diagnostics::{missing_requirement_error, occurrence_error, Diagnostic, ErrorKind};
use crate::metadata::{Declaration, Occurrence, Requirement, VariantMeta};
use vstd::prelude::*;

verus! {

/// The names of a variant's grouped sub-attribute occurrences, in order.
pub open spec fn occ_names(occ: Seq<Occurrence>) -> Seq<Seq<char>> {
    occ.map_values(|o: Occurrence| o.attr@)
}

/// The keys of a variant's property declarations, in order.
pub open spec fn decl_keys(decls: Seq<Declaration>) -> Seq<Seq<char>> {
    decls.map_values(|d: Declaration| d.key@)
}

/// Whether some name appears twice in `names`.
pub open spec fn has_dup(names: Seq<Seq<char>>) -> bool {
    exists|i: int, j: int| 0 <= i < j < names.len() && names[i] == names[j]
}

/// Whether (i, j) is the first duplicate pair detected when scanning
/// `names` left to right: j is the earliest position whose name appeared
/// before, and i the earliest earlier position carrying that name.
pub open spec fn is_first_dup_pair(names: Seq<Seq<char>>, i: int, j: int) -> bool {
    &&& 0 <= i < j < names.len()
    &&& names[i] == names[j]
    &&& forall|i2: int, j2: int| 0 <= i2 < j2 < j ==> names[i2] != names[j2]
    &&& forall|i2: int| 0 <= i2 < i ==> names[i2] != names[j]
}

/// Whether `keys` contains `key`.
pub open spec fn contains_key(keys: Seq<Seq<char>>, key: Seq<char>) -> bool {
    exists|i: int| 0 <= i < keys.len() && keys[i] == key
}

/// Whether the required key `key` is declared, with any value, on every
/// non-disabled variant; disabled variants are exempt entirely.
pub open spec fn requirement_met(metas: Seq<VariantMeta>, key: Seq<char>) -> bool {
    forall|v: int|
        0 <= v < metas.len() && !(#[trigger] metas[v]).disabled ==> contains_key(
            decl_keys(metas[v].decls@),
            key,
        )
}

/// Whether requirement `k` is the first one, in declaration order, that is
/// not met.
pub open spec fn first_unmet(metas: Seq<VariantMeta>, reqs: Seq<Requirement>, k: int) -> bool {
    &&& 0 <= k < reqs.len()
    &&& !requirement_met(metas, reqs[k].key@)
    &&& forall|k2: int| 0 <= k2 < k ==> requirement_met(metas, reqs[k2].key@)
}

/// Whether variant `v` is the first one, in declaration order, with a
/// duplicate grouped sub-attribute.
pub open spec fn first_dup_variant(metas: Seq<VariantMeta>, v: int) -> bool {
    &&& 0 <= v < metas.len()
    &&& has_dup(occ_names(metas[v].occurrences@))
    &&& forall|v2: int| 0 <= v2 < v ==> !has_dup(occ_names((#[trigger] metas[v2]).occurrences@))
}

/// Whether `d` is the duplicate-occurrence failure combining the first
/// occurrence `fst` and the second occurrence `snd`: the primary note sits
/// at the second occurrence, the combined note points back at the first.
pub open spec fn dup_diag(d: Diagnostic, fst: Occurrence, snd: Occurrence) -> bool {
    &&& d.kind == ErrorKind::DuplicateOccurrence
    &&& d.notes@.len() == 2
    &&& d.notes@[0].span == snd.span
    &&& d.notes@[0].message@ == "Found multiple occurrences of strum("@ + snd.attr@ + ")"@
    &&& d.notes@[1].span == fst.span
    &&& d.notes@[1].message@ == "first one here"@
}

/// Whether `d` is the missing-requirement failure for `req`, anchored at
/// the requirement's declaration site and naming its key.
pub open spec fn missing_diag(d: Diagnostic, req: Requirement) -> bool {
    &&& d.kind == ErrorKind::MissingRequirement
    &&& d.notes@.len() == 1
    &&& d.notes@[0].span == req.span
    &&& d.notes@[0].message@ == "Requirement '"@ + req.key@ + "' missing on some variants"@
}

/// Check occurrence uniqueness on one variant: succeeds exactly when no
/// grouped sub-attribute name appears twice; otherwise reports the first
/// duplicate pair, both declaration sites combined into one failure.
pub fn check_occurrences(m: &VariantMeta) -> (r: Result<(), Diagnostic>)
    ensures
        r is Ok <==> !has_dup(occ_names(m.occurrences@)),
        r matches Err(d) ==> exists|i: int, j: int|
            #[trigger] is_first_dup_pair(occ_names(m.occurrences@), i, j) && dup_diag(
                d,
                m.occurrences@[i],
                m.occurrences@[j],
            ),
{
    let ghost names = occ_names(m.occurrences@);
    let mut j: usize = 0;
    while j < m.occurrences.len()
        invariant
            0 <= j <= m.occurrences@.len(),
            names == occ_names(m.occurrences@),
            forall|i2: int, j2: int| 0 <= i2 < j2 < j ==> names[i2] != names[j2],
        decreases m.occurrences@.len() - j,
    {
        let mut i: usize = 0;
        while i < j
            invariant
                0 <= i <= j < m.occurrences@.len(),
                names == occ_names(m.occurrences@),
                forall|i2: int, j2: int| 0 <= i2 < j2 < j ==> names[i2] != names[j2],
                forall|i2: int| 0 <= i2 < i ==> names[i2] != names[j as int],
            decreases j - i,
        {
            if m.occurrences[i].attr == m.occurrences[j].attr {
                let d = occurrence_error(
                    m.occurrences[i].span,
                    m.occurrences[j].span,
                    m.occurrences[j].attr.as_str(),
                );
                proof {
                    assert(is_first_dup_pair(names, i as int, j as int));
                }
                return Err(d);
            }
            i = i + 1;
        }
        j = j + 1;
    }
    Ok(())
}

/// Whether variant `m` declares `key` at least once, under any grouped
/// sub-attribute.
pub fn declares_key(m: &VariantMeta, key: &String) -> (r: bool)
    ensures
        r == contains_key(decl_keys(m.decls@), key@),
{
    let mut i: usize = 0;
    while i < m.decls.len()
        invariant
            0 <= i <= m.decls@.len(),
            forall|i2: int| 0 <= i2 < i ==> decl_keys(m.decls@)[i2] != key@,
        decreases m.decls@.len() - i,
    {
        if m.decls[i].key == *key {
            proof {
                assert(decl_keys(m.decls@)[i as int] == key@);
            }
            return true;
        }
        i = i + 1;
    }
    false
}

/// Check required-key coverage: succeeds exactly when every required key is
/// declared on every non-disabled variant; otherwise reports the first
/// requirement, in declaration order, that is unmet.
pub fn check_requirements(metas: &Vec<VariantMeta>, reqs: &Vec<Requirement>) -> (r: Result<
    (),
    Diagnostic,
>)
    ensures
        r is Ok <==> (forall|k: int|
            0 <= k < reqs@.len() ==> requirement_met(metas@, (#[trigger] reqs@[k]).key@)),
        r matches Err(d) ==> exists|k: int|
            #[trigger] first_unmet(metas@, reqs@, k) && missing_diag(d, reqs@[k]),
{
    let mut k: usize = 0;
    while k < reqs.len()
        invariant
            0 <= k <= reqs@.len(),
            forall|k2: int| 0 <= k2 < k ==> requirement_met(metas@, (#[trigger] reqs@[k2]).key@),
        decreases reqs@.len() - k,
    {
        let req = &reqs[k];
        let mut v: usize = 0;
        while v < metas.len()
            invariant
                0 <= v <= metas@.len(),
                0 <= k < reqs@.len(),
                req == reqs@[k as int],
                forall|k2: int| 0 <= k2 < k ==> requirement_met(metas@, (#[trigger] reqs@[k2]).key@),
                forall|v2: int|
                    0 <= v2 < v && !(#[trigger] metas@[v2]).disabled ==> contains_key(
                        decl_keys(metas@[v2].decls@),
                        req.key@,
                    ),
            decreases metas@.len() - v,
        {
            let m = &metas[v];
            if !m.disabled && !declares_key(m, &req.key) {
                let d = missing_requirement_error(req.key.as_str(), req.span);
                proof {
                    assert(!requirement_met(metas@, reqs@[k as int].key@));
                    assert(first_unmet(metas@, reqs@, k as int));
                    assert(missing_diag(d, reqs@[k as int]));
                }
                return Err(d);
            }
            v = v + 1;
        }
        k = k + 1;
    }
    Ok(())
}

/// Validate the extracted records against the type-level constraint set:
/// occurrence uniqueness over the variants in order, then required-key
/// coverage over the requirements in order, stopping at the first
/// violation.
pub fn validate(metas: &Vec<VariantMeta>, reqs: &Vec<Requirement>) -> (r: Result<(), Diagnostic>)
    ensures
        r is Ok <==> ((forall|v: int|
            0 <= v < metas@.len() ==> !has_dup(occ_names((#[trigger] metas@[v]).occurrences@)))
            && (forall|k: int|
            0 <= k < reqs@.len() ==> requirement_met(metas@, (#[trigger] reqs@[k]).key@))),
        r matches Err(d) ==> (d.kind == ErrorKind::DuplicateOccurrence || d.kind
            == ErrorKind::MissingRequirement),
        r matches Err(d) ==> (d.kind == ErrorKind::DuplicateOccurrence ==> exists|
            v: int,
            i: int,
            j: int,
        |
            #[trigger] first_dup_variant(metas@, v) && #[trigger] is_first_dup_pair(
                occ_names(metas@[v].occurrences@),
                i,
                j,
            ) && dup_diag(d, metas@[v].occurrences@[i], metas@[v].occurrences@[j])),
        r matches Err(d) ==> (d.kind == ErrorKind::MissingRequirement ==> (forall|v: int|
            0 <= v < metas@.len() ==> !has_dup(occ_names((#[trigger] metas@[v]).occurrences@)))
            && exists|k: int| #[trigger] first_unmet(metas@, reqs@, k) && missing_diag(d, reqs@[k])),
{
    let mut v: usize = 0;
    while v < metas.len()
        invariant
            0 <= v <= metas@.len(),
            forall|v2: int|
                0 <= v2 < v ==> !has_dup(occ_names((#[trigger] metas@[v2]).occurrences@)),
        decreases metas@.len() - v,
    {
        match check_occurrences(&metas[v]) {
            Ok(_) => {
            },
            Err(d) => {
                proof {
                    assert(first_dup_variant(metas@, v as int));
                }
                return Err(d);
            },
        }
        v = v + 1;
    }
    check_requirements(metas, reqs)
}

} // verus!
