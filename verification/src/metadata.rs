//! The metadata model and the extractor.
//!
//! The annotation tokenizer hands the engine a [`RawTypeDef`]: the type's
//! variants in declaration order, each with a field shape tag, a disabled
//! flag, and its grouped sub-attribute occurrences holding ordered
//! `key = literal-token` entries; plus the type-level required keys and the
//! destination module path. The extractor turns each raw variant into a
//! [`VariantMeta`] record: the flattened property declarations with their
//! literal tokens parsed, and the sub-attribute occurrences kept for
//! duplicate checking.

use crate::diagnostics::SrcSpan;
use crate::value::{parse_spec, PropertyValue};
use vstd::prelude::*;

verus! {

/// The field shape of a variant, used only to build a wildcard match
/// pattern; field contents are never read.
#[derive(Clone, Copy, PartialEq, Eq, Structural, Debug)]
pub enum FieldShape {
    Unit,
    Unnamed,
    Named,
}

/// One raw `key = literal-token` entry of a grouped sub-attribute.
#[derive(Debug)]
pub struct RawEntry {
    pub key: String,
    pub token: String,
}

/// One occurrence of a grouped sub-attribute on a variant: its name, its
/// source location, and its ordered entries.
#[derive(Debug)]
pub struct PropGroup {
    pub attr: String,
    pub span: SrcSpan,
    pub entries: Vec<RawEntry>,
}

/// A variant as handed in by the annotation tokenizer.
#[derive(Debug)]
pub struct RawVariant {
    pub ident: String,
    pub shape: FieldShape,
    pub disabled: bool,
    pub groups: Vec<PropGroup>,
}

/// A type-level required key with its declaration site.
#[derive(Debug)]
pub struct Requirement {
    pub key: String,
    pub span: SrcSpan,
}

/// A type definition as handed in by the annotation tokenizer.
#[derive(Debug)]
pub struct RawTypeDef {
    pub ident: String,
    pub is_enum: bool,
    pub crate_path: String,
    pub variants: Vec<RawVariant>,
    pub requirements: Vec<Requirement>,
}

/// One extracted property declaration: a key and its parsed value.
#[derive(Debug)]
pub struct Declaration {
    pub key: String,
    pub value: PropertyValue,
}

/// One grouped sub-attribute occurrence, kept for duplicate checking.
#[derive(Debug)]
pub struct Occurrence {
    pub attr: String,
    pub span: SrcSpan,
}

/// The extracted metadata record of one variant.
#[derive(Debug)]
pub struct VariantMeta {
    pub ident: String,
    pub shape: FieldShape,
    pub disabled: bool,
    pub decls: Vec<Declaration>,
    pub occurrences: Vec<Occurrence>,
}

/// The raw entries of a variant's groups, flattened in declaration order.
pub open spec fn flat_entries(groups: Seq<PropGroup>) -> Seq<RawEntry>
    decreases groups.len(),
{
    if groups.len() == 0 {
        Seq::empty()
    } else {
        flat_entries(groups.drop_last()) + groups.last().entries@
    }
}

/// Whether `decls` is the parse of the raw entries `entries`, in order.
pub open spec fn decls_match(decls: Seq<Declaration>, entries: Seq<RawEntry>) -> bool {
    &&& decls.len() == entries.len()
    &&& forall|i: int|
        0 <= i < decls.len() ==> (#[trigger] decls[i]).key@ == entries[i].key@ && decls[i].value@
            == parse_spec(entries[i].token@)
}

/// Whether `occ` records the grouped sub-attribute occurrences `groups`, in
/// order, name and location alike.
pub open spec fn occ_match(occ: Seq<Occurrence>, groups: Seq<PropGroup>) -> bool {
    &&& occ.len() == groups.len()
    &&& forall|i: int|
        0 <= i < occ.len() ==> (#[trigger] occ[i]).attr@ == groups[i].attr@ && occ[i].span
            == groups[i].span
}

/// Whether `m` is the extraction of the raw variant `raw`.
pub open spec fn variant_extracted(m: VariantMeta, raw: RawVariant) -> bool {
    &&& m.ident@ == raw.ident@
    &&& m.shape == raw.shape
    &&& m.disabled == raw.disabled
    &&& decls_match(m.decls@, flat_entries(raw.groups@))
    &&& occ_match(m.occurrences@, raw.groups@)
}

/// Whether `metas` is the extraction of every variant of `raws`, in order.
pub open spec fn variants_extracted(metas: Seq<VariantMeta>, raws: Seq<RawVariant>) -> bool {
    &&& metas.len() == raws.len()
    &&& forall|i: int| 0 <= i < metas.len() ==> variant_extracted(#[trigger] metas[i], raws[i])
}

/// Extract the metadata record of one variant: its identifier, shape and
/// disabled flag pass through; its grouped entries are flattened in
/// declaration order with each literal token parsed into a typed value; and
/// the sub-attribute occurrences are recorded for duplicate checking.
pub fn extract_variant(raw: &RawVariant) -> (m: VariantMeta)
    ensures
        variant_extracted(m, *raw),
{
    let ghost all_groups = raw.groups@;
    let mut decls: Vec<Declaration> = Vec::new();
    let mut occurrences: Vec<Occurrence> = Vec::new();
    let mut gi: usize = 0;
    while gi < raw.groups.len()
        invariant
            0 <= gi <= all_groups.len(),
            all_groups == raw.groups@,
            decls_match(decls@, flat_entries(all_groups.subrange(0, gi as int))),
            occ_match(occurrences@, all_groups.subrange(0, gi as int)),
        decreases all_groups.len() - gi,
    {
        let group = &raw.groups[gi];
        occurrences.push(Occurrence { attr: group.attr.clone(), span: group.span });
        let ghost flat_before = flat_entries(all_groups.subrange(0, gi as int));
        let mut ei: usize = 0;
        while ei < group.entries.len()
            invariant
                0 <= ei <= group.entries@.len(),
                decls_match(decls@, flat_before + group.entries@.subrange(0, ei as int)),
            decreases group.entries@.len() - ei,
        {
            let entry = &group.entries[ei];
            let value = PropertyValue::parse(entry.token.as_str());
            decls.push(Declaration { key: entry.key.clone(), value });
            proof {
                assert(flat_before + group.entries@.subrange(0, ei + 1) =~= (flat_before
                    + group.entries@.subrange(0, ei as int)).push(group.entries@[ei as int]));
            }
            ei = ei + 1;
        }
        proof {
            assert(group.entries@.subrange(0, ei as int) =~= group.entries@);
            assert(all_groups.subrange(0, gi + 1).drop_last() =~= all_groups.subrange(0, gi as int));
            assert(all_groups.subrange(0, gi + 1).last() == all_groups[gi as int]);
            assert(occurrences@ =~= occurrences@.subrange(0, gi as int).push(
                occurrences@[gi as int],
            ));
        }
        gi = gi + 1;
    }
    proof {
        assert(all_groups.subrange(0, gi as int) =~= all_groups);
    }
    VariantMeta {
        ident: raw.ident.clone(),
        shape: raw.shape,
        disabled: raw.disabled,
        decls,
        occurrences,
    }
}

/// Extract the metadata records of all variants, in declaration order.
pub fn extract_variants(raws: &Vec<RawVariant>) -> (metas: Vec<VariantMeta>)
    ensures
        variants_extracted(metas@, raws@),
{
    let mut metas: Vec<VariantMeta> = Vec::new();
    let mut vi: usize = 0;
    while vi < raws.len()
        invariant
            0 <= vi <= raws@.len(),
            metas@.len() == vi,
            forall|i: int| 0 <= i < vi ==> variant_extracted(#[trigger] metas@[i], raws@[i]),
        decreases raws@.len() - vi,
    {
        let m = extract_variant(&raws[vi]);
        metas.push(m);
        vi = vi + 1;
    }
    metas
}

} // verus!
