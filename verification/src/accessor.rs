//! The accessor: a total mapping from (variant, key) to an optional value.
//!
//! Instead of emitting one match arm per variant, the engine builds an
//! [`Accessor`] structure over the validated variant records and interprets
//! it: an outer dispatch on the variant number, an inner left-to-right scan
//! over that variant's declared keys, and an absent fallback covering
//! disabled variants, unknown variant numbers and undeclared keys. Lookups
//! are total, and the first declaration carrying the requested key wins.

use crate::metadata::{Declaration, VariantMeta};
use crate::validate::{contains_key, decl_keys};
use crate::value::{emit_spec, PropVal, PropertyValue};
use vstd::prelude::*;

verus! {

/// The first string-valued declaration carrying `key`, scanning left to
/// right; declarations of another kind do not occupy the key.
pub open spec fn str_lookup(decls: Seq<Declaration>, key: Seq<char>) -> Option<Seq<char>>
    decreases decls.len(),
{
    if decls.len() == 0 {
        None
    } else if decls[0].key@ == key && decls[0].value@ is Str {
        Some(decls[0].value@->Str_0)
    } else {
        str_lookup(decls.drop_first(), key)
    }
}

/// The first boolean-valued declaration carrying `key`.
pub open spec fn bool_lookup(decls: Seq<Declaration>, key: Seq<char>) -> Option<bool>
    decreases decls.len(),
{
    if decls.len() == 0 {
        None
    } else if decls[0].key@ == key && decls[0].value@ is Bool {
        Some(decls[0].value@->Bool_0)
    } else {
        bool_lookup(decls.drop_first(), key)
    }
}

/// The first integer-valued declaration carrying `key`.
pub open spec fn int_lookup(decls: Seq<Declaration>, key: Seq<char>) -> Option<u64>
    decreases decls.len(),
{
    if decls.len() == 0 {
        None
    } else if decls[0].key@ == key && decls[0].value@ is Num {
        Some(decls[0].value@->Num_0)
    } else {
        int_lookup(decls.drop_first(), key)
    }
}

/// The first declaration carrying `key`, regardless of its value kind.
pub open spec fn raw_lookup(decls: Seq<Declaration>, key: Seq<char>) -> Option<PropVal>
    decreases decls.len(),
{
    if decls.len() == 0 {
        None
    } else if decls[0].key@ == key {
        Some(decls[0].value@)
    } else {
        raw_lookup(decls.drop_first(), key)
    }
}

/// The synthesized accessor for one type: its name, the destination
/// namespace for the generated trait implementation, and the validated
/// variant records the lookups dispatch over.
#[derive(Debug)]
pub struct Accessor {
    pub ident: String,
    pub crate_path: String,
    pub variants: Vec<VariantMeta>,
}

/// Whether variant number `v` takes part in lookups: it exists and is not
/// disabled. A disabled variant behaves exactly like a variant with zero
/// declarations.
pub open spec fn variant_enabled(a: Accessor, v: int) -> bool {
    0 <= v < a.variants@.len() && !a.variants@[v].disabled
}

/// What the string accessor returns for (variant `v`, key `key`).
pub open spec fn spec_get_str(a: Accessor, v: int, key: Seq<char>) -> Option<Seq<char>> {
    if variant_enabled(a, v) {
        str_lookup(a.variants@[v].decls@, key)
    } else {
        None
    }
}

/// What the boolean accessor returns for (variant `v`, key `key`).
pub open spec fn spec_get_bool(a: Accessor, v: int, key: Seq<char>) -> Option<bool> {
    if variant_enabled(a, v) {
        bool_lookup(a.variants@[v].decls@, key)
    } else {
        None
    }
}

/// What the integer accessor returns for (variant `v`, key `key`).
pub open spec fn spec_get_int(a: Accessor, v: int, key: Seq<char>) -> Option<u64> {
    if variant_enabled(a, v) {
        int_lookup(a.variants@[v].decls@, key)
    } else {
        None
    }
}

/// What the unified accessor returns for (variant `v`, key `key`): the
/// rendering of the first declared value under the key, whatever its kind.
pub open spec fn spec_get(a: Accessor, v: int, key: Seq<char>) -> Option<Seq<char>> {
    if variant_enabled(a, v) {
        match raw_lookup(a.variants@[v].decls@, key) {
            Some(pv) => Some(emit_spec(pv)),
            None => None,
        }
    } else {
        None
    }
}

/// Whether the optional string `r` renders the optional character sequence
/// `s`: both absent, or both present and equal.
pub open spec fn opt_str_matches(r: Option<String>, s: Option<Seq<char>>) -> bool {
    match r {
        Some(x) => s is Some && x@ == s->Some_0,
        None => s is None,
    }
}

impl Accessor {
    /// The string accessor: the value of the first string-valued
    /// declaration carrying `prop` on variant number `variant`, absent for
    /// a disabled or unknown variant and for an undeclared key.
    pub fn get_str(&self, variant: usize, prop: &str) -> (r: Option<String>)
        ensures
            opt_str_matches(r, spec_get_str(*self, variant as int, prop@)),
    {
        if variant >= self.variants.len() {
            return None;
        }
        let m = &self.variants[variant];
        if m.disabled {
            return None;
        }
        let p = prop.to_owned();
        let ghost all = m.decls@;
        let ghost key = prop@;
        let mut i: usize = 0;
        proof {
            assert(all.skip(0) =~= all);
        }
        while i < m.decls.len()
            invariant
                0 <= i <= all.len(),
                variant < self.variants@.len(),
                *m == self.variants@[variant as int],
                !m.disabled,
                all == m.decls@,
                key == p@,
                key == prop@,
                str_lookup(all, key) == str_lookup(all.skip(i as int), key),
            decreases all.len() - i,
        {
            proof {
                assert(all.skip(i as int).drop_first() =~= all.skip(i + 1));
                assert(all.skip(i as int)[0] == all[i as int]);
            }
            let d = &m.decls[i];
            if d.key == p {
                match &d.value {
                    PropertyValue::Str(s) => {
                        proof {
                            assert(str_lookup(all.skip(i as int), key) == Some(s@));
                        }
                        return Some(s.clone());
                    },
                    _ => {
                    },
                }
            }
            i = i + 1;
        }
        proof {
            assert(all.skip(i as int) =~= Seq::<Declaration>::empty());
        }
        None
    }

    /// The boolean accessor: the value of the first boolean-valued
    /// declaration carrying `prop`, absent otherwise.
    pub fn get_bool(&self, variant: usize, prop: &str) -> (r: Option<bool>)
        ensures
            r == spec_get_bool(*self, variant as int, prop@),
    {
        if variant >= self.variants.len() {
            return None;
        }
        let m = &self.variants[variant];
        if m.disabled {
            return None;
        }
        let p = prop.to_owned();
        let ghost all = m.decls@;
        let ghost key = prop@;
        let mut i: usize = 0;
        proof {
            assert(all.skip(0) =~= all);
        }
        while i < m.decls.len()
            invariant
                0 <= i <= all.len(),
                variant < self.variants@.len(),
                *m == self.variants@[variant as int],
                !m.disabled,
                all == m.decls@,
                key == p@,
                key == prop@,
                bool_lookup(all, key) == bool_lookup(all.skip(i as int), key),
            decreases all.len() - i,
        {
            proof {
                assert(all.skip(i as int).drop_first() =~= all.skip(i + 1));
                assert(all.skip(i as int)[0] == all[i as int]);
            }
            let d = &m.decls[i];
            if d.key == p {
                match &d.value {
                    PropertyValue::Bool(b) => {
                        proof {
                            assert(bool_lookup(all.skip(i as int), key) == Some(*b));
                        }
                        return Some(*b);
                    },
                    _ => {
                    },
                }
            }
            i = i + 1;
        }
        proof {
            assert(all.skip(i as int) =~= Seq::<Declaration>::empty());
        }
        None
    }

    /// The integer accessor: the value of the first integer-valued
    /// declaration carrying `prop`, absent otherwise.
    pub fn get_int(&self, variant: usize, prop: &str) -> (r: Option<u64>)
        ensures
            r == spec_get_int(*self, variant as int, prop@),
    {
        if variant >= self.variants.len() {
            return None;
        }
        let m = &self.variants[variant];
        if m.disabled {
            return None;
        }
        let p = prop.to_owned();
        let ghost all = m.decls@;
        let ghost key = prop@;
        let mut i: usize = 0;
        proof {
            assert(all.skip(0) =~= all);
        }
        while i < m.decls.len()
            invariant
                0 <= i <= all.len(),
                variant < self.variants@.len(),
                *m == self.variants@[variant as int],
                !m.disabled,
                all == m.decls@,
                key == p@,
                key == prop@,
                int_lookup(all, key) == int_lookup(all.skip(i as int), key),
            decreases all.len() - i,
        {
            proof {
                assert(all.skip(i as int).drop_first() =~= all.skip(i + 1));
                assert(all.skip(i as int)[0] == all[i as int]);
            }
            let d = &m.decls[i];
            if d.key == p {
                match &d.value {
                    PropertyValue::Num(n) => {
                        proof {
                            assert(int_lookup(all.skip(i as int), key) == Some(*n));
                        }
                        return Some(*n);
                    },
                    _ => {
                    },
                }
            }
            i = i + 1;
        }
        proof {
            assert(all.skip(i as int) =~= Seq::<Declaration>::empty());
        }
        None
    }

    /// The unified accessor: keyed purely by literal key match, ignoring
    /// the declared value kind, and returning the first declared value's
    /// literal rendering.
    pub fn get(&self, variant: usize, prop: &str) -> (r: Option<String>)
        ensures
            opt_str_matches(r, spec_get(*self, variant as int, prop@)),
    {
        if variant >= self.variants.len() {
            return None;
        }
        let m = &self.variants[variant];
        if m.disabled {
            return None;
        }
        let p = prop.to_owned();
        let ghost all = m.decls@;
        let ghost key = prop@;
        let mut i: usize = 0;
        proof {
            assert(all.skip(0) =~= all);
        }
        while i < m.decls.len()
            invariant
                0 <= i <= all.len(),
                variant < self.variants@.len(),
                *m == self.variants@[variant as int],
                !m.disabled,
                all == m.decls@,
                key == p@,
                key == prop@,
                raw_lookup(all, key) == raw_lookup(all.skip(i as int), key),
            decreases all.len() - i,
        {
            proof {
                assert(all.skip(i as int).drop_first() =~= all.skip(i + 1));
                assert(all.skip(i as int)[0] == all[i as int]);
            }
            let d = &m.decls[i];
            if d.key == p {
                proof {
                    assert(raw_lookup(all.skip(i as int), key) == Some(d.value@));
                }
                return Some(d.value.emit());
            }
            i = i + 1;
        }
        proof {
            assert(all.skip(i as int) =~= Seq::<Declaration>::empty());
        }
        None
    }
}

/// A string lookup succeeds exactly when some declaration carries the key
/// with a string value.
proof fn lemma_str_lookup_some_iff(decls: Seq<Declaration>, key: Seq<char>)
    ensures
        (str_lookup(decls, key) is Some) <==> exists|i: int|
            0 <= i < decls.len() && (#[trigger] decls[i]).key@ == key && decls[i].value@ is Str,
    decreases decls.len(),
{
    if decls.len() == 0 {
    } else if decls[0].key@ == key && decls[0].value@ is Str {
        assert(decls[0].key@ == key && decls[0].value@ is Str);
    } else {
        let rest = decls.drop_first();
        lemma_str_lookup_some_iff(rest, key);
        if str_lookup(decls, key) is Some {
            let i = choose|i: int|
                0 <= i < rest.len() && (#[trigger] rest[i]).key@ == key && rest[i].value@ is Str;
            assert(decls[i + 1].key@ == key && decls[i + 1].value@ is Str);
        }
        if exists|i: int|
            0 <= i < decls.len() && (#[trigger] decls[i]).key@ == key && decls[i].value@ is Str {
            let i = choose|i: int|
                0 <= i < decls.len() && (#[trigger] decls[i]).key@ == key && decls[i].value@ is Str;
            assert(rest[i - 1].key@ == key && rest[i - 1].value@ is Str);
        }
    }
}

/// A boolean lookup succeeds exactly when some declaration carries the key
/// with a boolean value.
proof fn lemma_bool_lookup_some_iff(decls: Seq<Declaration>, key: Seq<char>)
    ensures
        (bool_lookup(decls, key) is Some) <==> exists|i: int|
            0 <= i < decls.len() && (#[trigger] decls[i]).key@ == key && decls[i].value@ is Bool,
    decreases decls.len(),
{
    if decls.len() == 0 {
    } else if decls[0].key@ == key && decls[0].value@ is Bool {
        assert(decls[0].key@ == key && decls[0].value@ is Bool);
    } else {
        let rest = decls.drop_first();
        lemma_bool_lookup_some_iff(rest, key);
        if bool_lookup(decls, key) is Some {
            let i = choose|i: int|
                0 <= i < rest.len() && (#[trigger] rest[i]).key@ == key && rest[i].value@ is Bool;
            assert(decls[i + 1].key@ == key && decls[i + 1].value@ is Bool);
        }
        if exists|i: int|
            0 <= i < decls.len() && (#[trigger] decls[i]).key@ == key && decls[i].value@ is Bool {
            let i = choose|i: int|
                0 <= i < decls.len() && (#[trigger] decls[i]).key@ == key && decls[i].value@ is Bool;
            assert(rest[i - 1].key@ == key && rest[i - 1].value@ is Bool);
        }
    }
}

/// An integer lookup succeeds exactly when some declaration carries the key
/// with an integer value.
proof fn lemma_int_lookup_some_iff(decls: Seq<Declaration>, key: Seq<char>)
    ensures
        (int_lookup(decls, key) is Some) <==> exists|i: int|
            0 <= i < decls.len() && (#[trigger] decls[i]).key@ == key && decls[i].value@ is Num,
    decreases decls.len(),
{
    if decls.len() == 0 {
    } else if decls[0].key@ == key && decls[0].value@ is Num {
        assert(decls[0].key@ == key && decls[0].value@ is Num);
    } else {
        let rest = decls.drop_first();
        lemma_int_lookup_some_iff(rest, key);
        if int_lookup(decls, key) is Some {
            let i = choose|i: int|
                0 <= i < rest.len() && (#[trigger] rest[i]).key@ == key && rest[i].value@ is Num;
            assert(decls[i + 1].key@ == key && decls[i + 1].value@ is Num);
        }
        if exists|i: int|
            0 <= i < decls.len() && (#[trigger] decls[i]).key@ == key && decls[i].value@ is Num {
            let i = choose|i: int|
                0 <= i < decls.len() && (#[trigger] decls[i]).key@ == key && decls[i].value@ is Num;
            assert(rest[i - 1].key@ == key && rest[i - 1].value@ is Num);
        }
    }
}

/// A unified lookup succeeds exactly when some declaration carries the key.
proof fn lemma_raw_lookup_some_iff(decls: Seq<Declaration>, key: Seq<char>)
    ensures
        (raw_lookup(decls, key) is Some) <==> contains_key(decl_keys(decls), key),
    decreases decls.len(),
{
    if decls.len() == 0 {
    } else if decls[0].key@ == key {
        assert(decl_keys(decls)[0] == key);
    } else {
        let rest = decls.drop_first();
        lemma_raw_lookup_some_iff(rest, key);
        if raw_lookup(decls, key) is Some {
            let i = choose|i: int| 0 <= i < rest.len() && decl_keys(rest)[i] == key;
            assert(decl_keys(decls)[i + 1] == key);
        }
        if contains_key(decl_keys(decls), key) {
            let i = choose|i: int| 0 <= i < decls.len() && decl_keys(decls)[i] == key;
            assert(decl_keys(rest)[i - 1] == key);
        }
    }
}

/// Totality: for every variant number and every key — disabled variants,
/// variant numbers beyond the type and keys never declared anywhere
/// included — each accessor yields a defined present-or-absent result, and
/// it is present exactly when the variant takes part in lookups and some
/// declaration of the matching kind carries the key.
pub proof fn lemma_accessor_total(a: Accessor, v: int, key: Seq<char>)
    ensures
        (spec_get_str(a, v, key) is Some) <==> (variant_enabled(a, v) && exists|i: int|
            0 <= i < a.variants@[v].decls@.len() && (#[trigger] a.variants@[v].decls@[i]).key@
                == key && a.variants@[v].decls@[i].value@ is Str),
        (spec_get_bool(a, v, key) is Some) <==> (variant_enabled(a, v) && exists|i: int|
            0 <= i < a.variants@[v].decls@.len() && (#[trigger] a.variants@[v].decls@[i]).key@
                == key && a.variants@[v].decls@[i].value@ is Bool),
        (spec_get_int(a, v, key) is Some) <==> (variant_enabled(a, v) && exists|i: int|
            0 <= i < a.variants@[v].decls@.len() && (#[trigger] a.variants@[v].decls@[i]).key@
                == key && a.variants@[v].decls@[i].value@ is Num),
        (spec_get(a, v, key) is Some) <==> (variant_enabled(a, v) && contains_key(
            decl_keys(a.variants@[v].decls@),
            key,
        )),
{
    if variant_enabled(a, v) {
        lemma_str_lookup_some_iff(a.variants@[v].decls@, key);
        lemma_bool_lookup_some_iff(a.variants@[v].decls@, key);
        lemma_int_lookup_some_iff(a.variants@[v].decls@, key);
        lemma_raw_lookup_some_iff(a.variants@[v].decls@, key);
    }
}

/// Disabled-variant absence: on a disabled variant every lookup is absent,
/// for every key and every accessor kind.
pub proof fn lemma_disabled_absent(a: Accessor, v: int, key: Seq<char>)
    requires
        0 <= v < a.variants@.len(),
        a.variants@[v].disabled,
    ensures
        spec_get_str(a, v, key) is None,
        spec_get_bool(a, v, key) is None,
        spec_get_int(a, v, key) is None,
        spec_get(a, v, key) is None,
{
}

/// The string lookup returns the value of the earliest string-valued
/// declaration carrying the key.
proof fn lemma_str_lookup_first(decls: Seq<Declaration>, key: Seq<char>, i: int)
    requires
        0 <= i < decls.len(),
        decls[i].key@ == key,
        decls[i].value@ is Str,
        forall|i2: int|
            0 <= i2 < i ==> !((#[trigger] decls[i2]).key@ == key && decls[i2].value@ is Str),
    ensures
        str_lookup(decls, key) == Some(decls[i].value@->Str_0),
    decreases i,
{
    if i == 0 {
    } else {
        assert(!(decls[0].key@ == key && decls[0].value@ is Str));
        let rest = decls.drop_first();
        assert(rest[i - 1] == decls[i]);
        assert(forall|i2: int|
            0 <= i2 < i - 1 ==> !((#[trigger] rest[i2]).key@ == key && rest[i2].value@ is Str));
        lemma_str_lookup_first(rest, key, i - 1);
    }
}

/// The unified lookup returns the value of the earliest declaration
/// carrying the key, whatever its kind.
proof fn lemma_raw_lookup_first(decls: Seq<Declaration>, key: Seq<char>, i: int)
    requires
        0 <= i < decls.len(),
        decls[i].key@ == key,
        forall|i2: int| 0 <= i2 < i ==> (#[trigger] decls[i2]).key@ != key,
    ensures
        raw_lookup(decls, key) == Some(decls[i].value@),
    decreases i,
{
    if i == 0 {
    } else {
        let rest = decls.drop_first();
        assert(rest[i - 1] == decls[i]);
        assert(forall|i2: int| 0 <= i2 < i - 1 ==> (#[trigger] rest[i2]).key@ != key);
        lemma_raw_lookup_first(rest, key, i - 1);
    }
}

/// First match wins for the string accessor: if declaration `i` carries the
/// key with a string value and no earlier declaration does — in particular
/// when the same key is declared twice with different values — the accessor
/// returns the value of declaration `i`.
pub proof fn lemma_first_match_wins_str(a: Accessor, v: int, key: Seq<char>, i: int)
    requires
        variant_enabled(a, v),
        0 <= i < a.variants@[v].decls@.len(),
        a.variants@[v].decls@[i].key@ == key,
        a.variants@[v].decls@[i].value@ is Str,
        forall|i2: int|
            0 <= i2 < i ==> !((#[trigger] a.variants@[v].decls@[i2]).key@ == key
                && a.variants@[v].decls@[i2].value@ is Str),
    ensures
        spec_get_str(a, v, key) == Some(a.variants@[v].decls@[i].value@->Str_0),
{
    lemma_str_lookup_first(a.variants@[v].decls@, key, i);
}

/// First match wins for the unified accessor: if declaration `i` is the
/// earliest one carrying the key, the accessor returns the rendering of its
/// value, shadowing every later declaration of the same key.
pub proof fn lemma_first_match_wins(a: Accessor, v: int, key: Seq<char>, i: int)
    requires
        variant_enabled(a, v),
        0 <= i < a.variants@[v].decls@.len(),
        a.variants@[v].decls@[i].key@ == key,
        forall|i2: int| 0 <= i2 < i ==> (#[trigger] a.variants@[v].decls@[i2]).key@ != key,
    ensures
        spec_get(a, v, key) == Some(emit_spec(a.variants@[v].decls@[i].value@)),
{
    lemma_raw_lookup_first(a.variants@[v].decls@, key, i);
}

} // verus!
