//! What holds of every derivation, stated over the declaration and the
//! methods derived from it.

use vstd::prelude::*;
use crate::collect::{lemma_first_occurrence, lemma_named_fields, Position};
use crate::declaration::{EnumView, VariantView};
use crate::emit::{emitted_text, method_name, method_text, methods_text, stem};
use crate::sequences::{
    lemma_filter_push, lemma_first_occurrences_contains, lemma_first_occurrences_distinct,
};
use crate::synth::{ArmShape, MethodKind, MethodView, Outcome};

verus! {

impl EnumView {
    /// How many fields of the first `upto` variants are named `field`.
    pub open spec fn total_upto(self, field: Seq<char>, upto: nat) -> nat
        decreases upto,
    {
        if upto == 0 {
            0
        } else {
            self.total_upto(field, (upto - 1) as nat) + self.variants[upto - 1].count(field)
        }
    }

    /// Whether the field `field` of every variant that has one is declared
    /// with the type `ty`.
    pub open spec fn typed(self, field: Seq<char>, ty: Seq<char>) -> bool {
        forall|i: int, j: int|
            0 <= i < self.variants.len() && #[trigger] self.variants[i].names_at(j, field)
                ==> self.variants[i].named()[j].ty == ty
    }
}

/// A variant declares a field name as soon as it counts one field of it.
pub proof fn lemma_count_declares(v: VariantView, field: Seq<char>)
    ensures
        v.declares(field) <==> v.count(field) >= 1,
{
    lemma_count_upto(v, field, v.named().len());
    if v.declares(field) {
        let j = choose|j: int| v.names_at(j, field);
        assert(v.names_at(j, field));
    }
}

proof fn lemma_count_upto(v: VariantView, field: Seq<char>, upto: nat)
    requires
        upto <= v.named().len(),
    ensures
        v.count_upto(field, upto) >= 1 <==> exists|j: int| j < upto && v.names_at(j, field),
    decreases upto,
{
    if upto > 0 {
        lemma_count_upto(v, field, (upto - 1) as nat);
        if v.count_upto(field, upto) >= 1 {
            if v.names_at(upto - 1, field) {
            } else {
                let j = choose|j: int| j < upto - 1 && v.names_at(j, field);
                assert(j < upto && v.names_at(j, field));
            }
        }
        if exists|j: int| j < upto && v.names_at(j, field) {
            let j = choose|j: int| j < upto && v.names_at(j, field);
            if j < upto - 1 {
                assert(j < upto - 1 && v.names_at(j, field));
            }
        }
    }
}

proof fn lemma_variant_occurrences(e: EnumView, variant: int, field: Seq<char>, upto: nat)
    requires
        0 <= variant < e.variants.len(),
        upto <= e.variants[variant].named().len(),
    ensures
        e.variant_fields(variant, upto).filter(e.carries(field)).len() == e.variants[variant].count_upto(
            field,
            upto,
        ),
    decreases upto,
{
    if upto == 0 {
        assert(e.variant_fields(variant, upto).filter(e.carries(field)).len() == 0) by {
            reveal(Seq::filter);
        }
    } else {
        let p = Position { variant, index: upto - 1 };
        let init = e.variant_fields(variant, (upto - 1) as nat);
        lemma_variant_occurrences(e, variant, field, (upto - 1) as nat);
        lemma_filter_push(init, p, e.carries(field));
        assert(e.variant_fields(variant, upto) =~= init.push(p));
    }
}

proof fn lemma_total_upto(e: EnumView, field: Seq<char>, upto: nat)
    requires
        upto <= e.variants.len(),
    ensures
        e.fields_before(upto).filter(e.carries(field)).len() == e.total_upto(field, upto),
    decreases upto,
{
    if upto == 0 {
        assert(e.fields_before(upto).filter(e.carries(field)).len() == 0) by {
            reveal(Seq::filter);
        }
    } else {
        let init = e.fields_before((upto - 1) as nat);
        let last = e.variant_fields(upto - 1, e.variants[upto - 1].named().len());
        lemma_total_upto(e, field, (upto - 1) as nat);
        lemma_variant_occurrences(e, upto - 1, field, e.variants[upto - 1].named().len());
        Seq::filter_distributes_over_add(init, last, e.carries(field));
    }
}

proof fn lemma_total_bound(e: EnumView, field: Seq<char>, upto: nat)
    requires
        upto <= e.variants.len(),
        forall|i: int| 0 <= i < e.variants.len() ==> (#[trigger] e.variants[i]).count(field) <= 1,
    ensures
        e.total_upto(field, upto) <= upto,
        e.total_upto(field, upto) == upto <==> forall|i: int|
            0 <= i < upto ==> (#[trigger] e.variants[i]).count(field) == 1,
    decreases upto,
{
    if upto > 0 {
        lemma_total_bound(e, field, (upto - 1) as nat);
        assert(e.variants[upto - 1].count(field) <= 1);
        if e.total_upto(field, upto) == upto {
            assert forall|i: int| 0 <= i < upto implies (#[trigger] e.variants[i]).count(field)
                == 1 by {
                if i < upto - 1 {
                } else {
                }
            }
        }
    }
}

/// The fields of a name are as many as its counts in the variants add up to.
pub proof fn lemma_occurrences_total(e: EnumView, field: Seq<char>)
    ensures
        e.occurrences(field).len() == e.total_upto(field, e.variants.len()),
{
    lemma_total_upto(e, field, e.variants.len());
}

/// Where no variant declares a field name twice, the name is universal
/// exactly when every variant declares it.
pub proof fn law_universal_means_everywhere(e: EnumView, field: Seq<char>)
    requires
        forall|i: int| 0 <= i < e.variants.len() ==> (#[trigger] e.variants[i]).count(field) <= 1,
    ensures
        e.is_universal(field) <==> forall|i: int|
            0 <= i < e.variants.len() ==> (#[trigger] e.variants[i]).declares(field),
{
    lemma_occurrences_total(e, field);
    lemma_total_bound(e, field, e.variants.len());
    assert forall|i: int| 0 <= i < e.variants.len() implies ((#[trigger] e.variants[i]).declares(
        field,
    ) <==> e.variants[i].count(field) == 1) by {
        lemma_count_declares(e.variants[i], field);
    }
}

proof fn lemma_fields_before_complete(e: EnumView, upto: nat, p: Position)
    requires
        upto <= e.variants.len(),
        e.has(p),
        p.variant < upto,
    ensures
        e.fields_before(upto).contains(p),
    decreases upto,
{
    let all = e.fields_before(upto);
    let init = e.fields_before((upto - 1) as nat);
    let last = e.variant_fields(upto - 1, e.variants[upto - 1].named().len());
    if p.variant == upto - 1 {
        assert(last[p.index] == p);
        assert(all[init.len() + p.index] == p);
    } else {
        lemma_fields_before_complete(e, (upto - 1) as nat, p);
        let i = choose|i: int| 0 <= i < init.len() && init[i] == p;
        assert(all[i] == p);
    }
}

/// The field names of an enum are the names that some variant declares.
pub proof fn law_field_names(e: EnumView, field: Seq<char>)
    ensures
        e.field_names().contains(field) <==> exists|i: int|
            0 <= i < e.variants.len() && (#[trigger] e.variants[i]).declares(field),
{
    let all = e.named_fields();
    lemma_first_occurrences_contains(e.names_of(all), field);
    if e.field_names().contains(field) {
        let k = choose|k: int| 0 <= k < all.len() && e.names_of(all)[k] == field;
        lemma_named_fields(e, k);
        let p = all[k];
        assert(e.variants[p.variant].names_at(p.index, field));
        assert(e.variants[p.variant].declares(field));
    }
    if exists|i: int| 0 <= i < e.variants.len() && (#[trigger] e.variants[i]).declares(field) {
        let i = choose|i: int| 0 <= i < e.variants.len() && (#[trigger] e.variants[i]).declares(field);
        let j = choose|j: int| e.variants[i].names_at(j, field);
        let p = Position { variant: i, index: j };
        lemma_fields_before_complete(e, e.variants.len(), p);
        let k = choose|k: int| 0 <= k < all.len() && all[k] == p;
        assert(e.names_of(all)[k] == field);
    }
}

proof fn lemma_methods_upto(e: EnumView, upto: nat)
    requires
        upto <= e.field_names().len(),
    ensures
        forall|k: int|
            0 <= k < upto ==> e.methods_upto(upto).contains(
                #[trigger] e.accessor(e.field_names()[k]),
            ),
        forall|k: int|
            0 <= k < upto && e.is_universal(e.field_names()[k]) ==> e.methods_upto(upto).contains(
                #[trigger] e.setter(e.field_names()[k]),
            ),
        forall|n: int|
            0 <= n < e.methods_upto(upto).len() ==> exists|k: int|
                0 <= k < upto && derived_for(e, e.field_names()[k], #[trigger] e.methods_upto(upto)[n]),
    decreases upto,
{
    if upto > 0 {
        lemma_methods_upto(e, (upto - 1) as nat);
        let init = e.methods_upto((upto - 1) as nat);
        let field = e.field_names()[upto - 1];
        let last = e.methods_for(field);
        let all = e.methods_upto(upto);
        assert(all == init + last);
        assert forall|k: int| 0 <= k < upto implies all.contains(
            #[trigger] e.accessor(e.field_names()[k]),
        ) by {
            if k < upto - 1 {
                let n = choose|n: int|
                    0 <= n < init.len() && init[n] == e.accessor(e.field_names()[k]);
                assert(all[n] == init[n]);
            } else {
                assert(all[all.len() - 1] == e.accessor(field));
            }
        }
        assert forall|k: int| 0 <= k < upto && e.is_universal(e.field_names()[k]) implies all.contains(
            #[trigger] e.setter(e.field_names()[k]),
        ) by {
            if k < upto - 1 {
                let n = choose|n: int|
                    0 <= n < init.len() && init[n] == e.setter(e.field_names()[k]);
                assert(all[n] == init[n]);
            } else {
                assert(all[init.len() as int] == e.setter(field));
            }
        }
        assert forall|n: int| 0 <= n < all.len() implies exists|k: int|
            0 <= k < upto && derived_for(e, e.field_names()[k], #[trigger] all[n]) by {
            if n < init.len() {
                assert(all[n] == init[n]);
                let k = choose|k: int|
                    0 <= k < upto - 1 && derived_for(e, e.field_names()[k], init[n]);
                assert(0 <= k < upto && derived_for(e, e.field_names()[k], all[n]));
            } else {
                assert(all[n] == last[n - init.len()]);
                assert(derived_for(e, e.field_names()[upto - 1], all[n]));
            }
        }
    }
}

/// Whether `m` is one of the methods derived for the field name `field`: its
/// accessor, or its setter where the field is universal.
pub open spec fn derived_for(e: EnumView, field: Seq<char>, m: MethodView) -> bool {
    m == e.accessor(field) || (e.is_universal(field) && m == e.setter(field))
}

/// The derived methods are the accessor of each field name that some variant
/// declares and the setter of each such name that is universal, and no
/// others.
pub proof fn law_methods(e: EnumView, m: MethodView)
    ensures
        e.methods().contains(m) <==> exists|field: Seq<char>|
            e.field_names().contains(field) && #[trigger] derived_for(e, field, m),
{
    lemma_methods_upto(e, e.field_names().len());
    let names = e.field_names();
    if e.methods().contains(m) {
        let n = choose|n: int| 0 <= n < e.methods().len() && e.methods()[n] == m;
        let k = choose|k: int| 0 <= k < names.len() && derived_for(e, names[k], e.methods()[n]);
        assert(names.contains(names[k]) && derived_for(e, names[k], m));
    }
    if exists|field: Seq<char>| names.contains(field) && #[trigger] derived_for(e, field, m) {
        let field = choose|field: Seq<char>| names.contains(field) && #[trigger] derived_for(e, field, m);
        let k = choose|k: int| 0 <= k < names.len() && names[k] == field;
        assert(e.methods().contains(e.accessor(names[k])));
        if e.is_universal(field) {
            assert(e.methods().contains(e.setter(names[k])));
        }
    }
}

proof fn lemma_methods_distinct(e: EnumView, upto: nat)
    requires
        upto <= e.field_names().len(),
    ensures
        e.methods_upto(upto).no_duplicates(),
    decreases upto,
{
    if upto > 0 {
        lemma_methods_distinct(e, (upto - 1) as nat);
        lemma_methods_upto(e, (upto - 1) as nat);
        lemma_first_occurrences_distinct(e.names_of(e.named_fields()));
        let init = e.methods_upto((upto - 1) as nat);
        let field = e.field_names()[upto - 1];
        let last = e.methods_for(field);
        let all = e.methods_upto(upto);
        assert(all == init + last);
        assert forall|i: int, j: int| 0 <= i < all.len() && 0 <= j < all.len() && i != j implies all[i]
            != all[j] by {
            if i < init.len() && j < init.len() {
                assert(all[i] == init[i] && all[j] == init[j]);
            } else if i >= init.len() && j >= init.len() {
                assert(all[i] == last[i - init.len()] && all[j] == last[j - init.len()]);
            } else {
                let (early, late) = if i < init.len() {
                    (i, j)
                } else {
                    (j, i)
                };
                assert(all[early] == init[early]);
                assert(all[late] == last[late - init.len()]);
                let k = choose|k: int|
                    0 <= k < upto - 1 && derived_for(e, e.field_names()[k], init[early]);
                assert(init[early].field == e.field_names()[k]);
                assert(all[late].field == field);
            }
        }
    }
}

/// No method is derived twice: each field name has one accessor and at most
/// one setter.
pub proof fn law_methods_distinct(e: EnumView)
    ensures
        e.methods().no_duplicates(),
{
    lemma_methods_distinct(e, e.field_names().len());
}

/// A field that every variant declares once, with one type, gets a direct
/// accessor: it is among the derived methods, is named `<field>_mut`, returns
/// a mutable reference to that type without a wrapper, and has for each
/// variant, in declaration order, an arm that hands out the field it binds.
pub proof fn law_universal_accessor(e: EnumView, field: Seq<char>, ty: Seq<char>)
    requires
        e.variants.len() > 0,
        forall|i: int| 0 <= i < e.variants.len() ==> (#[trigger] e.variants[i]).count(field) == 1,
        e.typed(field, ty),
    ensures
        e.methods().contains(e.accessor(field)),
        e.accessor(field).kind == MethodKind::DirectAccessor,
        e.accessor(field).field_type == ty,
        method_name(e.accessor(field).kind, field) == stem(field) + "_mut"@,
        e.accessor(field).arms.len() == e.variants.len(),
        forall|i: int|
            0 <= i < e.variants.len() ==> {
                &&& (#[trigger] e.accessor(field).arms[i]).variant == e.variants[i].name
                &&& e.accessor(field).outcome_at(i) == Outcome::Reference
            },
{
    lemma_everywhere(e, field, ty);
    law_methods(e, e.accessor(field));
    assert(derived_for(e, field, e.accessor(field)));
}

/// What follows for a field that every variant declares once: it is a
/// universal field name, each variant binds it, and the type that stands for
/// it is the one type it is declared with.
proof fn lemma_everywhere(e: EnumView, field: Seq<char>, ty: Seq<char>)
    requires
        e.variants.len() > 0,
        forall|i: int| 0 <= i < e.variants.len() ==> (#[trigger] e.variants[i]).count(field) == 1,
        e.typed(field, ty),
    ensures
        e.is_universal(field),
        e.field_names().contains(field),
        e.first_type(field) == ty,
        forall|i: int| 0 <= i < e.variants.len() ==> (#[trigger] e.variants[i]).declares(field),
{
    assert forall|i: int| 0 <= i < e.variants.len() implies (#[trigger] e.variants[i]).declares(
        field,
    ) by {
        lemma_count_declares(e.variants[i], field);
    }
    law_universal_means_everywhere(e, field);
    assert(e.variants[0].declares(field));
    law_field_names(e, field);
    lemma_first_type(e, field, ty);
}

/// The type that stands for a field name is the type of one of its fields.
proof fn lemma_first_type(e: EnumView, field: Seq<char>, ty: Seq<char>)
    requires
        e.field_names().contains(field),
        e.typed(field, ty),
    ensures
        e.first_type(field) == ty,
{
    let k = choose|k: int| 0 <= k < e.field_names().len() && e.field_names()[k] == field;
    lemma_first_occurrence(e, k);
    let p = e.occurrences(field)[0];
    assert(e.variants[p.variant].names_at(p.index, field));
}

/// A field name that some variant declares and that is not universal gets an
/// optional accessor: it is among the derived methods, is named
/// `<field>_mut`, and has for each variant, in declaration order, an arm that
/// hands out the field as present where the variant declares it, and the
/// absent value where it does not.
pub proof fn law_partial_accessor(e: EnumView, field: Seq<char>)
    requires
        exists|i: int| 0 <= i < e.variants.len() && (#[trigger] e.variants[i]).declares(field),
        !e.is_universal(field),
    ensures
        e.methods().contains(e.accessor(field)),
        e.accessor(field).kind == MethodKind::OptionalAccessor,
        method_name(e.accessor(field).kind, field) == stem(field) + "_mut"@,
        e.accessor(field).arms.len() == e.variants.len(),
        forall|i: int|
            0 <= i < e.variants.len() ==> {
                &&& (#[trigger] e.accessor(field).arms[i]).variant == e.variants[i].name
                &&& e.accessor(field).outcome_at(i) == if e.variants[i].declares(field) {
                    Outcome::Present
                } else {
                    Outcome::Absent
                }
            },
{
    law_field_names(e, field);
    law_methods(e, e.accessor(field));
    assert(derived_for(e, field, e.accessor(field)));
}

/// A field that every variant declares once, with one type, gets a swap
/// setter: it is among the derived methods, is named `set_<field>`, takes a
/// mutable reference to a value of that type, and has for each variant, in
/// declaration order, an arm that exchanges the field it binds with the
/// caller's value.
pub proof fn law_universal_setter(e: EnumView, field: Seq<char>, ty: Seq<char>)
    requires
        e.variants.len() > 0,
        forall|i: int| 0 <= i < e.variants.len() ==> (#[trigger] e.variants[i]).count(field) == 1,
        e.typed(field, ty),
    ensures
        e.methods().contains(e.setter(field)),
        e.setter(field).kind == MethodKind::SwapSetter,
        e.setter(field).field_type == ty,
        method_name(e.setter(field).kind, field) == "set_"@ + stem(field),
        e.setter(field).arms.len() == e.variants.len(),
        forall|i: int|
            0 <= i < e.variants.len() ==> {
                &&& (#[trigger] e.setter(field).arms[i]).variant == e.variants[i].name
                &&& e.setter(field).outcome_at(i) == Outcome::Exchange
            },
{
    lemma_everywhere(e, field, ty);
    law_methods(e, e.setter(field));
    assert(derived_for(e, field, e.setter(field)));
}

/// A field name that is not universal gets no swap setter.
pub proof fn law_no_setter(e: EnumView, field: Seq<char>, m: MethodView)
    requires
        !e.is_universal(field),
        e.methods().contains(m),
        m.kind == MethodKind::SwapSetter,
    ensures
        m.field != field,
{
    law_methods(e, m);
}

/// Where a field name is not universal, no derived method is named
/// `set_<field>`, unless a method of another field bears that name: the
/// accessor of a field `g` with `g_mut` equal to `set_<field>`, or the setter
/// of a universal field that is the same identifier written otherwise, with
/// `r#` or without.
pub proof fn law_no_setter_name(e: EnumView, field: Seq<char>, m: MethodView)
    requires
        !e.is_universal(field),
        forall|g: Seq<char>|
            e.field_names().contains(g) ==> stem(g) + "_mut"@ != "set_"@ + stem(field),
        forall|g: Seq<char>|
            e.field_names().contains(g) && e.is_universal(g) ==> stem(g) != stem(field),
        e.methods().contains(m),
    ensures
        method_name(m.kind, m.field) != "set_"@ + stem(field),
{
    law_methods(e, m);
    let g = choose|g: Seq<char>| e.field_names().contains(g) && #[trigger] derived_for(e, g, m);
    assert(m.field == g);
    if m.kind == MethodKind::SwapSetter {
        let a = stem(g);
        let b = stem(field);
        if "set_"@ + a == "set_"@ + b {
            assert(a =~= ("set_"@ + a).subrange("set_"@.len() as int, ("set_"@ + a).len() as int));
            assert(b =~= ("set_"@ + b).subrange("set_"@.len() as int, ("set_"@ + b).len() as int));
        }
    }
}

/// The pattern of an arm fits the way its variant is written: it binds the
/// field only where the variant declares it, among named fields, and else is
/// braced for a variant written with braces, parenthesised for one written
/// with parentheses, and the bare path for a unit. Empty braces and empty
/// parentheses count as written.
pub proof fn law_arm_fits_variant(v: VariantView, field: Seq<char>)
    ensures
        match v.arm_shape(field) {
            ArmShape::Bound => v.declares(field) && v.fields is Named,
            ArmShape::Braced => !v.declares(field) && v.fields is Named,
            ArmShape::Tuple => !v.declares(field) && v.fields is Positional,
            ArmShape::Unit => !v.declares(field) && v.fields is Unit,
        },
{
    if v.declares(field) {
        let j = choose|j: int| v.names_at(j, field);
        assert(v.named().len() > 0);
    }
}

/// The type in an accessor's header is the type that the field is declared
/// with, where it is declared with one type throughout.
pub proof fn law_accessor_type(e: EnumView, field: Seq<char>, ty: Seq<char>)
    requires
        exists|i: int| 0 <= i < e.variants.len() && (#[trigger] e.variants[i]).declares(field),
        e.typed(field, ty),
    ensures
        e.accessor(field).field_type == ty,
{
    law_field_names(e, field);
    lemma_first_type(e, field, ty);
}

/// Whether `part` stands in `whole` at the offset `at`, letter for letter.
pub open spec fn stands_at(whole: Seq<char>, part: Seq<char>, at: int) -> bool {
    0 <= at && at + part.len() <= whole.len() && whole.subrange(at, at + part.len()) == part
}

proof fn lemma_block_in_text(e: EnumView, methods: Seq<MethodView>, upto: nat, k: int)
    requires
        0 <= k < upto <= methods.len(),
    ensures
        exists|at: int| stands_at(methods_text(e, methods, upto), method_text(e, methods[k]), at),
    decreases upto,
{
    let init = methods_text(e, methods, (upto - 1) as nat);
    let last = method_text(e, methods[upto - 1]);
    let all = methods_text(e, methods, upto);
    assert(all == init + last);
    if k == upto - 1 {
        assert(all.subrange(init.len() as int, (init.len() + last.len()) as int) =~= last);
        assert(stands_at(all, last, init.len() as int));
    } else {
        lemma_block_in_text(e, methods, (upto - 1) as nat, k);
        let part = method_text(e, methods[k]);
        let at = choose|at: int| stands_at(init, part, at);
        assert(all.subrange(at, at + part.len()) =~= init.subrange(at, at + part.len()));
        assert(stands_at(all, part, at));
    }
}

/// Every derived method has its implementation block in the derived text:
/// the block stands there whole, at some offset.
pub proof fn law_method_in_text(e: EnumView, m: MethodView)
    requires
        e.methods().contains(m),
    ensures
        exists|at: int| stands_at(emitted_text(e, e.methods()), method_text(e, m), at),
{
    let k = choose|k: int| 0 <= k < e.methods().len() && e.methods()[k] == m;
    lemma_block_in_text(e, e.methods(), e.methods().len(), k);
    let at = choose|at: int|
        stands_at(
            methods_text(e, e.methods(), e.methods().len()),
            method_text(e, e.methods()[k]),
            at,
        );
    assert(stands_at(emitted_text(e, e.methods()), method_text(e, m), at));
}

} // verus!
