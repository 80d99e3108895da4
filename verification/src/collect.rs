//! The field collector: which field names an enum's variants carry, and
//! where.

use vstd::prelude::*;
use crate::declaration::{EnumDeclaration, EnumView, Field, Fields};
use crate::sequences::{
    first_occurrences, lemma_filter_none, lemma_filter_push, lemma_first_occurrences_contains,
    lemma_first_occurrences_distinct, lemma_first_occurrences_push,
};

verus! {

/// The place of a named field in an enum: the index of its variant, and its
/// index among that variant's named fields.
#[derive(Debug, Clone, Copy, PartialEq, Eq)]
pub struct FieldRef {
    pub variant: usize,
    pub index: usize,
}

/// The value of a [`FieldRef`].
pub struct Position {
    pub variant: int,
    pub index: int,
}

impl View for FieldRef {
    type V = Position;

    open spec fn view(&self) -> Position {
        Position { variant: self.variant as int, index: self.index as int }
    }
}

/// A field name together with every field of that name, in declaration order.
#[derive(Debug, Clone, PartialEq, Eq)]
pub struct FieldEntry {
    pub name: String,
    pub fields: Vec<FieldRef>,
}

/// The value of a [`FieldEntry`].
pub struct EntryView {
    pub name: Seq<char>,
    pub fields: Seq<Position>,
}

impl View for FieldEntry {
    type V = EntryView;

    open spec fn view(&self) -> EntryView {
        EntryView { name: self.name@, fields: self.fields@.map_values(|r: FieldRef| r@) }
    }
}

/// The field names of an enum, in the order in which they first occur, each
/// with the fields that carry it.
#[derive(Debug, Clone, PartialEq, Eq)]
pub struct FieldPresenceMap {
    pub entries: Vec<FieldEntry>,
}

impl View for FieldPresenceMap {
    type V = Seq<EntryView>;

    open spec fn view(&self) -> Seq<EntryView> {
        self.entries@.map_values(|e: FieldEntry| e@)
    }
}

impl EnumView {
    /// Whether `p` is the place of a named field of this enum.
    pub open spec fn has(self, p: Position) -> bool {
        &&& 0 <= p.variant < self.variants.len()
        &&& 0 <= p.index < self.variants[p.variant].named().len()
    }

    /// The name of the field at `p`.
    pub open spec fn name_at(self, p: Position) -> Seq<char> {
        self.variants[p.variant].named()[p.index].name
    }

    /// The declared type of the field at `p`.
    pub open spec fn type_at(self, p: Position) -> Seq<char> {
        self.variants[p.variant].named()[p.index].ty
    }

    /// The test that the field at a place is named `field`.
    pub open spec fn carries(self, field: Seq<char>) -> spec_fn(Position) -> bool {
        |p: Position| self.name_at(p) == field
    }

    /// The places of the first `count` named fields of variant `variant`.
    pub open spec fn variant_fields(self, variant: int, count: nat) -> Seq<Position> {
        Seq::new(count, |j: int| Position { variant, index: j })
    }

    /// The places of the named fields of the first `count` variants, in
    /// declaration order.
    pub open spec fn fields_before(self, count: nat) -> Seq<Position>
        decreases count,
    {
        if count == 0 {
            Seq::empty()
        } else {
            self.fields_before((count - 1) as nat) + self.variant_fields(
                count - 1,
                self.variants[count - 1].named().len(),
            )
        }
    }

    /// The places of all named fields, in declaration order.
    pub open spec fn named_fields(self) -> Seq<Position> {
        self.fields_before(self.variants.len())
    }

    /// The names of the fields at `places`.
    pub open spec fn names_of(self, places: Seq<Position>) -> Seq<Seq<char>> {
        places.map_values(|p: Position| self.name_at(p))
    }

    /// The entries for the fields at `places`: one for each distinct name, in
    /// the order in which the names first occur, holding the places that
    /// carry that name in the order of `places`.
    pub open spec fn grouped(self, places: Seq<Position>) -> Seq<EntryView> {
        let names = first_occurrences(self.names_of(places));
        Seq::new(
            names.len(),
            |k: int| EntryView { name: names[k], fields: places.filter(self.carries(names[k])) },
        )
    }

    /// The distinct field names, in the order in which they first occur.
    pub open spec fn field_names(self) -> Seq<Seq<char>> {
        first_occurrences(self.names_of(self.named_fields()))
    }

    /// The places of the fields named `field`, in declaration order.
    pub open spec fn occurrences(self, field: Seq<char>) -> Seq<Position> {
        self.named_fields().filter(self.carries(field))
    }

    /// A field name is universal when it has as many fields as the enum has
    /// variants. Variants without named fields count among the variants, so
    /// one of them makes no name universal. Where no variant declares the
    /// name twice, as in every declaration that compiles, the name is
    /// universal exactly when every variant declares it.
    pub open spec fn is_universal(self, field: Seq<char>) -> bool {
        self.occurrences(field).len() == self.variants.len()
    }

    /// Entry `k` carries the `k`-th distinct field name and all its fields.
    pub open spec fn presence_map(self) -> Seq<EntryView> {
        Seq::new(
            self.field_names().len(),
            |k: int|
                EntryView {
                    name: self.field_names()[k],
                    fields: self.occurrences(self.field_names()[k]),
                },
        )
    }
}

/// What one more field at the end does to the entries: it joins the entry of
/// its name, or opens a new entry behind the others.
proof fn lemma_grouped_push(e: EnumView, places: Seq<Position>, p: Position)
    ensures
        ({
            let field = e.name_at(p);
            let before = e.grouped(places);
            let after = e.grouped(places.push(p));
            &&& forall|k: int|
                0 <= k < before.len() && before[k].name == field ==> after == before.update(
                    k,
                    EntryView { name: field, fields: before[k].fields.push(p) },
                )
            &&& (forall|k: int| 0 <= k < before.len() ==> before[k].name != field) ==> after
                == before.push(EntryView { name: field, fields: seq![p] })
        }),
{
    let field = e.name_at(p);
    let names = first_occurrences(e.names_of(places));
    let before = e.grouped(places);
    let after = e.grouped(places.push(p));
    assert(e.names_of(places.push(p)) =~= e.names_of(places).push(field));
    lemma_first_occurrences_push(e.names_of(places), field);
    lemma_first_occurrences_distinct(e.names_of(places));
    assert forall|k: int| 0 <= k < names.len() implies places.push(p).filter(e.carries(names[k]))
        == if names[k] == field {
        places.filter(e.carries(names[k])).push(p)
    } else {
        places.filter(e.carries(names[k]))
    } by {
        lemma_filter_push(places, p, e.carries(names[k]));
    }
    assert forall|k: int| 0 <= k < before.len() && before[k].name == field implies after
        == before.update(k, EntryView { name: field, fields: before[k].fields.push(p) }) by {
        assert(names[k] == field);
        assert(names.contains(field));
        assert(after =~= before.update(
            k,
            EntryView { name: field, fields: before[k].fields.push(p) },
        ));
    }
    if forall|k: int| 0 <= k < before.len() ==> before[k].name != field {
        if names.contains(field) {
            let k = choose|k: int| 0 <= k < names.len() && names[k] == field;
            assert(before[k].name == field);
        }
        lemma_first_occurrences_contains(e.names_of(places), field);
        assert forall|i: int| 0 <= i < places.len() implies !(e.carries(field))(
            #[trigger] places[i],
        ) by {
            if e.name_at(places[i]) == field {
                assert(e.names_of(places)[i] == field);
            }
        }
        lemma_filter_none(places, e.carries(field));
        lemma_filter_push(places, p, e.carries(field));
        assert(Seq::<Position>::empty().push(p) =~= seq![p]);
        assert(after =~= before.push(EntryView { name: field, fields: seq![p] }));
    }
}

proof fn lemma_fields_before(e: EnumView, count: nat, i: int)
    requires
        count <= e.variants.len(),
        0 <= i < e.fields_before(count).len(),
    ensures
        e.has(e.fields_before(count)[i]),
    decreases count,
{
    if count > 0 {
        let init = e.fields_before((count - 1) as nat);
        if i < init.len() {
            lemma_fields_before(e, (count - 1) as nat, i);
        }
    }
}

/// Every named field lies within the enum.
pub proof fn lemma_named_fields(e: EnumView, i: int)
    requires
        0 <= i < e.named_fields().len(),
    ensures
        e.has(e.named_fields()[i]),
{
    lemma_fields_before(e, e.variants.len(), i);
}

/// A field name that the enum carries has a first field, and that field lies
/// within the enum and bears the name.
pub proof fn lemma_first_occurrence(e: EnumView, k: int)
    requires
        0 <= k < e.field_names().len(),
    ensures
        e.occurrences(e.field_names()[k]).len() > 0,
        e.has(e.occurrences(e.field_names()[k])[0]),
        e.name_at(e.occurrences(e.field_names()[k])[0]) == e.field_names()[k],
{
    let field = e.field_names()[k];
    let all = e.named_fields();
    let found = e.occurrences(field);
    assert(e.field_names().contains(field));
    lemma_first_occurrences_contains(e.names_of(all), field);
    let i = choose|i: int| 0 <= i < all.len() && e.names_of(all)[i] == field;
    assert((e.carries(field))(all[i]));
    all.lemma_filter_contains(e.carries(field), i);
    all.lemma_filter_pred(e.carries(field), 0);
    all.lemma_filter_contains_rev(e.carries(field), found[0]);
    let j = choose|j: int| 0 <= j < all.len() && all[j] == found[0];
    lemma_named_fields(e, j);
}

/// The index of the entry for `name`, or the number of entries where there is
/// none.
fn find_entry(entries: &Vec<FieldEntry>, name: &String) -> (k: usize)
    ensures
        k <= entries.len(),
        k < entries.len() ==> entries[k as int].name@ == name@,
        forall|i: int| 0 <= i < k ==> entries[i].name@ != name@,
{
    let mut k: usize = 0;
    while k < entries.len()
        invariant
            k <= entries.len(),
            forall|i: int| 0 <= i < k ==> entries[i].name@ != name@,
        decreases entries.len() - k,
    {
        if entries[k].name == *name {
            return k;
        }
        k += 1;
    }
    k
}

/// Adds the named fields of one variant to the entries.
fn collect_variant(
    decl: &EnumDeclaration,
    v: usize,
    fields: &Vec<Field>,
    entries: &mut Vec<FieldEntry>,
)
    requires
        v < decl.variants.len(),
        decl.variants[v as int].fields == Fields::Named(*fields),
        old(entries)@.map_values(|e: FieldEntry| e@) == decl@.grouped(
            decl@.fields_before(v as nat),
        ),
    ensures
        final(entries)@.map_values(|e: FieldEntry| e@) == decl@.grouped(
            decl@.fields_before((v + 1) as nat),
        ),
{
    assert(decl@.variants[v as int].named() == fields@.map_values(|f: Field| f@));
    let mut j: usize = 0;
    assert(decl@.fields_before(v as nat) + decl@.variant_fields(v as int, 0) =~= decl@.fields_before(
        v as nat,
    ));
    while j < fields.len()
        invariant
            v < decl.variants.len(),
            j <= fields.len(),
            decl@.variants[v as int].named() == fields@.map_values(|f: Field| f@),
            entries@.map_values(|e: FieldEntry| e@) == decl@.grouped(
                decl@.fields_before(v as nat) + decl@.variant_fields(v as int, j as nat),
            ),
        decreases fields.len() - j,
    {
        let ghost places = decl@.fields_before(v as nat) + decl@.variant_fields(v as int, j as nat);
        let ghost p = Position { variant: v as int, index: j as int };
        let name = &fields[j].name;
        proof {
            assert(decl@.name_at(p) == name@);
            lemma_grouped_push(decl@, places, p);
            assert(places.push(p) =~= decl@.fields_before(v as nat) + decl@.variant_fields(
                v as int,
                (j + 1) as nat,
            ));
        }
        let k = find_entry(entries, name);
        let place = FieldRef { variant: v, index: j };
        let ghost before = entries@;
        if k < entries.len() {
            assert(decl@.grouped(places)[k as int].name == name@);
            entries[k].fields.push(place);
            assert(entries@[k as int]@.fields =~= before[k as int]@.fields.push(p));
            assert(entries@.map_values(|e: FieldEntry| e@) =~= decl@.grouped(places).update(
                k as int,
                EntryView { name: name@, fields: before[k as int]@.fields.push(p) },
            ));
        } else {
            let mut fields_of_name: Vec<FieldRef> = Vec::new();
            fields_of_name.push(place);
            let entry = FieldEntry { name: name.clone(), fields: fields_of_name };
            assert(entry@.fields =~= seq![p]);
            entries.push(entry);
            assert(entries@.map_values(|e: FieldEntry| e@) =~= decl@.grouped(places).push(
                EntryView { name: name@, fields: seq![p] },
            ));
        }
        j += 1;
    }
}

/// Collects the named fields of an enum by name. Variants without named
/// fields contribute nothing.
pub fn collect_available_fields(decl: &EnumDeclaration) -> (map: FieldPresenceMap)
    ensures
        map@ == decl@.presence_map(),
{
    let mut entries: Vec<FieldEntry> = Vec::new();
    let mut v: usize = 0;
    while v < decl.variants.len()
        invariant
            v <= decl.variants.len(),
            entries@.map_values(|e: FieldEntry| e@) == decl@.grouped(decl@.fields_before(v as nat)),
        decreases decl.variants.len() - v,
    {
        match &decl.variants[v].fields {
            Fields::Named(fields) => {
                collect_variant(decl, v, fields, &mut entries);
            },
            _ => {
                assert(decl@.variants[v as int].named().len() == 0);
                assert(decl@.fields_before((v + 1) as nat) =~= decl@.fields_before(v as nat));
            },
        }
        v += 1;
    }
    FieldPresenceMap { entries }
}

} // verus!
