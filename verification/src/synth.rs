//! The accessor synthesizer: which methods an enum gets, and what each match
//! arm of a method does.

use vstd::prelude::*;
use crate::collect::{lemma_first_occurrence, FieldPresenceMap, FieldRef};
use crate::declaration::{EnumDeclaration, EnumView, Field, Fields, FieldsView, Variant, VariantView};

verus! {

/// The three shapes of a derived method for a field `f` of type `T`.
#[derive(Debug, Clone, Copy, PartialEq, Eq)]
pub enum MethodKind {
    /// `f_mut(&mut self) -> &mut T`
    DirectAccessor,
    /// `f_mut(&mut self) -> Option<&mut T>`
    OptionalAccessor,
    /// `set_f(&mut self, to_set: &mut T)`
    SwapSetter,
}

/// How a match arm names its variant `V` when the method is about field `f`.
#[derive(Debug, Clone, Copy, PartialEq, Eq)]
pub enum ArmShape {
    /// `Self::V { f, .. }`: the variant declares `f`, and the arm binds it.
    Bound,
    /// `Self::V { .. }`: the variant is written with braces, `f` not among
    /// its fields.
    Braced,
    /// `Self::V(..)`: the variant is written with parentheses.
    Tuple,
    /// `Self::V`: the variant is a unit.
    Unit,
}

/// What a match arm does with a value of its variant. The method matches on
/// `&mut self`, so a bound field is a mutable reference into the value.
#[derive(Debug, Clone, Copy, PartialEq, Eq)]
pub enum Outcome {
    /// `f`: the arm hands out the bound field itself.
    Reference,
    /// `Some(f)`: the arm hands out the bound field, wrapped as present.
    Present,
    /// `None`: the arm hands out the absent value.
    Absent,
    /// `{ std::mem::swap(f, to_set); }`: the arm exchanges the bound field
    /// with the caller's value.
    Exchange,
    /// `{}`: the arm does nothing. A setter has such an arm for a variant
    /// that lacks the field.
    Nothing,
}

/// One match arm of a derived method.
#[derive(Debug, Clone, PartialEq, Eq)]
pub struct Arm {
    pub variant: String,
    pub shape: ArmShape,
}

/// The value of an [`Arm`].
pub struct ArmView {
    pub variant: Seq<char>,
    pub shape: ArmShape,
}

impl View for Arm {
    type V = ArmView;

    open spec fn view(&self) -> ArmView {
        ArmView { variant: self.variant@, shape: self.shape }
    }
}

impl DeepView for Arm {
    type V = ArmView;

    open spec fn deep_view(&self) -> ArmView {
        self@
    }
}

/// One derived method: its shape, the field it is about, that field's
/// declared type, and one match arm for each variant, in declaration order.
#[derive(Debug, Clone, PartialEq, Eq)]
pub struct GeneratedMethod {
    pub kind: MethodKind,
    pub field: String,
    pub field_type: String,
    pub arms: Vec<Arm>,
}

/// The value of a [`GeneratedMethod`].
pub struct MethodView {
    pub kind: MethodKind,
    pub field: Seq<char>,
    pub field_type: Seq<char>,
    pub arms: Seq<ArmView>,
}

impl View for GeneratedMethod {
    type V = MethodView;

    open spec fn view(&self) -> MethodView {
        MethodView {
            kind: self.kind,
            field: self.field@,
            field_type: self.field_type@,
            arms: self.arms.deep_view(),
        }
    }
}

impl DeepView for GeneratedMethod {
    type V = MethodView;

    open spec fn deep_view(&self) -> MethodView {
        self@
    }
}

/// What an arm of shape `shape` does in a method of kind `kind`.
pub open spec fn outcome(kind: MethodKind, shape: ArmShape) -> Outcome {
    match (kind, shape) {
        (MethodKind::DirectAccessor, ArmShape::Bound) => Outcome::Reference,
        (MethodKind::OptionalAccessor, ArmShape::Bound) => Outcome::Present,
        (MethodKind::SwapSetter, ArmShape::Bound) => Outcome::Exchange,
        (MethodKind::SwapSetter, _) => Outcome::Nothing,
        _ => Outcome::Absent,
    }
}

impl MethodView {
    /// What this method does with a value of the variant at `variant`.
    pub open spec fn outcome_at(self, variant: int) -> Outcome {
        outcome(self.kind, self.arms[variant].shape)
    }
}

/// What an arm of shape `shape` does in a method of kind `kind`.
pub fn outcome_of(kind: MethodKind, shape: ArmShape) -> (o: Outcome)
    ensures
        o == outcome(kind, shape),
{
    match (kind, shape) {
        (MethodKind::DirectAccessor, ArmShape::Bound) => Outcome::Reference,
        (MethodKind::OptionalAccessor, ArmShape::Bound) => Outcome::Present,
        (MethodKind::SwapSetter, ArmShape::Bound) => Outcome::Exchange,
        (MethodKind::SwapSetter, _) => Outcome::Nothing,
        _ => Outcome::Absent,
    }
}

impl GeneratedMethod {
    /// What this method does with a value of the variant at `variant`, or
    /// `None` where the method has no arm at that index.
    pub fn outcome_at(&self, variant: usize) -> (o: Option<Outcome>)
        ensures
            o == if variant < self@.arms.len() {
                Some(self@.outcome_at(variant as int))
            } else {
                None
            },
    {
        if variant < self.arms.len() {
            Some(outcome_of(self.kind, self.arms[variant].shape))
        } else {
            None
        }
    }
}

impl VariantView {
    /// The shape of this variant's arm in a method about `field`: the arm
    /// binds the field where the variant declares it, and else goes by how
    /// the variant is written.
    pub open spec fn arm_shape(self, field: Seq<char>) -> ArmShape {
        if self.declares(field) {
            ArmShape::Bound
        } else {
            match self.fields {
                FieldsView::Unit => ArmShape::Unit,
                FieldsView::Positional => ArmShape::Tuple,
                FieldsView::Named(_) => ArmShape::Braced,
            }
        }
    }

    /// This variant's arm in a method about `field`.
    pub open spec fn arm(self, field: Seq<char>) -> ArmView {
        ArmView { variant: self.name, shape: self.arm_shape(field) }
    }
}

impl EnumView {
    /// The declared type of the first field named `field`. It stands for the
    /// type of every field of that name.
    pub open spec fn first_type(self, field: Seq<char>) -> Seq<char> {
        self.type_at(self.occurrences(field)[0])
    }

    /// One arm for each variant, in declaration order.
    pub open spec fn arms(self, field: Seq<char>) -> Seq<ArmView> {
        Seq::new(self.variants.len(), |i: int| self.variants[i].arm(field))
    }

    /// The mutable accessor for `field`: direct where the field is universal,
    /// optional where it is not.
    pub open spec fn accessor(self, field: Seq<char>) -> MethodView {
        MethodView {
            kind: if self.is_universal(field) {
                MethodKind::DirectAccessor
            } else {
                MethodKind::OptionalAccessor
            },
            field,
            field_type: self.first_type(field),
            arms: self.arms(field),
        }
    }

    /// The swap setter for `field`.
    pub open spec fn setter(self, field: Seq<char>) -> MethodView {
        MethodView {
            kind: MethodKind::SwapSetter,
            field,
            field_type: self.first_type(field),
            arms: self.arms(field),
        }
    }

    /// The methods derived for one field name: the accessor, and before it
    /// the setter where the field is universal.
    pub open spec fn methods_for(self, field: Seq<char>) -> Seq<MethodView> {
        if self.is_universal(field) {
            seq![self.setter(field), self.accessor(field)]
        } else {
            seq![self.accessor(field)]
        }
    }

    /// The methods derived for the first `count` field names.
    pub open spec fn methods_upto(self, count: nat) -> Seq<MethodView>
        decreases count,
    {
        if count == 0 {
            Seq::empty()
        } else {
            self.methods_upto((count - 1) as nat) + self.methods_for(
                self.field_names()[count - 1],
            )
        }
    }

    /// All derived methods: those of each field name, the names in the order
    /// in which they first occur.
    pub open spec fn methods(self) -> Seq<MethodView> {
        self.methods_upto(self.field_names().len())
    }
}

/// The position of the first field of `variant` that is named `name`, or
/// `None` where the variant declares no such field.
fn find_field(variant: &Variant, name: &String) -> (found: Option<usize>)
    ensures
        match found {
            Some(j) => variant@.names_at(j as int, name@),
            None => !variant@.declares(name@),
        },
{
    match &variant.fields {
        Fields::Named(fields) => {
            assert(variant@.named() == fields@.map_values(|f: Field| f@));
            let mut j: usize = 0;
            while j < fields.len()
                invariant
                    j <= fields.len(),
                    variant@.named() == fields@.map_values(|f: Field| f@),
                    forall|i: int| 0 <= i < j ==> !variant@.names_at(i, name@),
                decreases fields.len() - j,
            {
                if fields[j].name == *name {
                    assert(variant@.names_at(j as int, name@));
                    return Some(j);
                }
                j += 1;
            }
            None
        },
        _ => {
            assert(variant@.named().len() == 0);
            None
        },
    }
}

/// The arm of `variant` in a method about the field `name`.
fn arm_for(variant: &Variant, name: &String) -> (arm: Arm)
    ensures
        arm@ == variant@.arm(name@),
{
    let shape = match find_field(variant, name) {
        Some(_) => ArmShape::Bound,
        None => match &variant.fields {
            Fields::Unit => ArmShape::Unit,
            Fields::Positional => ArmShape::Tuple,
            Fields::Named(_) => ArmShape::Braced,
        },
    };
    Arm { variant: variant.name.clone(), shape }
}

/// One arm for each variant of `decl`, for a method about the field `name`.
fn arms_for(decl: &EnumDeclaration, name: &String) -> (arms: Vec<Arm>)
    ensures
        arms.deep_view() == decl@.arms(name@),
{
    let mut arms: Vec<Arm> = Vec::new();
    let mut i: usize = 0;
    while i < decl.variants.len()
        invariant
            i <= decl.variants.len(),
            arms.len() == i,
            forall|k: int| 0 <= k < i ==> arms[k]@ == decl@.variants[k].arm(name@),
        decreases decl.variants.len() - i,
    {
        let arm = arm_for(&decl.variants[i], name);
        arms.push(arm);
        i += 1;
    }
    assert(arms.deep_view() =~= decl@.arms(name@));
    arms
}

/// The declared type of the named field at `place`.
fn type_at(decl: &EnumDeclaration, place: FieldRef) -> (ty: String)
    requires
        decl@.has(place@),
    ensures
        ty@ == decl@.type_at(place@),
{
    match &decl.variants[place.variant].fields {
        Fields::Named(fields) => {
            assert(decl@.variants[place.variant as int].named() == fields@.map_values(
                |f: Field| f@,
            ));
            fields[place.index].ty.clone()
        },
        _ => {
            assert(decl@.variants[place.variant as int].named().len() == 0);
            vstd::pervasive::unreached()
        },
    }
}

/// Derives the methods of an enum from its field names: for each name, in the
/// order of the map, the swap setter where the field is universal, then the
/// mutable accessor.
pub fn synthesize(decl: &EnumDeclaration, map: &FieldPresenceMap) -> (methods: Vec<
    GeneratedMethod,
>)
    requires
        map@ == decl@.presence_map(),
    ensures
        methods.deep_view() == decl@.methods(),
{
    let mut methods: Vec<GeneratedMethod> = Vec::new();
    let mut k: usize = 0;
    assert(map@.len() == map.entries.len());
    assert(decl@.presence_map().len() == decl@.field_names().len());
    while k < map.entries.len()
        invariant
            k <= map.entries.len(),
            map.entries.len() == decl@.field_names().len(),
            map@ == decl@.presence_map(),
            methods.deep_view() == decl@.methods_upto(k as nat),
        decreases map.entries.len() - k,
    {
        let entry = &map.entries[k];
        let ghost field = decl@.field_names()[k as int];
        proof {
            assert(map@[k as int] == entry@);
            assert(decl@.presence_map()[k as int].name == field);
            assert(entry.name@ == field);
            assert(entry@.fields == decl@.occurrences(field));
            lemma_first_occurrence(decl@, k as int);
            assert(entry.fields@[0]@ == decl@.occurrences(field)[0]);
        }
        let universal = entry.fields.len() == decl.variants.len();
        let field_type = type_at(decl, entry.fields[0]);
        let ghost before = methods.deep_view();
        if universal {
            let setter = GeneratedMethod {
                kind: MethodKind::SwapSetter,
                field: entry.name.clone(),
                field_type: field_type.clone(),
                arms: arms_for(decl, &entry.name),
            };
            assert(setter@ == decl@.setter(field));
            methods.push(setter);
        }
        let accessor = GeneratedMethod {
            kind: if universal {
                MethodKind::DirectAccessor
            } else {
                MethodKind::OptionalAccessor
            },
            field: entry.name.clone(),
            field_type,
            arms: arms_for(decl, &entry.name),
        };
        assert(accessor@ == decl@.accessor(field));
        methods.push(accessor);
        assert(methods.deep_view() =~= before + decl@.methods_for(field));
        k += 1;
    }
    methods
}

} // verus!
