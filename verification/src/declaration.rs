//! The declaration that a derivation reads: an enum, a struct or a union,
//! held as plain text and lists.
//!
//! Each type has a view, its mathematical value: text becomes a sequence of
//! characters and a list a sequence of views. The contracts of the library
//! speak of views only.

use vstd::prelude::*;

verus! {

/// One named field of a variant.
#[derive(Debug, Clone, PartialEq, Eq)]
pub struct Field {
    /// The field's identifier as written, with `r#` where it is a raw one.
    pub name: String,
    /// The declared type, as text. It is passed through and never inspected.
    pub ty: String,
}

/// The value of a [`Field`].
pub struct FieldView {
    pub name: Seq<char>,
    pub ty: Seq<char>,
}

impl View for Field {
    type V = FieldView;

    open spec fn view(&self) -> FieldView {
        FieldView { name: self.name@, ty: self.ty@ }
    }
}

/// What a variant carries: nothing (`V`), positional fields (`V(..)`, also
/// where the parentheses are empty) or named fields in declaration order
/// (`V { .. }`, also where the braces are empty). Positional fields take no
/// part in a derivation, so none is held.
#[derive(Debug, Clone, PartialEq, Eq)]
pub enum Fields {
    Unit,
    Positional,
    Named(Vec<Field>),
}

/// The value of a [`Fields`].
pub enum FieldsView {
    Unit,
    Positional,
    Named(Seq<FieldView>),
}

impl View for Fields {
    type V = FieldsView;

    open spec fn view(&self) -> FieldsView {
        match self {
            Fields::Unit => FieldsView::Unit,
            Fields::Positional => FieldsView::Positional,
            Fields::Named(fields) => FieldsView::Named(fields@.map_values(|f: Field| f@)),
        }
    }
}

/// One variant of an enum.
#[derive(Debug, Clone, PartialEq, Eq)]
pub struct Variant {
    pub name: String,
    pub fields: Fields,
}

/// The value of a [`Variant`].
pub struct VariantView {
    pub name: Seq<char>,
    pub fields: FieldsView,
}

impl View for Variant {
    type V = VariantView;

    open spec fn view(&self) -> VariantView {
        VariantView { name: self.name@, fields: self.fields@ }
    }
}

/// An enum declaration: its name, its generic parameters and its variants in
/// declaration order. The generic parameters are held as the three texts
/// that an implementation block for the enum needs; each is empty where the
/// enum has none.
#[derive(Debug, Clone, PartialEq, Eq)]
pub struct EnumDeclaration {
    pub name: String,
    /// The parameter list with its bounds, as it stands behind `impl`:
    /// `<'a, T: Clone>`.
    pub impl_generics: String,
    /// The parameters' names alone, as they stand behind the enum's name:
    /// `<'a, T>`.
    pub type_generics: String,
    /// The where clause, from the word `where` on.
    pub where_clause: String,
    pub variants: Vec<Variant>,
}

/// The value of an [`EnumDeclaration`].
pub struct EnumView {
    pub name: Seq<char>,
    pub impl_generics: Seq<char>,
    pub type_generics: Seq<char>,
    pub where_clause: Seq<char>,
    pub variants: Seq<VariantView>,
}

impl View for EnumDeclaration {
    type V = EnumView;

    open spec fn view(&self) -> EnumView {
        EnumView {
            name: self.name@,
            impl_generics: self.impl_generics@,
            type_generics: self.type_generics@,
            where_clause: self.where_clause@,
            variants: self.variants@.map_values(|v: Variant| v@),
        }
    }
}

/// A type declaration as a derivation receives it. Only an enum carries
/// anything that the derivation reads.
#[derive(Debug, Clone, PartialEq, Eq)]
pub enum Declaration {
    Enum(EnumDeclaration),
    Struct,
    Union,
}

/// The value of a [`Declaration`].
pub enum DeclarationView {
    Enum(EnumView),
    Struct,
    Union,
}

impl View for Declaration {
    type V = DeclarationView;

    open spec fn view(&self) -> DeclarationView {
        match self {
            Declaration::Enum(e) => DeclarationView::Enum(e@),
            Declaration::Struct => DeclarationView::Struct,
            Declaration::Union => DeclarationView::Union,
        }
    }
}

impl VariantView {
    /// The named fields of this variant, in declaration order: none where the
    /// variant is a unit or a positional one.
    pub open spec fn named(self) -> Seq<FieldView> {
        match self.fields {
            FieldsView::Named(fields) => fields,
            _ => Seq::empty(),
        }
    }

    /// Whether the named field at position `j` of this variant is named
    /// `field`.
    pub open spec fn names_at(self, j: int, field: Seq<char>) -> bool {
        0 <= j < self.named().len() && self.named()[j].name == field
    }

    /// Whether some field of this variant is named `field`.
    pub open spec fn declares(self, field: Seq<char>) -> bool {
        exists|j: int| self.names_at(j, field)
    }

    /// How many of the first `upto` named fields of this variant are named
    /// `field`.
    pub open spec fn count_upto(self, field: Seq<char>, upto: nat) -> nat
        decreases upto,
    {
        if upto == 0 {
            0
        } else if self.names_at(upto - 1, field) {
            self.count_upto(field, (upto - 1) as nat) + 1
        } else {
            self.count_upto(field, (upto - 1) as nat)
        }
    }

    /// How many fields of this variant are named `field`. A declaration that
    /// compiles has at most one.
    pub open spec fn count(self, field: Seq<char>) -> nat {
        self.count_upto(field, self.named().len())
    }
}

} // verus!
