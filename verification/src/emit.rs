//! The emitter: the text of the derived methods.
//!
//! Each method stands in an implementation block of its own, for the enum
//! and its generic parameters. The text is one line per method.

use vstd::prelude::*;
use vstd::string::{StrSliceExecFns, StringExecFns};
use crate::declaration::{EnumDeclaration, EnumView};
use crate::synth::{
    outcome, outcome_of, Arm, ArmShape, ArmView, GeneratedMethod, MethodKind, MethodView, Outcome,
};

verus! {

/// The identifier that a field's name stands for: the name itself, without
/// the `r#` in front where the field is written as a raw identifier.
pub open spec fn stem(field: Seq<char>) -> Seq<char> {
    if field.len() >= 2 && field[0] == 'r' && field[1] == '#' {
        field.subrange(2, field.len() as int)
    } else {
        field
    }
}

/// The name of the method of kind `kind` for the field `field`: `set_<field>`
/// for a setter, `<field>_mut` for an accessor, built on the field's
/// identifier.
pub open spec fn method_name(kind: MethodKind, field: Seq<char>) -> Seq<char> {
    match kind {
        MethodKind::SwapSetter => "set_"@ + stem(field),
        _ => stem(field) + "_mut"@,
    }
}

/// The method's header, from `pub fn` to its return type.
pub open spec fn signature_text(m: MethodView) -> Seq<char> {
    let name = method_name(m.kind, m.field);
    match m.kind {
        MethodKind::SwapSetter => "pub fn "@ + name + "(&mut self, to_set: &mut "@ + m.field_type
            + ")"@,
        MethodKind::DirectAccessor => "pub fn "@ + name + "(&mut self) -> &mut "@ + m.field_type,
        MethodKind::OptionalAccessor => "pub fn "@ + name + "(&mut self) -> Option<&mut "@
            + m.field_type + ">"@,
    }
}

/// The pattern of an arm in a method about `field`.
pub open spec fn pattern_text(arm: ArmView, field: Seq<char>) -> Seq<char> {
    match arm.shape {
        ArmShape::Bound => "Self::"@ + arm.variant + " { "@ + field + ", .. }"@,
        ArmShape::Braced => "Self::"@ + arm.variant + " { .. }"@,
        ArmShape::Tuple => "Self::"@ + arm.variant + "(..)"@,
        ArmShape::Unit => "Self::"@ + arm.variant,
    }
}

/// The right-hand side of an arm in a method about `field`.
pub open spec fn outcome_text(o: Outcome, field: Seq<char>) -> Seq<char> {
    match o {
        Outcome::Reference => field,
        Outcome::Present => "Some("@ + field + ")"@,
        Outcome::Absent => "None"@,
        Outcome::Exchange => "{ std::mem::swap("@ + field + ", to_set); }"@,
        Outcome::Nothing => "{}"@,
    }
}

/// One match arm, with the comma and the blank that end it.
pub open spec fn arm_text(kind: MethodKind, arm: ArmView, field: Seq<char>) -> Seq<char> {
    pattern_text(arm, field) + " => "@ + outcome_text(outcome(kind, arm.shape), field) + ", "@
}

/// The first `count` match arms of a method, one after the other.
pub open spec fn arms_text(m: MethodView, count: nat) -> Seq<char>
    decreases count,
{
    if count == 0 {
        Seq::empty()
    } else {
        arms_text(m, (count - 1) as nat) + arm_text(m.kind, m.arms[count - 1], m.field)
    }
}

/// The documentation that every derived method carries, as an attribute at
/// the head of its body.
pub open spec fn doc_text() -> Seq<char> {
    "#![doc = \" Get the property of this enum discriminant if it's available\"]"@
}

/// The where clause with the blank that parts it from the brace, or nothing
/// where the enum has none.
pub open spec fn where_text(clause: Seq<char>) -> Seq<char> {
    if clause.len() == 0 {
        Seq::empty()
    } else {
        clause + " "@
    }
}

/// The head of an implementation block for the enum: the parameter list with
/// its bounds behind `impl`, the parameters' names behind the enum's name,
/// then the where clause.
pub open spec fn block_head(e: EnumView) -> Seq<char> {
    "impl"@ + e.impl_generics + " "@ + e.name + e.type_generics + " "@ + where_text(
        e.where_clause,
    )
}

/// The implementation block that holds one method.
pub open spec fn method_text(e: EnumView, m: MethodView) -> Seq<char> {
    block_head(e) + "{ "@ + signature_text(m) + " { "@ + doc_text() + " match self { "@
        + arms_text(m, m.arms.len()) + "} } }\n"@
}

/// The implementation blocks of the first `count` methods.
pub open spec fn methods_text(e: EnumView, methods: Seq<MethodView>, count: nat) -> Seq<char>
    decreases count,
{
    if count == 0 {
        Seq::empty()
    } else {
        methods_text(e, methods, (count - 1) as nat) + method_text(e, methods[count - 1])
    }
}

/// The text derived for an enum: the implementation blocks of all its
/// methods.
pub open spec fn emitted_text(e: EnumView, methods: Seq<MethodView>) -> Seq<char> {
    methods_text(e, methods, methods.len())
}

/// The identifier that a field's name stands for.
fn stem_of(field: &String) -> (s: String)
    ensures
        s@ == stem(field@),
{
    let text = field.as_str();
    let len = text.unicode_len();
    if len >= 2 && text.get_char(0) == 'r' && text.get_char(1) == '#' {
        text.substring_char(2, len).to_owned()
    } else {
        field.clone()
    }
}

/// The head of an implementation block for `decl`.
fn render_head(decl: &EnumDeclaration) -> (text: String)
    ensures
        text@ == block_head(decl@),
{
    let mut text = "impl".to_owned();
    text.append(decl.impl_generics.as_str());
    text.append(" ");
    text.append(decl.name.as_str());
    text.append(decl.type_generics.as_str());
    text.append(" ");
    let ghost before = text@;
    if !decl.where_clause.as_str().is_empty() {
        text.append(decl.where_clause.as_str());
        text.append(" ");
    }
    assert(text@ =~= before + where_text(decl@.where_clause));
    text
}

impl GeneratedMethod {
    /// The method's name.
    pub fn name(&self) -> (name: String)
        ensures
            name@ == method_name(self.kind, self.field@),
    {
        let stem = stem_of(&self.field);
        match self.kind {
            MethodKind::SwapSetter => {
                let mut name = "set_".to_owned();
                name.append(stem.as_str());
                name
            },
            _ => {
                let mut name = stem;
                name.append("_mut");
                name
            },
        }
    }

    /// The method's header, from `pub fn` to its return type.
    pub fn signature(&self) -> (text: String)
        ensures
            text@ == signature_text(self@),
    {
        let name = self.name();
        let mut text = "pub fn ".to_owned();
        text.append(name.as_str());
        match self.kind {
            MethodKind::SwapSetter => {
                text.append("(&mut self, to_set: &mut ");
                text.append(self.field_type.as_str());
                text.append(")");
            },
            MethodKind::DirectAccessor => {
                text.append("(&mut self) -> &mut ");
                text.append(self.field_type.as_str());
            },
            MethodKind::OptionalAccessor => {
                text.append("(&mut self) -> Option<&mut ");
                text.append(self.field_type.as_str());
                text.append(">");
            },
        }
        text
    }

    /// The implementation block that holds this method.
    pub fn render(&self, decl: &EnumDeclaration) -> (text: String)
        ensures
            text@ == method_text(decl@, self@),
    {
        let mut arms = String::new();
        let mut i: usize = 0;
        while i < self.arms.len()
            invariant
                i <= self.arms.len(),
                arms@ == arms_text(self@, i as nat),
            decreases self.arms.len() - i,
        {
            let arm = render_arm(self.kind, &self.arms[i], &self.field);
            arms.append(arm.as_str());
            i += 1;
        }
        let signature = self.signature();
        let mut text = render_head(decl);
        text.append("{ ");
        text.append(signature.as_str());
        text.append(" { ");
        text.append("#![doc = \" Get the property of this enum discriminant if it's available\"]");
        text.append(" match self { ");
        text.append(arms.as_str());
        text.append("} } }\n");
        text
    }
}

/// The text of one match arm.
fn render_arm(kind: MethodKind, arm: &Arm, field: &String) -> (text: String)
    ensures
        text@ == arm_text(kind, arm@, field@),
{
    let mut text = "Self::".to_owned();
    text.append(arm.variant.as_str());
    match arm.shape {
        ArmShape::Bound => {
            text.append(" { ");
            text.append(field.as_str());
            text.append(", .. }");
        },
        ArmShape::Braced => {
            text.append(" { .. }");
        },
        ArmShape::Tuple => {
            text.append("(..)");
        },
        ArmShape::Unit => {},
    }
    text.append(" => ");
    let ghost pattern = text@;
    match outcome_of(kind, arm.shape) {
        Outcome::Reference => {
            text.append(field.as_str());
        },
        Outcome::Present => {
            text.append("Some(");
            text.append(field.as_str());
            text.append(")");
        },
        Outcome::Absent => {
            text.append("None");
        },
        Outcome::Exchange => {
            text.append("{ std::mem::swap(");
            text.append(field.as_str());
            text.append(", to_set); }");
        },
        Outcome::Nothing => {
            text.append("{}");
        },
    }
    assert(text@ == pattern + outcome_text(outcome(kind, arm.shape), field@));
    text.append(", ");
    text
}

/// The text of all methods, each in an implementation block of its own, in
/// the order of `methods`.
pub fn emit(decl: &EnumDeclaration, methods: &Vec<GeneratedMethod>) -> (text: String)
    ensures
        text@ == emitted_text(decl@, methods.deep_view()),
{
    let mut text = String::new();
    let mut i: usize = 0;
    while i < methods.len()
        invariant
            i <= methods.len(),
            text@ == methods_text(decl@, methods.deep_view(), i as nat),
        decreases methods.len() - i,
    {
        let block = methods[i].render(decl);
        text.append(block.as_str());
        i += 1;
    }
    text
}

} // verus!
