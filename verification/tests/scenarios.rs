use enum_fields::collect::collect_available_fields;
use enum_fields::declaration::{Declaration, EnumDeclaration, Field, Fields, Variant};
use enum_fields::derive::{impl_for_enum, impl_for_input};
use enum_fields::synth::{synthesize, ArmShape, GeneratedMethod, MethodKind, Outcome};

const DOC: &str = "#![doc = \" Get the property of this enum discriminant if it's available\"]";

fn named(fields: &[(&str, &str)]) -> Fields {
    Fields::Named(
        fields.iter().map(|(name, ty)| Field { name: name.to_string(), ty: ty.to_string() }).collect(),
    )
}

fn declaration(name: &str, variants: Vec<(&str, Fields)>) -> EnumDeclaration {
    EnumDeclaration {
        name: name.to_string(),
        impl_generics: String::new(),
        type_generics: String::new(),
        where_clause: String::new(),
        variants: variants
            .into_iter()
            .map(|(name, fields)| Variant { name: name.to_string(), fields })
            .collect(),
    }
}

fn shape() -> EnumDeclaration {
    declaration(
        "Shape",
        vec![
            ("Circle", named(&[("radius", "f64")])),
            ("Square", named(&[("side", "f64")])),
            ("Point", Fields::Unit),
        ],
    )
}

fn message() -> EnumDeclaration {
    declaration(
        "Message",
        vec![("Text", named(&[("body", "String")])), ("Error", named(&[("body", "String")]))],
    )
}

fn methods_of(decl: &EnumDeclaration) -> Vec<GeneratedMethod> {
    synthesize(decl, &collect_available_fields(decl))
}

#[test]
fn shape_gets_two_optional_accessors_and_no_setter() {
    let methods = methods_of(&shape());
    assert_eq!(methods.len(), 2);

    let radius = &methods[0];
    assert_eq!(radius.kind, MethodKind::OptionalAccessor);
    assert_eq!(radius.name(), "radius_mut");
    assert_eq!(radius.signature(), "pub fn radius_mut(&mut self) -> Option<&mut f64>");
    let shapes: Vec<ArmShape> = radius.arms.iter().map(|a| a.shape).collect();
    assert_eq!(shapes, vec![ArmShape::Bound, ArmShape::Braced, ArmShape::Unit]);
    assert_eq!(radius.outcome_at(0), Some(Outcome::Present));
    assert_eq!(radius.outcome_at(1), Some(Outcome::Absent));
    assert_eq!(radius.outcome_at(2), Some(Outcome::Absent));

    let side = &methods[1];
    assert_eq!(side.kind, MethodKind::OptionalAccessor);
    assert_eq!(side.signature(), "pub fn side_mut(&mut self) -> Option<&mut f64>");
    assert_eq!(side.outcome_at(0), Some(Outcome::Absent));
    assert_eq!(side.outcome_at(1), Some(Outcome::Present));
    assert_eq!(side.outcome_at(2), Some(Outcome::Absent));

    for m in &methods {
        assert_ne!(m.kind, MethodKind::SwapSetter);
        assert_ne!(m.name(), "set_radius");
        assert_ne!(m.name(), "set_side");
    }
}

#[test]
fn shape_text_is_exact() {
    let expected = format!(
        "impl Shape {{ pub fn radius_mut(&mut self) -> Option<&mut f64> {{ {doc} match self {{ \
         Self::Circle {{ radius, .. }} => Some(radius), Self::Square {{ .. }} => None, \
         Self::Point => None, }} }} }}\n\
         impl Shape {{ pub fn side_mut(&mut self) -> Option<&mut f64> {{ {doc} match self {{ \
         Self::Circle {{ .. }} => None, Self::Square {{ side, .. }} => Some(side), \
         Self::Point => None, }} }} }}\n",
        doc = DOC
    );
    assert_eq!(impl_for_enum(&shape()), expected);
    assert_eq!(impl_for_input(&Declaration::Enum(shape())), Ok(expected));
}

#[test]
fn message_gets_a_setter_and_a_direct_accessor() {
    let methods = methods_of(&message());
    assert_eq!(methods.len(), 2);

    let setter = &methods[0];
    assert_eq!(setter.kind, MethodKind::SwapSetter);
    assert_eq!(setter.name(), "set_body");
    assert_eq!(setter.signature(), "pub fn set_body(&mut self, to_set: &mut String)");
    assert_eq!(setter.arms.len(), 2);
    assert_eq!(setter.outcome_at(0), Some(Outcome::Exchange));
    assert_eq!(setter.outcome_at(1), Some(Outcome::Exchange));

    let accessor = &methods[1];
    assert_eq!(accessor.kind, MethodKind::DirectAccessor);
    assert_eq!(accessor.name(), "body_mut");
    assert_eq!(accessor.signature(), "pub fn body_mut(&mut self) -> &mut String");
    assert_eq!(accessor.arms.len(), 2);
    assert_eq!(accessor.outcome_at(0), Some(Outcome::Reference));
    assert_eq!(accessor.outcome_at(1), Some(Outcome::Reference));
}

#[test]
fn message_text_is_exact() {
    let expected = format!(
        "impl Message {{ pub fn set_body(&mut self, to_set: &mut String) {{ {doc} match self {{ \
         Self::Text {{ body, .. }} => {{ std::mem::swap(body, to_set); }}, \
         Self::Error {{ body, .. }} => {{ std::mem::swap(body, to_set); }}, }} }} }}\n\
         impl Message {{ pub fn body_mut(&mut self) -> &mut String {{ {doc} match self {{ \
         Self::Text {{ body, .. }} => body, Self::Error {{ body, .. }} => body, }} }} }}\n",
        doc = DOC
    );
    assert_eq!(impl_for_enum(&message()), expected);
    assert_eq!(impl_for_input(&Declaration::Enum(message())), Ok(expected));
}
