use enum_fields::declaration::{EnumDeclaration, Field, Fields, Variant};
use enum_fields::derive::impl_for_enum;

const DOC: &str = "#![doc = \" Get the property of this enum discriminant if it's available\"] ";

#[derive(Debug, PartialEq)]
enum Message {
    Text { body: String },
    Error { body: String },
}

// The two blocks below are the text derived for `Message`, but for the
// documentation at the head of each body; `the_blocks_here_are_the_derived_text`
// holds them to it.
impl Message { pub fn set_body(&mut self, to_set: &mut String) { match self { Self::Text { body, .. } => { std::mem::swap(body, to_set); }, Self::Error { body, .. } => { std::mem::swap(body, to_set); }, } } }
impl Message { pub fn body_mut(&mut self) -> &mut String { match self { Self::Text { body, .. } => body, Self::Error { body, .. } => body, } } }

#[derive(Debug, PartialEq)]
enum Shape<T: Copy>
where
    T: PartialEq,
{
    Circle { radius: T },
    Square { side: T },
    Point,
    Void {},
    Pair(),
}

// The text derived for `Shape`, in the same way.
impl<T: Copy> Shape<T> where T: PartialEq { pub fn radius_mut(&mut self) -> Option<&mut T> { match self { Self::Circle { radius, .. } => Some(radius), Self::Square { .. } => None, Self::Point => None, Self::Void { .. } => None, Self::Pair(..) => None, } } }
impl<T: Copy> Shape<T> where T: PartialEq { pub fn side_mut(&mut self) -> Option<&mut T> { match self { Self::Circle { .. } => None, Self::Square { side, .. } => Some(side), Self::Point => None, Self::Void { .. } => None, Self::Pair(..) => None, } } }

fn named(name: &str, ty: &str) -> Fields {
    Fields::Named(vec![Field { name: name.to_string(), ty: ty.to_string() }])
}

fn variant(name: &str, fields: Fields) -> Variant {
    Variant { name: name.to_string(), fields }
}

#[test]
fn the_blocks_here_are_the_derived_text() {
    let message = impl_for_enum(&EnumDeclaration {
        name: "Message".to_string(),
        impl_generics: String::new(),
        type_generics: String::new(),
        where_clause: String::new(),
        variants: vec![
            variant("Text", named("body", "String")),
            variant("Error", named("body", "String")),
        ],
    });
    assert_eq!(message.matches(DOC).count(), 2);
    assert_eq!(
        message.replace(DOC, ""),
        "impl Message { pub fn set_body(&mut self, to_set: &mut String) { match self { Self::Text { body, .. } => { std::mem::swap(body, to_set); }, Self::Error { body, .. } => { std::mem::swap(body, to_set); }, } } }\n\
         impl Message { pub fn body_mut(&mut self) -> &mut String { match self { Self::Text { body, .. } => body, Self::Error { body, .. } => body, } } }\n"
    );
    let shape = impl_for_enum(&EnumDeclaration {
        name: "Shape".to_string(),
        impl_generics: "<T: Copy>".to_string(),
        type_generics: "<T>".to_string(),
        where_clause: "where T: PartialEq".to_string(),
        variants: vec![
            variant("Circle", named("radius", "T")),
            variant("Square", named("side", "T")),
            variant("Point", Fields::Unit),
            variant("Void", Fields::Named(Vec::new())),
            variant("Pair", Fields::Positional),
        ],
    });
    assert_eq!(shape.matches(DOC).count(), 2);
    assert_eq!(
        shape.replace(DOC, ""),
        "impl<T: Copy> Shape<T> where T: PartialEq { pub fn radius_mut(&mut self) -> Option<&mut T> { match self { Self::Circle { radius, .. } => Some(radius), Self::Square { .. } => None, Self::Point => None, Self::Void { .. } => None, Self::Pair(..) => None, } } }\n\
         impl<T: Copy> Shape<T> where T: PartialEq { pub fn side_mut(&mut self) -> Option<&mut T> { match self { Self::Circle { .. } => None, Self::Square { side, .. } => Some(side), Self::Point => None, Self::Void { .. } => None, Self::Pair(..) => None, } } }\n"
    );
}

#[test]
fn a_write_through_the_accessor_is_seen_in_the_value() {
    let mut text = Message::Text { body: "old".to_string() };
    text.body_mut().push_str(" and new");
    assert_eq!(text, Message::Text { body: "old and new".to_string() });

    let mut error = Message::Error { body: "old".to_string() };
    *error.body_mut() = "new".to_string();
    assert_eq!(error, Message::Error { body: "new".to_string() });
}

#[test]
fn the_setter_exchanges_the_two_values() {
    let mut text = Message::Text { body: "stored".to_string() };
    let mut offered = "offered".to_string();
    text.set_body(&mut offered);
    assert_eq!(text, Message::Text { body: "offered".to_string() });
    assert_eq!(offered, "stored");

    let mut error = Message::Error { body: "kept".to_string() };
    error.set_body(&mut offered);
    assert_eq!(error, Message::Error { body: "stored".to_string() });
    assert_eq!(offered, "kept");
}

#[test]
fn a_partial_accessor_is_present_exactly_where_the_field_is() {
    let mut circle = Shape::Circle { radius: 1.0 };
    let mut square = Shape::Square { side: 2.0 };

    assert_eq!(circle.radius_mut(), Some(&mut 1.0));
    assert_eq!(square.radius_mut(), None);
    assert_eq!(circle.side_mut(), None);
    assert_eq!(square.side_mut(), Some(&mut 2.0));
    for mut other in [Shape::<f64>::Point, Shape::Void {}, Shape::Pair()] {
        assert_eq!(other.radius_mut(), None);
        assert_eq!(other.side_mut(), None);
    }

    *circle.radius_mut().unwrap() = 3.5;
    assert_eq!(circle, Shape::Circle { radius: 3.5 });
}
