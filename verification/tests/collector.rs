use enum_fields::collect::{collect_available_fields, FieldEntry, FieldRef};
use enum_fields::declaration::{EnumDeclaration, Field, Fields, Variant};

fn named(names: &[&str]) -> Fields {
    Fields::Named(
        names.iter().map(|name| Field { name: name.to_string(), ty: "u8".to_string() }).collect(),
    )
}

fn declaration(variants: Vec<(&str, Fields)>) -> EnumDeclaration {
    EnumDeclaration {
        name: "E".to_string(),
        impl_generics: String::new(),
        type_generics: String::new(),
        where_clause: String::new(),
        variants: variants
            .into_iter()
            .map(|(name, fields)| Variant { name: name.to_string(), fields })
            .collect(),
    }
}

fn entry(name: &str, places: &[(usize, usize)]) -> FieldEntry {
    FieldEntry {
        name: name.to_string(),
        fields: places.iter().map(|&(variant, index)| FieldRef { variant, index }).collect(),
    }
}

#[test]
fn names_come_in_order_of_first_occurrence() {
    let decl = declaration(vec![
        ("A", named(&["b", "a"])),
        ("B", named(&["a", "c"])),
        ("C", named(&["c", "b"])),
    ]);
    let map = collect_available_fields(&decl);
    assert_eq!(
        map.entries,
        vec![
            entry("b", &[(0, 0), (2, 1)]),
            entry("a", &[(0, 1), (1, 0)]),
            entry("c", &[(1, 1), (2, 0)]),
        ]
    );
}

#[test]
fn variants_without_named_fields_contribute_nothing() {
    let decl = declaration(vec![
        ("Unit", Fields::Unit),
        ("Tuple", Fields::Positional),
        ("Empty", named(&[])),
        ("Named", named(&["x"])),
    ]);
    let map = collect_available_fields(&decl);
    assert_eq!(map.entries, vec![entry("x", &[(3, 0)])]);
}

#[test]
fn an_enum_without_variants_has_no_field_names() {
    let map = collect_available_fields(&declaration(vec![]));
    assert!(map.entries.is_empty());
}

#[test]
fn an_enum_of_unit_variants_has_no_field_names() {
    let map = collect_available_fields(&declaration(vec![("A", Fields::Unit), ("B", Fields::Unit)]));
    assert!(map.entries.is_empty());
}

#[test]
fn a_name_declared_twice_in_one_variant_is_listed_twice() {
    let decl = declaration(vec![("A", named(&["x", "x"])), ("B", Fields::Unit)]);
    let map = collect_available_fields(&decl);
    assert_eq!(map.entries, vec![entry("x", &[(0, 0), (0, 1)])]);
}

#[test]
fn a_raw_name_and_the_plain_one_are_two_names() {
    let decl = declaration(vec![("A", named(&["r#x", "x"]))]);
    let map = collect_available_fields(&decl);
    assert_eq!(map.entries, vec![entry("r#x", &[(0, 0)]), entry("x", &[(0, 1)])]);
}

#[test]
fn the_declaration_is_left_as_it_was() {
    let decl = declaration(vec![("A", named(&["x"])), ("B", Fields::Positional)]);
    let before = decl.clone();
    let _ = collect_available_fields(&decl);
    assert_eq!(decl, before);
}
