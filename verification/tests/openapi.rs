use unitycatalog::openapi::catalog::{blank_properties, is_blank_properties};
use unitycatalog::openapi::delta::{DeltaArrayType, DeltaDataType, DeltaStructField, DeltaStructType};

#[test]
fn a_blank_or_empty_object_properties_string_means_no_properties() {
    assert!(blank_properties(""));
    assert!(blank_properties("   "));
    assert!(blank_properties(" {} "));
    assert!(blank_properties("\"{}\""));
    assert!(!blank_properties("{\"k\":\"v\"}"));
    assert!(!blank_properties("{ }"));
}

#[test]
fn blank_properties_looks_only_at_the_trimmed_text() {
    assert!(is_blank_properties("{}"));
    assert!(!is_blank_properties(" {}"));
}

#[test]
fn a_nested_delta_type_can_be_built() {
    let field = DeltaStructField {
        name: "xs".to_string(),
        field_type: Box::new(DeltaDataType::Array(DeltaArrayType {
            type_tag: "array".to_string(),
            element_type: Box::new(DeltaDataType::Primitive("long".to_string())),
            contains_null: true,
        })),
        nullable: false,
        metadata: None,
    };
    let t = DeltaDataType::Struct(DeltaStructType { type_tag: "struct".to_string(), fields: vec![field] });
    match t {
        DeltaDataType::Struct(s) => {
            assert_eq!(s.fields.len(), 1);
            assert!(matches!(*s.fields[0].field_type, DeltaDataType::Array(_)));
        }
        _ => panic!("expected a struct type"),
    }
}

#[test]
fn properties_are_trimmed_of_unicode_white_space_only() {
    assert!(blank_properties("\u{3000}{}\u{a0}\n"));
    assert!(blank_properties("\u{2028}\u{85}"));
    assert!(!blank_properties("\u{200b}{}"));
    for s in [" {} ", "\t\u{2003}\"{}\"\u{205f}", "\u{feff}{}"] {
        assert_eq!(blank_properties(s), matches!(s.trim(), "" | "{}" | "\"{}\""));
    }
}
