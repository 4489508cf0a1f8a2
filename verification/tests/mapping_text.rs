use loopana::representations::mapping::{Mapping, MappingType};
use loopana::text::ParseErrorKind;

#[test]
fn mapping_test_serde() {
    let input = r#"
Mapping:
    - m -> InterTile
    - tk -> IntraTile
    - tn -> IntraTile
    - x -> $x
    - y -> $y
    - simd -> $simd
        "#;
    let expected_mapping = Mapping {
        loop_nest: None,
        types: vec![
            ("m".to_string(), MappingType::InterTile),
            ("tk".to_string(), MappingType::IntraTile),
            ("tn".to_string(), MappingType::IntraTile),
            ("x".to_string(), MappingType::Spatial("x".to_string())),
            ("y".to_string(), MappingType::Spatial("y".to_string())),
            ("simd".to_string(), MappingType::Spatial("simd".to_string())),
        ],
    };
    let mapping: Mapping = Mapping::from_str(input).unwrap();
    assert_eq!(mapping, expected_mapping);

    //try serialize -> deserialize
    let serialized = serde_yaml::to_string(&expected_mapping.to_string()).unwrap();
    let text: String = serde_yaml::from_str(&serialized).unwrap();
    let deserialized: Mapping = Mapping::from_str(&text).unwrap();
    assert_eq!(deserialized, expected_mapping);
}

#[test]
fn mapping_text_details() {
    let m = Mapping::from_str("Mapping :\n- a -> ?\n- b->TODO - a -> $p\n").unwrap();
    assert_eq!(
        m.types,
        vec![
            ("a".to_string(), MappingType::Spatial("p".to_string())),
            ("b".to_string(), MappingType::Temporal),
        ]
    );
    assert_eq!(m.to_string(), "Mapping:\n\t- a -> $p\n\t- b -> Temporal\n");
    assert_eq!(Mapping::from_str("Mapping:").unwrap().types, vec![]);
    assert_eq!(MappingType::InterTile.to_string(), "InterTile");
    assert_eq!(MappingType::IntraTile.to_string(), "IntraTile");

    let err = Mapping::from_str("  Map:").unwrap_err();
    assert_eq!(err.kind, ParseErrorKind::Mapping);
    assert_eq!(err.position, 2);
    // An entry that is cut short is an error at the place of its kind.
    let err = Mapping::from_str("Mapping:\n- a -> Nowhere").unwrap_err();
    assert_eq!(err.position, 16);
    // An entry is followed by a blank.
    let err = Mapping::from_str("Mapping:\n- a -> ?").unwrap_err();
    assert_eq!(err.position, 17);
    let err = Mapping::from_str("Mapping:\n- a -> ?- b -> ?\n").unwrap_err();
    assert_eq!(err.position, 17);
}
