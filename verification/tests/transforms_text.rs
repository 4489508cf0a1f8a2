use loopana::representations::transforms::{Transform, Transforms};

#[test]
fn transforms_test_serde() {
    let test_str = "n -> (n, simd) by 4";
    let transform: Transform = Transform::from_str(test_str).unwrap();
    let expected_transform = Transform::Tiling(("n".to_string(), "simd".to_string(), 4));
    assert_eq!(transform, expected_transform);

    let test_str = "!Tiling n -> (n, x) by 8";
    let transform: Transform = Transform::from_str(test_str).unwrap();
    let expected_transform = Transform::Tiling(("n".to_string(), "x".to_string(), 8));
    assert_eq!(transform, expected_transform);

    let test_str = "m -> ty";
    let transform: Transform = Transform::from_str(test_str).unwrap();
    let expected_transform = Transform::Renaming(("m".to_string(), "ty".to_string()));
    assert_eq!(transform, expected_transform);

    let test_str = "!MapSpatial x => Spatial";
    let transform: Transform = Transform::from_str(test_str).unwrap();
    let expected_transform = Transform::MapSpatial("x".to_string());
    assert_eq!(transform, expected_transform);

    let test_str = "y => Spatial";
    let transform: Transform = Transform::from_str(test_str).unwrap();
    let expected_transform = Transform::MapSpatial("y".to_string());
    assert_eq!(transform, expected_transform);

    let test_str = "!MapSpatial simd => Spatial";
    let transform: Transform = Transform::from_str(test_str).unwrap();
    let expected_transform = Transform::MapSpatial("simd".to_string());
    assert_eq!(transform, expected_transform);

    let test_str = "!MapTemporal ty => Temporal";
    let transform: Transform = Transform::from_str(test_str).unwrap();
    let expected_transform = Transform::MapTemporal("ty".to_string());
    assert_eq!(transform, expected_transform);

    let test_str = "!Reorder y <-> tn";
    let transform: Transform = Transform::from_str(test_str).unwrap();
    let expected_transform = Transform::Reorder(("y".to_string(), "tn".to_string()));
    assert_eq!(transform, expected_transform);

    let test_str = "x <-> y";
    let transform: Transform = Transform::from_str(test_str).unwrap();
    let expected_transform = Transform::Reorder(("x".to_string(), "y".to_string()));
    assert_eq!(transform, expected_transform);

    let test_str = r#"
// tiling n into simd by 4
 - n -> (n, simd) by 4
 - !Tiling n -> (n, x) by 8 // tiling n into x by 8
 - !Tiling m -> (m, y) by 8
 - m -> ty
 - n -> tn
 - !MapSpatial x => Spatial
 - y => Spatial
 - !MapSpatial simd => Spatial
 - !MapTemporal ty => Temporal
 - !MapTemporal tn => Temporal
 - !Reorder y <-> tn
 - x <-> y
        "#;
    let transforms: Transforms = Transforms::from_str(test_str).unwrap();
    let expected_transforms = Transforms {
        transforms: vec![
            Transform::Tiling(("n".to_string(), "simd".to_string(), 4)),
            Transform::Tiling(("n".to_string(), "x".to_string(), 8)),
            Transform::Tiling(("m".to_string(), "y".to_string(), 8)),
            Transform::Renaming(("m".to_string(), "ty".to_string())),
            Transform::Renaming(("n".to_string(), "tn".to_string())),
            Transform::MapSpatial("x".to_string()),
            Transform::MapSpatial("y".to_string()),
            Transform::MapSpatial("simd".to_string()),
            Transform::MapTemporal("ty".to_string()),
            Transform::MapTemporal("tn".to_string()),
            Transform::Reorder(("y".to_string(), "tn".to_string())),
            Transform::Reorder(("x".to_string(), "y".to_string())),
        ],
    };
    assert_eq!(transforms, expected_transforms);
    // serialize -> deserialize
    let serialized = transforms.to_string();
    println!("{}", serialized);
    let deserialized: Transforms = Transforms::from_str(&serialized).unwrap();
    assert_eq!(
        transforms, deserialized,
        "Serialized string: {}",
        serialized
    );
}

#[test]
fn test_normalization() {}

#[test]
fn a_printed_script_is_read_back() {
    let script = Transforms {
        transforms: vec![
            Transform::Tiling(("n".to_string(), "simd_4".to_string(), 4)),
            Transform::Tiling(("Tiling".to_string(), "x".to_string(), -8)),
            Transform::Renaming(("m".to_string(), "ty".to_string())),
            Transform::Renaming(("by".to_string(), "Spatial".to_string())),
            Transform::MapSpatial("largeur_é".to_string()),
            Transform::MapTemporal("_".to_string()),
            Transform::MapTemporal("0".to_string()),
            Transform::Reorder(("y".to_string(), "tn".to_string())),
            Transform::Reorder(("Reorder".to_string(), "Renaming".to_string())),
        ],
    };
    let text = script.to_string();
    assert_eq!(
        text,
        " - !Tiling n -> (n, simd_4) by 4\n \
         - !Tiling Tiling -> (Tiling, x) by -8\n \
         - !Renaming m -> ty\n \
         - !Renaming by -> Spatial\n \
         - !MapSpatial largeur_é => Spatial\n \
         - !MapTemporal _ => Temporal\n \
         - !MapTemporal 0 => Temporal\n \
         - !Reorder y <-> tn\n \
         - !Reorder Reorder <-> Renaming\n"
    );
    assert_eq!(Transforms::from_str(&text), Ok(script));
    for t in Transforms::from_str(&text).unwrap().transforms {
        assert_eq!(Transform::from_str(&t.to_string()), Ok(t));
    }
    let empty = Transforms { transforms: vec![] };
    assert_eq!(empty.to_string(), "");
    assert_eq!(Transforms::from_str(""), Ok(empty));
}
