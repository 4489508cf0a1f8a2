use loopana::passes::transform_pass::Transforming;
use loopana::representations::instruction_parse::parse_instruction;
use loopana::representations::loops::{parse_loop_iter, LoopIter, LoopNest};
use loopana::representations::transforms::Transforms;
use loopana::text::ParseErrorKind;

fn nest_from_yaml(text: &str) -> LoopNest {
    let value: serde_yaml::Value = serde_yaml::from_str(text).unwrap();
    let iters = value
        .get("iters")
        .unwrap()
        .as_sequence()
        .unwrap()
        .iter()
        .map(|v| parse_loop_iter(v.as_str().unwrap()).unwrap())
        .collect();
    let body = value
        .get("body")
        .unwrap()
        .as_sequence()
        .unwrap()
        .iter()
        .map(|v| parse_instruction(v.as_str().unwrap()).unwrap())
        .collect();
    LoopNest {
        iters,
        body,
        properties: None,
    }
}

fn nest_to_yaml(nest: &LoopNest) -> String {
    let mut map = serde_yaml::Mapping::new();
    map.insert(
        serde_yaml::Value::String("iters".to_string()),
        serde_yaml::Value::Sequence(
            nest.iters
                .iter()
                .map(|i| serde_yaml::Value::String(i.to_string()))
                .collect(),
        ),
    );
    map.insert(
        serde_yaml::Value::String("body".to_string()),
        serde_yaml::Value::Sequence(
            nest.body
                .iter()
                .map(|i| serde_yaml::Value::String(i.to_string()))
                .collect(),
        ),
    );
    serde_yaml::to_string(&serde_yaml::Value::Mapping(map)).unwrap()
}

#[test]
fn loops_test_serde() {
    let loop_prob_str = r#"
iters:
  - for m in (0..100).step(1)
  - for k in (0..300)
  - for n in (0..200)
body:
  - Ra <= A[m][k]
  - cmp Rcmp Ra, $0
  - Rb <= B[k][n] (LE Rcmp)
  - Rc <= C[m][n] (LE Rcmp)
  - mac Rc1 Ra, Rb, Rc (LE Rcmp)
  - Rc1 => C[m][n] (LE Rcmp)
    "#;
    let loop_prob: LoopNest = nest_from_yaml(loop_prob_str);
    let serialized = nest_to_yaml(&loop_prob).clone();
    println!("{}", serialized);
    let deserialized: LoopNest = nest_from_yaml(&serialized);
    assert_eq!(loop_prob, deserialized);
    assert_eq!(loop_prob.iters.len(), 3);
    assert_eq!(loop_prob.body.len(), 6);
    assert_eq!(loop_prob.iters[0].step, 1);
}

#[test]
fn loop_iter_text() {
    let it = parse_loop_iter("for m in (0..100).step(2)").unwrap();
    assert_eq!(
        it,
        LoopIter {
            iter_name: "m".to_string(),
            bounds: (0, 100),
            step: 2
        }
    );
    assert_eq!(it.to_string(), "for m in (0..100).step(2)");
    let plain = parse_loop_iter("for   simd in(-4..+4)").unwrap();
    assert_eq!(
        plain,
        LoopIter {
            iter_name: "simd".to_string(),
            bounds: (-4, 4),
            step: 1
        }
    );
    assert_eq!(plain.to_string(), "for simd in (-4..4)");
    // A step that cannot be read is no step.
    assert_eq!(parse_loop_iter("for k in (0..300).step(").unwrap().step, 1);
    assert_eq!(parse_loop_iter("for k in (0..300) .step(7)").unwrap().step, 7);
    for text in [
        "",
        "form in (0..1)",
        "for 1 in (0..1)",
        "for m (0..1)",
        "for m in (0.1)",
        "for m in (0..)",
        "for m in (0..99999999999)",
        "for m in (0..1",
    ] {
        let err = parse_loop_iter(text).unwrap_err();
        assert_eq!(err.kind, ParseErrorKind::LoopIter);
        assert_eq!(err.position, 0);
    }
}

#[test]
fn nest_text() {
    let nest = LoopNest {
        iters: vec![parse_loop_iter("for n in (0..200)").unwrap()],
        body: vec![parse_instruction("Rb <= B[n]").unwrap()],
        properties: None,
    };
    assert_eq!(nest.to_string(), "for n in (0..200)\n    Rb <= B[n]\n");
    let copy = nest.clone();
    assert_eq!(copy, nest);
}

#[test]
fn test_transforms() {
    let input_str = r#"
// tiling n into simd by 4
 - n -> (n, simd) by 4
 - !Tiling n -> (n, x) by 10 // tiling n into x
 - !Tiling m -> (m, y) by 4
 - m -> ty
 - n -> tn
 - !MapSpatial x => Spatial
 - y => Spatial
 - !Reorder y <-> tn
"#;
    let transforms: Transforms = Transforms::from_str(input_str).unwrap();
    let yaml_str = r#"
iters:
  - for m in (0..100).step(1)
  - for k in (0..300)
  - for n in (0..200)
body:
  - Ra <= A[m][k]
  - cmp Rcmp Ra, $0
  - Rb <= B[k][n] (LE Rcmp)
  - mac Rc1 Ra, Rb, Rc (LE Rcmp)
  - Rc1 => C[m][n] (LE Rcmp)
"#;
    let loop_prob: LoopNest = nest_from_yaml(yaml_str);
    assert!(loop_prob.is_closed());
    let transformed_loop_prob = loop_prob.apply_all(&transforms).unwrap();
    assert!(transformed_loop_prob.is_closed());
    // Serialize the transformed loop prob
    let serialized = nest_to_yaml(&transformed_loop_prob);
    // try to load it again
    let reloaded: LoopNest = nest_from_yaml(&serialized);
    assert_eq!(reloaded.iters, transformed_loop_prob.iters);
    // A variable tiled twice stands at the right of a sum, which the text
    // does not show: the text is the same, the grouping is not.
    assert_eq!(nest_to_yaml(&reloaded), serialized);
    assert_ne!(reloaded.body, transformed_loop_prob.body);
    assert_eq!(reloaded.body[0], transformed_loop_prob.body[0]);
    let names: Vec<&str> = reloaded.iters.iter().map(|i| i.iter_name.as_str()).collect();
    assert_eq!(names, vec!["ty", "tn", "k", "y", "x", "simd"]);
    assert_eq!(
        reloaded.body[4].to_string(),
        "Rc1 => C[4 * y + ty][4 * simd + 10 * x + tn] (LE Rcmp)"
    );
    let open = LoopNest {
        iters: vec![],
        body: vec![parse_instruction("Rb <= B[q]").unwrap()],
        properties: None,
    };
    assert!(!open.is_closed());
}
