use loopana::passes::transform_pass::Transforming;
use loopana::representations::affine_expr::{AffineExpr, Coeff};
use loopana::representations::instruction_parse::parse_instruction;
use loopana::representations::loops::{parse_loop_iter, LoopIter, LoopNest, LoopProperties};
use loopana::representations::mapping::MappingType;
use loopana::representations::transforms::{Transform, TransformError, Transforms};

fn nest(iters: &[&str], body: &[&str]) -> LoopNest {
    LoopNest {
        iters: iters.iter().map(|t| parse_loop_iter(t).unwrap()).collect(),
        body: body.iter().map(|t| parse_instruction(t).unwrap()).collect(),
        properties: None,
    }
}

fn tiling(old: &str, new: &str, factor: i32) -> Transform {
    Transform::Tiling((old.to_string(), new.to_string(), factor))
}

fn var(name: &str) -> AffineExpr {
    AffineExpr::Var(name.to_string())
}

#[test]
fn tiling_splits_the_iterator() {
    let start = nest(&["for n in (0..200)"], &["Rb <= B[n]"]);
    let tiled = start.apply(&tiling("n", "simd", 4)).unwrap();
    assert_eq!(
        tiled,
        nest(
            &["for n in (0..50)", "for simd in (0..4)"],
            &["Rb <= B[4 * simd + n]"]
        )
    );
    // The nest that was transformed is still there.
    assert_eq!(start, nest(&["for n in (0..200)"], &["Rb <= B[n]"]));
    // What tiling gives is read back from its text.
    for inst in &tiled.body {
        assert_eq!(&parse_instruction(&inst.to_string()).unwrap(), inst);
    }
    for it in &tiled.iters {
        assert_eq!(&parse_loop_iter(&it.to_string()).unwrap(), it);
    }
}

#[test]
fn tiling_fails_where_the_factor_does_not_divide() {
    let start = nest(&["for n in (0..200)"], &["Rb <= B[n]"]);
    assert_eq!(
        start.apply(&tiling("n", "simd", 3)),
        Err(TransformError::NonDivisibleTile {
            iter: "n".to_string(),
            bound: 200,
            factor: 3
        })
    );
    assert_eq!(
        start.apply(&tiling("n", "simd", 0)),
        Err(TransformError::NonDivisibleTile {
            iter: "n".to_string(),
            bound: 200,
            factor: 0
        })
    );
    assert_eq!(
        start.apply(&tiling("n", "simd", -4)),
        Err(TransformError::NonDivisibleTile {
            iter: "n".to_string(),
            bound: 200,
            factor: -4
        })
    );
    let negative = LoopIter {
        iter_name: "n".to_string(),
        bounds: (-10, -6),
        step: 2,
    };
    assert_eq!(
        negative.apply(&tiling("n", "t", 3)).unwrap().bounds,
        (-10, -2)
    );
    assert!(negative.apply(&tiling("n", "t", 4)).is_err());
}

#[test]
fn tiling_keeps_the_step_and_the_place() {
    let start = nest(
        &["for m in (0..8)", "for n in (0..200).step(2)", "for k in (0..3)"],
        &["Rb <= B[n][k]", "add R1 R2, $1"],
    );
    let tiled = start.apply(&tiling("n", "simd", 4)).unwrap();
    assert_eq!(
        tiled,
        nest(
            &[
                "for m in (0..8)",
                "for n in (0..50).step(2)",
                "for simd in (0..4).step(2)",
                "for k in (0..3)"
            ],
            &["Rb <= B[4 * simd + n][k]", "add R1 R2, $1"]
        )
    );
}

#[test]
fn tiling_errors() {
    let start = nest(&["for n in (0..200)"], &["Rb <= B[M_n * n]"]);
    assert_eq!(
        start.apply(&tiling("M_n", "simd", 4)),
        Err(TransformError::TileOverCoeffVar("M_n".to_string()))
    );
    assert_eq!(
        start.apply(&tiling("q", "simd", 4)),
        Err(TransformError::IterNotFound("q".to_string()))
    );
    let c = Coeff::Mul(
        Box::new(Coeff::Const(2)),
        Box::new(Coeff::ConstVar("M_a".to_string())),
    );
    assert_eq!(
        c.apply(&tiling("M_a", "t", 2)),
        Err(TransformError::TileOverCoeffVar("M_a".to_string()))
    );
    assert_eq!(c.apply(&tiling("M_b", "t", 2)), Ok(c.clone()));
}

#[test]
fn renaming_rewrites_every_occurrence() {
    let start = nest(
        &["for m in (0..8)", "for n in (0..200)"],
        &["Rb <= B[M_n * n + m]", "mul R1 R2, R3"],
    );
    let renamed = start
        .apply(&Transform::Renaming(("n".to_string(), "tn".to_string())))
        .unwrap();
    assert_eq!(
        renamed,
        nest(
            &["for m in (0..8)", "for tn in (0..200)"],
            &["Rb <= B[M_n * tn + m]", "mul R1 R2, R3"]
        )
    );
    let coeff = Coeff::ConstVar("M_a".to_string());
    assert_eq!(
        coeff.apply(&Transform::Renaming(("M_a".to_string(), "M_b".to_string()))),
        Ok(Coeff::ConstVar("M_b".to_string()))
    );
    assert_eq!(
        start.apply(&Transform::Renaming(("q".to_string(), "r".to_string()))),
        Err(TransformError::IterNotFound("q".to_string()))
    );
}

#[test]
fn reorder_swaps_two_iterators() {
    let start = nest(
        &["for m in (0..8)", "for k in (0..3)", "for n in (0..200)"],
        &["Rb <= B[n][m]"],
    );
    let swapped = start
        .apply(&Transform::Reorder(("n".to_string(), "m".to_string())))
        .unwrap();
    assert_eq!(
        swapped,
        nest(
            &["for n in (0..200)", "for k in (0..3)", "for m in (0..8)"],
            &["Rb <= B[n][m]"]
        )
    );
    assert_eq!(
        start.apply(&Transform::Reorder(("x".to_string(), "m".to_string()))),
        Err(TransformError::IterNotFound("x".to_string()))
    );
    assert_eq!(
        start.apply(&Transform::Reorder(("m".to_string(), "y".to_string()))),
        Err(TransformError::IterNotFound("y".to_string()))
    );
}

#[test]
fn reordering_twice_gives_the_nest_back() {
    let start = nest(
        &["for m in (0..8)", "for k in (0..3)", "for n in (0..200)"],
        &["Rb <= B[n][m]", "cmp Rcmp Ra, $0"],
    );
    for (a, b) in [("n", "m"), ("m", "n"), ("k", "k"), ("m", "k")] {
        let t = Transform::Reorder((a.to_string(), b.to_string()));
        let once = start.apply(&t).unwrap();
        assert_eq!(once.apply(&t).unwrap(), start);
    }
    // With two iterators of one name the first of them is the one that moves.
    let twins = nest(
        &["for m in (0..8)", "for k in (0..3)", "for m in (0..9)"],
        &[],
    );
    let t = Transform::Reorder(("m".to_string(), "k".to_string()));
    let once = twins.apply(&t).unwrap();
    assert_eq!(
        once,
        nest(&["for k in (0..3)", "for m in (0..8)", "for m in (0..9)"], &[])
    );
    assert_eq!(once.apply(&t).unwrap(), twins);
    let far = nest(
        &["for m in (0..8)", "for m in (0..9)", "for k in (0..3)"],
        &[],
    );
    let once = far.apply(&t).unwrap();
    assert_eq!(
        once,
        nest(&["for k in (0..3)", "for m in (0..9)", "for m in (0..8)"], &[])
    );
    assert_eq!(
        once.apply(&t).unwrap(),
        nest(&["for m in (0..9)", "for k in (0..3)", "for m in (0..8)"], &[])
    );
}

#[test]
fn mapping_directives_bind_the_iterator() {
    let start = nest(&["for x in (0..8)", "for t in (0..3)"], &["Rb <= B[x]"]);
    let spatial = start
        .apply(&Transform::MapSpatial("x".to_string()))
        .unwrap();
    assert_eq!(
        spatial.properties,
        Some(LoopProperties {
            mapping: vec![("x".to_string(), MappingType::Spatial("x".to_string()))]
        })
    );
    assert_eq!(spatial.iters, start.iters);
    assert_eq!(spatial.body, start.body);
    let both = spatial
        .apply(&Transform::MapTemporal("t".to_string()))
        .unwrap()
        .apply(&Transform::MapTemporal("x".to_string()))
        .unwrap();
    assert_eq!(
        both.properties,
        Some(LoopProperties {
            mapping: vec![
                ("x".to_string(), MappingType::Temporal),
                ("t".to_string(), MappingType::Temporal)
            ]
        })
    );
    // Other transforms leave the mapping as it is.
    let renamed = both
        .apply(&Transform::Renaming(("x".to_string(), "y".to_string())))
        .unwrap();
    assert_eq!(renamed.properties, both.properties);
}

#[test]
fn a_script_is_a_left_fold() {
    let start = nest(
        &["for m in (0..64)", "for n in (0..200)"],
        &["Rb <= B[n][m]", "Rc => C[2 * n]"],
    );
    let script = Transforms::from_str(
        " - n -> (n, simd) by 4\n - !Tiling n -> (n, x) by 5\n - n -> tn\n - x <-> m\n - simd => Spatial\n",
    )
    .unwrap();
    let mut step_by_step = start.clone();
    for t in &script.transforms {
        step_by_step = step_by_step.apply(t).unwrap();
    }
    let at_once = start.apply_all(&script).unwrap();
    assert_eq!(at_once, step_by_step);
    assert_eq!(
        at_once.iters,
        nest(
            &[
                "for x in (0..5)",
                "for tn in (0..10)",
                "for m in (0..64)",
                "for simd in (0..4)"
            ],
            &[]
        )
        .iters
    );
    assert_eq!(
        at_once.body[0].to_string(),
        "Rb <= B[4 * simd + 5 * x + tn][m]"
    );
    // Renaming after tiling rebinds the outer iterator only.
    assert_eq!(at_once.body[1].to_string(), "Rc => C[2 * (4 * simd + 5 * x + tn)]");
    // The empty script changes nothing.
    assert_eq!(
        start.apply_all(&Transforms { transforms: vec![] }).unwrap(),
        start
    );
    // The first failure ends the script.
    let failing = Transforms {
        transforms: vec![
            tiling("n", "simd", 4),
            tiling("n", "x", 7),
            tiling("zz", "y", 2),
        ],
    };
    assert_eq!(
        start.apply_all(&failing),
        Err(TransformError::NonDivisibleTile {
            iter: "n".to_string(),
            bound: 50,
            factor: 7
        })
    );
}

#[test]
fn nodes_without_the_target_stay_as_they_are() {
    let e = AffineExpr::Add(
        Box::new(AffineExpr::Mul(
            Coeff::ConstVar("M_a".to_string()),
            Box::new(var("x")),
        )),
        Box::new(AffineExpr::Mod(Box::new(var("y")), Coeff::Const(3))),
    );
    for t in [
        tiling("n", "simd", 4),
        Transform::Renaming(("n".to_string(), "tn".to_string())),
        Transform::Reorder(("x".to_string(), "y".to_string())),
        Transform::MapSpatial("x".to_string()),
        Transform::MapTemporal("x".to_string()),
    ] {
        assert_eq!(e.apply(&t), Ok(e.clone()));
    }
    let inst = parse_instruction("mac Rc1 Ra, Rb, Rc (LE Rcmp)").unwrap();
    assert_eq!(inst.apply(&tiling("Ra", "Rb", 2)), Ok(inst.clone()));
    let it = parse_loop_iter("for m in (0..7)").unwrap();
    assert_eq!(it.apply(&tiling("n", "simd", 4)), Ok(it.clone()));
    let props = LoopProperties {
        mapping: vec![("x".to_string(), MappingType::InterTile)],
    };
    assert_eq!(props.apply(&tiling("x", "y", 2)), Ok(props.clone()));
}

#[test]
fn transform_validity_of_text() {
    assert_eq!(
        Transform::from_str("n -> (m, simd) by 4").unwrap_err().position,
        0
    );
    let err = Transforms::from_str(" - n -> tn\n - n -> (n simd) by 4\n").unwrap_err();
    assert_eq!(err.position, 14);
    assert!(Transform::from_str("!MapSpatial x => Temporal").is_err());
    assert_eq!(
        Transform::from_str("  a_1  ->  ( a_1 ,b ) by   12").unwrap(),
        tiling("a_1", "b", 12)
    );
    assert_eq!(
        tiling("n", "simd", 4).to_string(),
        "!Tiling n -> (n, simd) by 4"
    );
    assert_eq!(
        Transforms::from_str("// nothing\n\n").unwrap(),
        Transforms { transforms: vec![] }
    );
    // Names are made of letters and digits of any script, and underscores.
    assert_eq!(
        Transform::from_str("\u{e9}t\u{e9}_1 -> \u{3b1}").unwrap(),
        Transform::Renaming(("\u{e9}t\u{e9}_1".to_string(), "\u{3b1}".to_string()))
    );
    assert!(Transform::from_str("a-b -> c").is_err());
    assert!(Transform::from_str("+ -> c").is_err());
}

#[test]
fn valid_iterators_and_instructions() {
    let it = parse_loop_iter("for m in (0..8)").unwrap();
    assert!(it.is_valid());
    assert!(!parse_loop_iter("for m in (8..0)").unwrap().is_valid());
    assert!(!parse_loop_iter("for m in (0..8).step(0)").unwrap().is_valid());
    // Tiling keeps the lower bound, which may then be above the upper one.
    let tight = parse_loop_iter("for m in (6..8)").unwrap();
    let tiled = tight.apply(&tiling("m", "t", 4)).unwrap();
    assert_eq!(tiled.bounds, (6, 2));
    assert!(!tiled.is_valid());
    let inst = parse_instruction("R1 <= A[x] (EQ Rc)").unwrap();
    assert!(inst.is_valid());
    assert!(inst.apply(&tiling("x", "t", 4)).unwrap().is_valid());
}
