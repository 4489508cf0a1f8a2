use loopana::representations::affine_expr::{AffineExpr, Coeff};
use loopana::representations::affine_parse::parse_expr;

fn var(name: &str) -> Box<AffineExpr> {
    Box::new(AffineExpr::Var(name.to_string()))
}

#[test]
fn affine_expr_test_serde() {
    // test deserialization
    {
        let yaml_str = "(1*x + M_a*y)/ 3 - 3*z%5\n";
        let text: String = serde_yaml::from_str(yaml_str).unwrap();
        let expr: AffineExpr = parse_expr(&text).unwrap().1;
        let expected_expr = AffineExpr::Sub(
            Box::new(AffineExpr::Div(
                Box::new(AffineExpr::Add(
                    Box::new(AffineExpr::Var("x".to_string())),
                    Box::new(AffineExpr::Mul(
                        Coeff::ConstVar("M_a".to_string()),
                        Box::new(AffineExpr::Var("y".to_string())),
                    )),
                )),
                Coeff::Const(3),
            )),
            Box::new(AffineExpr::Mod(
                Box::new(AffineExpr::Mul(
                    Coeff::Const(3),
                    Box::new(AffineExpr::Var("z".to_string())),
                )),
                Coeff::Const(5),
            )),
        );
        assert_eq!(expr, expected_expr);
    }

    // test ser->deser->ser consistency
    {
        let expr = AffineExpr::Sub(
            Box::new(AffineExpr::Add(
                Box::new(AffineExpr::Var("x".to_string())),
                Box::new(AffineExpr::Div(
                    Box::new(AffineExpr::Mul(
                        Coeff::Const(2),
                        Box::new(AffineExpr::Var("y".to_string())),
                    )),
                    Coeff::Const(3),
                )),
            )),
            Box::new(AffineExpr::Mod(
                Box::new(AffineExpr::Mul(
                    Coeff::Const(3),
                    Box::new(AffineExpr::Var("z".to_string())),
                )),
                Coeff::Const(5),
            )),
        );
        let serialized = serde_yaml::to_string(&expr.to_string()).unwrap();
        let text: String = serde_yaml::from_str(&serialized).unwrap();
        let deserialized: AffineExpr = parse_expr(&text).unwrap().1;
        assert_eq!(expr, deserialized);
    }

    // test another case for ser->deser->ser
    {
        let test_str = "(MAX_a * MAX_b) * x + y";
        let text: String = serde_yaml::from_str(test_str).unwrap();
        let expr: AffineExpr = parse_expr(&text).unwrap().1;
        let serialized = serde_yaml::to_string(&expr.to_string()).unwrap();
        let text: String = serde_yaml::from_str(&serialized).unwrap();
        let deserialized: AffineExpr = parse_expr(&text).unwrap().1;
        assert_eq!(expr, deserialized);
    }
}

#[test]
fn affine_prints_as_specified() {
    let e = AffineExpr::Add(
        Box::new(AffineExpr::Mul(Coeff::Const(4), var("simd"))),
        var("n"),
    );
    assert_eq!(e.to_string(), "4 * simd + n");
    let product = AffineExpr::Mul(Coeff::Const(-3), Box::new(e));
    assert_eq!(product.to_string(), "-3 * (4 * simd + n)");
    let c = Coeff::Mul(
        Box::new(Coeff::ConstVar("M_a".to_string())),
        Box::new(Coeff::Const(2)),
    );
    assert_eq!(AffineExpr::Div(var("x"), c.clone()).to_string(), "x / M_a * 2");
    assert_eq!(AffineExpr::Mod(var("x"), Coeff::Const(5)).to_string(), "x % 5");
    assert_eq!(AffineExpr::Const(i32::MIN).to_string(), "-2147483648");
    assert_eq!(AffineExpr::Const(0).to_string(), "0");
}

#[test]
fn affine_parse_rest_and_errors() {
    let (rest, e) = parse_expr("3x ]tail").unwrap();
    assert_eq!(e, AffineExpr::Mul(Coeff::Const(3), var("x")));
    assert_eq!(rest, "]tail");
    let err = parse_expr("   + ").unwrap_err();
    assert_eq!(err.position, 3);
    assert!(parse_expr("99999999999").is_err());
    assert_eq!(
        parse_expr("2147483647").unwrap().1,
        AffineExpr::Const(2147483647)
    );
    assert_eq!(
        parse_expr("-2147483648").unwrap().1,
        AffineExpr::Const(-2147483648)
    );
    assert_eq!(parse_expr("1 * x").unwrap().1, AffineExpr::Var("x".to_string()));
}

fn parsed(text: &str) -> AffineExpr {
    let (rest, e) = parse_expr(text).unwrap();
    assert_eq!(rest, "");
    e
}

#[test]
fn affine_grammar() {
    let x = || var("x");
    let three_x = AffineExpr::Mul(Coeff::Const(3), x());
    assert_eq!(parsed("3x"), three_x);
    assert_eq!(parsed("3 x"), three_x);
    assert_eq!(parsed("3*x"), three_x);
    assert_eq!(parsed("\t3 \t*\n  x"), three_x);
    // Between a coefficient and its `*` no line may end.
    assert_eq!(parse_expr("3\n* x").unwrap(), ("* x", AffineExpr::Const(3)));
    assert_eq!(parsed("( x )"), *x());
    assert_eq!(parsed("x+y"), AffineExpr::Add(x(), var("y")));
    assert_eq!(
        parsed("x-1"),
        AffineExpr::Sub(x(), Box::new(AffineExpr::Const(1)))
    );
    assert_eq!(
        parsed("x - -1"),
        AffineExpr::Sub(x(), Box::new(AffineExpr::Const(-1)))
    );
    // Sums and differences nest to the left.
    assert_eq!(
        parsed("x - y + z"),
        AffineExpr::Add(Box::new(AffineExpr::Sub(x(), var("y"))), var("z"))
    );
    // A coefficient is a product of constants, nested to the left.
    assert_eq!(
        parsed("2 * M_a * (3 * MAX_n) x"),
        AffineExpr::Mul(
            Coeff::Mul(
                Box::new(Coeff::Mul(
                    Box::new(Coeff::Const(2)),
                    Box::new(Coeff::ConstVar("M_a".to_string()))
                )),
                Box::new(Coeff::Mul(
                    Box::new(Coeff::Const(3)),
                    Box::new(Coeff::ConstVar("MAX_n".to_string()))
                ))
            ),
            x()
        )
    );
    // Division and remainder take a coefficient, once.
    assert_eq!(
        parsed("x / (2 * M_a)"),
        AffineExpr::Div(
            x(),
            Coeff::Mul(
                Box::new(Coeff::Const(2)),
                Box::new(Coeff::ConstVar("M_a".to_string()))
            )
        )
    );
    let (rest, e) = parse_expr("x / 2 / 3").unwrap();
    assert_eq!(e, AffineExpr::Div(x(), Coeff::Const(2)));
    assert_eq!(rest, " / 3");
    let (rest, e) = parse_expr("x / y").unwrap();
    assert_eq!(e, *x());
    assert_eq!(rest, "/ y");
    // A coefficient of 1 is left out, a coefficient that only has the value 1 is not.
    assert_eq!(parsed("1 * (x + y)"), AffineExpr::Add(x(), var("y")));
    assert_eq!(
        parsed("1 * 1 * x"),
        AffineExpr::Mul(
            Coeff::Mul(Box::new(Coeff::Const(1)), Box::new(Coeff::Const(1))),
            x()
        )
    );
    for text in ["", "-x", "()", "(x", "*x", "_a"] {
        assert!(parse_expr(text).is_err(), "{}", text);
    }
}

#[test]
fn affine_text_is_read_back() {
    for text in [
        "x",
        "-12",
        "x + 1 - y",
        "4 * simd + n",
        "M_a * x / 3 - 3 * z % 5",
        "2 * M_a * (x + 3 * (y - 1) / MAX_n2)",
        "-3 * (4 * (x % 2))",
        "0 - x + -2147483648",
    ] {
        let e = parsed(text);
        assert_eq!(e.to_string(), text);
        assert_eq!(parsed(&e.to_string()), e);
    }
    // The text does not show how sums are grouped or that a factor is 1.
    let grouped = AffineExpr::Add(var("x"), Box::new(AffineExpr::Add(var("y"), var("z"))));
    assert_eq!(grouped.to_string(), "x + y + z");
    assert_ne!(parsed("x + y + z"), grouped);
    let one = AffineExpr::Mul(Coeff::Const(1), var("x"));
    assert_eq!(one.to_string(), "1 * x");
    assert_ne!(parsed("1 * x"), one);
}
