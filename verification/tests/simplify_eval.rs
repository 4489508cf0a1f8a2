use loopana::representations::affine_expr::{AffineExpr, Coeff};
use loopana::representations::affine_parse::parse_expr;
use loopana::representations::affine_transforms::AffineTransform;
use loopana::representations::evaluate::EvalError;

fn expr(text: &str) -> AffineExpr {
    let (rest, e) = parse_expr(text).unwrap();
    assert_eq!(rest, "");
    e
}

fn c(v: i32) -> Box<Coeff> {
    Box::new(Coeff::Const(v))
}

fn cv(name: &str) -> Box<Coeff> {
    Box::new(Coeff::ConstVar(name.to_string()))
}

fn env() -> Vec<(String, i32)> {
    vec![
        ("x".to_string(), 7),
        ("y".to_string(), -3),
        ("M_a".to_string(), 4),
        ("x".to_string(), 100),
    ]
}

#[test]
fn coefficients_are_simplified() {
    assert_eq!(Coeff::Mul(c(0), cv("M_a")).simplify(), Coeff::Const(0));
    assert_eq!(Coeff::Mul(cv("M_a"), c(0)).simplify(), Coeff::Const(0));
    assert_eq!(Coeff::Mul(c(1), cv("M_a")).simplify(), *cv("M_a"));
    assert_eq!(Coeff::Mul(cv("M_a"), c(1)).simplify(), *cv("M_a"));
    assert_eq!(Coeff::Mul(c(3), c(-4)).simplify(), Coeff::Const(-12));
    assert_eq!(
        Coeff::Mul(c(3), Box::new(Coeff::Mul(c(3), cv("M_a")))).simplify(),
        Coeff::Mul(c(9), cv("M_a"))
    );
    assert_eq!(
        Coeff::Mul(Box::new(Coeff::Mul(cv("M_a"), c(5))), c(2)).simplify(),
        Coeff::Mul(c(10), cv("M_a"))
    );
    // A product that does not fit is left as it is.
    let big = Coeff::Mul(c(65536), c(65536));
    assert_eq!(big.simplify(), big.clone());
    // Constants go to the left.
    assert_eq!(
        Coeff::Mul(cv("M_a"), c(5)).normalize(),
        Coeff::Mul(c(5), cv("M_a"))
    );
    assert_eq!(
        Coeff::Mul(c(5), cv("M_a")).normalize(),
        Coeff::Mul(c(5), cv("M_a"))
    );
    assert_eq!(
        Coeff::Mul(cv("M_a"), cv("M_b")).normalize(),
        Coeff::Mul(cv("M_a"), cv("M_b"))
    );
    assert_eq!(Coeff::Mul(c(2), c(3)).normalize(), Coeff::Const(6));
    assert_eq!(
        Coeff::Mul(cv("M_a"), c(5)).simplify(),
        Coeff::Mul(c(5), cv("M_a"))
    );
}

fn m1_times(e: Coeff) -> Coeff {
    Coeff::Mul(c(-1), Box::new(e))
}

#[test]
fn a_constant_folded_to_one_is_dropped() {
    let twice = m1_times(m1_times(*cv("M_a")));
    assert_eq!(twice.simplify(), *cv("M_a"));
    assert_eq!(twice.normalize(), *cv("M_a"));
    assert_eq!(
        Coeff::Mul(Box::new(Coeff::Mul(cv("M_a"), c(-1))), c(-1)).normalize(),
        *cv("M_a")
    );
    assert_eq!(
        m1_times(m1_times(Coeff::Mul(cv("M_a"), cv("M_b")))).normalize(),
        Coeff::Mul(cv("M_a"), cv("M_b"))
    );
    assert_eq!(m1_times(m1_times(Coeff::Const(7))).normalize(), Coeff::Const(7));
    assert_eq!(expr("-1 * (-1 * x)").simplify(), expr("x"));
    assert_eq!(expr("1 + (-1 + x)").simplify(), expr("x"));
    assert_eq!(
        AffineExpr::Add(
            Box::new(expr("1")),
            Box::new(AffineExpr::Add(Box::new(expr("x")), Box::new(expr("-1"))))
        )
        .simplify(),
        expr("x")
    );
    let x_minus_one = AffineExpr::Sub(Box::new(expr("x")), Box::new(expr("1")));
    assert_eq!(
        AffineExpr::Add(Box::new(expr("1")), Box::new(x_minus_one)).simplify(),
        expr("x")
    );
    // A difference has no neutral constant on its left.
    let m1_minus_y = AffineExpr::Sub(Box::new(expr("-1")), Box::new(expr("y")));
    assert_eq!(
        AffineExpr::Add(Box::new(expr("1")), Box::new(m1_minus_y)).simplify(),
        AffineExpr::Sub(Box::new(expr("0")), Box::new(expr("y")))
    );
    assert_eq!(
        AffineExpr::Mul(
            Coeff::Const(2),
            Box::new(AffineExpr::Mul(Coeff::Const(3), Box::new(expr("4"))))
        )
        .simplify(),
        expr("24")
    );
}

#[test]
fn a_simplified_expression_stays_as_it_is() {
    for text in [
        "1 + x + 2",
        "x + 1 + y + 2",
        "x + (y + 1)",
        "1 + ((2 + 3) - 1)",
        "1 + (x - 1)",
        "2147483647 + (1 + x)",
        "2147483647 + (x - -1)",
        "-1 * (-1 * x)",
        "65536 * (32768 * x)",
        "-1 * (65536 * (32768 * x))",
        "(M_a * 2) * (3 * x) % (M_a * 1)",
        "(0 * x + 1 * y) / 3 - 5 * z",
        "(1*x + M_a*y)/ 3 - 3*z%5",
    ] {
        let once = expr(text).simplify();
        assert_eq!(once.simplify(), once, "{}", text);
    }
    assert_eq!(expr("x + 1 + y + 2").simplify(), expr("2 + ((1 + x) + y)"));
    assert_eq!(expr("-1 * (65536 * (32768 * x))").simplify(), expr("-2147483648 * x"));
}

fn coefficients() -> Vec<Coeff> {
    let ab = Coeff::Mul(cv("M_a"), cv("M_b"));
    vec![
        Coeff::Const(3),
        *cv("M_a"),
        Coeff::Mul(c(3), cv("M_a")),
        Coeff::Mul(cv("M_a"), c(3)),
        m1_times(m1_times(*cv("M_a"))),
        Coeff::Mul(c(65536), c(65536)),
        Coeff::Mul(c(65536), c(32768)),
        m1_times(Coeff::Mul(c(65536), c(32768))),
        Coeff::Mul(c(2), Box::new(Coeff::Mul(c(65536), Box::new(Coeff::Mul(c(32768), cv("M_a")))))),
        Coeff::Mul(Box::new(ab.clone()), c(4)),
        Coeff::Mul(c(4), Box::new(Coeff::Mul(Box::new(Coeff::Mul(cv("M_a"), c(2))), cv("M_b")))),
        Coeff::Mul(Box::new(Coeff::Mul(c(0), cv("M_a"))), Box::new(ab.clone())),
        Coeff::Mul(Box::new(ab.clone()), Box::new(Coeff::Mul(c(1), c(1)))),
        Coeff::Mul(Box::new(Coeff::Mul(c(2), cv("M_a"))), Box::new(Coeff::Mul(cv("M_b"), c(3)))),
    ]
}

fn constants_on_left(c: &Coeff) -> bool {
    match c {
        Coeff::Mul(a, b) => {
            constants_on_left(a)
                && constants_on_left(b)
                && (!matches!(**b, Coeff::Const(_)) || matches!(**a, Coeff::Const(_)))
        }
        _ => true,
    }
}

#[test]
fn a_canonical_coefficient_stays_as_it_is() {
    assert_eq!(
        Coeff::Mul(c(3), cv("M_a")).normalize(),
        Coeff::Mul(c(3), cv("M_a"))
    );
    for coeff in coefficients() {
        let n = coeff.normalize();
        assert_eq!(n.normalize(), n);
        assert!(constants_on_left(&n));
        let bound = vec![("M_a".to_string(), 1), ("M_b".to_string(), -1)];
        if coeff.evaluate(&bound).is_ok() {
            assert_eq!(n.evaluate(&bound), coeff.evaluate(&bound));
        }
    }
    // A product that fits only after a change of sign is folded at once.
    assert_eq!(
        m1_times(Coeff::Mul(c(65536), c(32768))).normalize(),
        Coeff::Const(i32::MIN)
    );
    assert_eq!(
        Coeff::Mul(c(65536), c(32768)).normalize(),
        Coeff::Mul(c(65536), c(32768))
    );
}

#[test]
fn expressions_are_simplified() {
    assert_eq!(expr("1 + x + 2").simplify(), expr("3 + x"));
    assert_eq!(expr("x + 1 + 2").simplify(), expr("3 + x"));
    assert_eq!(expr("0 + x").simplify(), expr("x"));
    assert_eq!(expr("x + 0").simplify(), expr("x"));
    assert_eq!(expr("2 + 3").simplify(), expr("5"));
    assert_eq!(expr("x + y").simplify(), expr("x + y"));
    // c1 + (c2 - y) = (c1 + c2) - y and c1 + (x - c2) = (c1 - c2) + x
    let c2_minus_y = AffineExpr::Sub(Box::new(expr("5")), Box::new(expr("y")));
    assert_eq!(
        AffineExpr::Add(Box::new(expr("2")), Box::new(c2_minus_y)).simplify(),
        expr("7 - y")
    );
    let x_minus_c2 = AffineExpr::Sub(Box::new(expr("x")), Box::new(expr("5")));
    assert_eq!(
        AffineExpr::Add(Box::new(expr("2")), Box::new(x_minus_c2.clone())).simplify(),
        expr("-3 + x")
    );
    // A difference keeps its shape; its operands are simplified.
    assert_eq!(x_minus_c2.simplify(), x_minus_c2);
    assert_eq!(expr("(1 + 2) - (x + 0)").simplify(), expr("3 - x"));
    assert_eq!(expr("x - 0").simplify(), expr("x"));
    assert_eq!(expr("5 - 3").simplify(), expr("2"));
    assert_eq!(expr("0 - x").simplify(), expr("0 - x"));
    assert_eq!(expr("1 + ((2 + 3) - 1)").simplify(), expr("5"));
    let below = expr("-2147483648 - 1");
    assert_eq!(below.simplify(), below);
    assert_eq!(expr("(M_a * 2) * x").simplify(), expr("(2 * M_a) * x"));
    assert_eq!(
        AffineExpr::Mul(Coeff::Const(1), Box::new(expr("x + y"))).simplify(),
        expr("x + y")
    );
    assert_eq!(
        AffineExpr::Mul(Coeff::Const(0), Box::new(expr("x + y"))).simplify(),
        expr("0")
    );
    assert_eq!(expr("2 * (3 * x)").simplify(), expr("6 * x"));
    assert_eq!(expr("(1 + x + 2) / (M_a * 2)").simplify(), expr("(3 + x) / (2 * M_a)"));
    let too_big = expr("2147483647 + 1");
    assert_eq!(too_big.simplify(), too_big);
}

#[test]
fn simplification_keeps_the_value() {
    for text in [
        "1 + x + 2",
        "x + 1 + 2 + y",
        "(M_a * 2) * x + 0",
        "2 * (3 * x) % 5",
        "(1 + x + 2) / (M_a * 2)",
        "0 * y + 1 * x",
        "1 + (-1 + x)",
        "-1 * (-1 * x)",
        "2147483647 + (-2147483647 + x)",
        "-2 + (x + 2)",
        "3 * (x + 1) + (2 + (3 + y)) % (M_a * 1)",
    ] {
        let e = expr(text);
        assert!(e.evaluate(&env()).is_ok());
        assert_eq!(e.simplify().evaluate(&env()), e.evaluate(&env()));
    }
}

#[test]
fn evaluation() {
    assert_eq!(expr("(1*x + M_a*y)/ 3 - 3*x%5").evaluate(&env()), Ok(-2));
    assert_eq!(expr("x / 2").evaluate(&env()), Ok(3));
    assert_eq!(expr("y / 2").evaluate(&env()), Ok(-1));
    assert_eq!(expr("y % 2").evaluate(&env()), Ok(-1));
    assert_eq!(expr("x % -4").evaluate(&env()), Ok(3));
    assert_eq!(expr("y / -2").evaluate(&env()), Ok(1));
    assert_eq!(expr("x - y").evaluate(&env()), Ok(10));
    assert_eq!(
        expr("x + z").evaluate(&env()),
        Err(EvalError::UnboundVariable("z".to_string()))
    );
    assert_eq!(
        expr("M_b * x").evaluate(&env()),
        Err(EvalError::UnboundVariable("M_b".to_string()))
    );
    assert_eq!(expr("x / 0").evaluate(&env()), Err(EvalError::DivisionByZero));
    assert_eq!(expr("x % 0").evaluate(&env()), Err(EvalError::DivisionByZero));
    assert_eq!(
        expr("2147483647 + 1").evaluate(&env()),
        Err(EvalError::Overflow)
    );
    assert_eq!(
        expr("-2147483648 - 1").evaluate(&env()),
        Err(EvalError::Overflow)
    );
    assert_eq!(
        expr("65536 * (65536 * x)").evaluate(&env()),
        Err(EvalError::Overflow)
    );
    assert_eq!(
        expr("-2147483648 / -1").evaluate(&env()),
        Err(EvalError::Overflow)
    );
    assert_eq!(expr("-2147483648 % -1").evaluate(&env()), Ok(0));
    assert_eq!(expr("-2147483648 / 1").evaluate(&env()), Ok(i32::MIN));
    // The first failure, in the order of writing, is the result.
    assert_eq!(
        expr("z / 0").evaluate(&env()),
        Err(EvalError::UnboundVariable("z".to_string()))
    );
    assert_eq!(Coeff::Mul(c(3), cv("M_a")).evaluate(&env()), Ok(12));
}

#[test]
fn affine_transform_gives_the_outputs() {
    let t = AffineTransform {
        mapping: vec![
            ("ii".to_string(), expr("i / 10")),
            ("tile".to_string(), expr("i % 10")),
        ],
    };
    let input = vec![("i".to_string(), 23)];
    assert_eq!(
        t.apply(&input),
        Ok(vec![("ii".to_string(), 2), ("tile".to_string(), 3)])
    );
    assert_eq!(
        t.apply(&vec![]),
        Err(EvalError::UnboundVariable("i".to_string()))
    );
}
