use loopana::affine::AffineExpression;
use loopana::representations::loop_transforms::AffineTransform;

#[test]
fn test_affine() {
    // Create an affine expression: 2x + 3y + 5
    let expr1 = AffineExpression::new()
        .add_var("x", 2)
        .add_var("y", 3)
        .set_constant(5);

    // Create another affine expression: -x + 4z - 2
    let expr2 = AffineExpression::new()
        .add_var("x", -1)
        .add_var("z", 4)
        .set_constant(-2);

    // Add the two expressions
    let expr3 = expr1 + expr2;

    // Evaluate the result with x=1, y=2, z=3
    let mut values = Vec::new();
    values.push(("x".to_string(), 1));
    values.push(("y".to_string(), 2));
    values.push(("z".to_string(), 3));

    let result = expr3.evaluate(&values).unwrap();

    println!("The result of the expression is: {}", result);
    assert_eq!(result, 22);
    assert_eq!(expr3.to_string(), "1*x + 3*y + 4*z + 3");
}

#[test]
fn affine_expression_arithmetic() {
    let a = AffineExpression::new().add_var("x", 2).add_var("x", 5).set_constant(1);
    assert_eq!(a.vars, vec![("x".to_string(), 7)]);
    let b = AffineExpression::new().add_var("y", 3).add_var("x", 1).set_constant(4);
    let d = a.duplicate() - b.duplicate();
    assert_eq!(d.vars, vec![("x".to_string(), 6), ("y".to_string(), -3)]);
    assert_eq!(d.constant, -3);
    let m = b.duplicate() * -2;
    assert_eq!(m.vars, vec![("y".to_string(), -6), ("x".to_string(), -2)]);
    assert_eq!(m.constant, -8);
    assert_eq!(m.to_string(), "-6*y + -2*x + -8");
    assert_eq!(AffineExpression::new().to_string(), "");
    assert_eq!(AffineExpression::new().set_constant(9).to_string(), "9");
    assert_eq!(AffineExpression::new().add_var("q", 0).to_string(), "0*q");
    // The arithmetic wraps around.
    let big = AffineExpression::new().add_var("x", i32::MAX).add_var("x", 1);
    assert_eq!(big.vars, vec![("x".to_string(), i32::MIN)]);
    // A variable without a value is named.
    let values = vec![("y".to_string(), 1)];
    assert_eq!(d.evaluate(&values), Err("x".to_string()));
    assert_eq!(a.transform(&b).vars, vec![("x".to_string(), 8), ("y".to_string(), 3)]);
    assert_eq!(a.transform(&b).constant, 5);
}
