//! The affine grammar written with parser combinators, as a second opinion
//! on what the library reads.

use loopana::representations::affine_expr::{AffineExpr, Coeff};
use loopana::representations::affine_parse::parse_expr;
use nom::{
    branch::alt,
    bytes::complete::tag,
    character::complete::{alpha1, alphanumeric0, char, digit1, multispace0, space0},
    combinator::{map_res, opt, recognize},
    multi::many0,
    sequence::{delimited, pair, preceded, tuple},
    IResult,
};

fn identifier(input: &str) -> IResult<&str, &str> {
    recognize(pair(alpha1, alphanumeric0))(input)
}

fn integer(input: &str) -> IResult<&str, i32, nom::error::Error<&str>> {
    map_res(
        recognize::<_, _, nom::error::Error<_>, _>(pair(alt((tag("-"), tag("+"))), digit1)),
        str::parse::<i32>,
    )(input)
    .or_else(|_| map_res(digit1, str::parse::<i32>)(input))
}

fn const_var(input: &str) -> IResult<&str, Coeff> {
    nom::combinator::map(
        pair(recognize(pair(alpha1, tag("_"))), identifier),
        |(s1, s2)| Coeff::ConstVar(format!("{}{}", s1, s2)),
    )(input)
}

fn coeff(input: &str) -> IResult<&str, Coeff> {
    let (input, first) = factor_coeff(input)?;
    let (input, res) = many0(preceded(
        multispace0,
        preceded(char('*'), preceded(multispace0, factor_coeff)),
    ))(input)?;
    let expr = res
        .into_iter()
        .fold(first, |acc, item| Coeff::Mul(Box::new(acc), Box::new(item)));
    Ok((input, expr))
}

fn factor_coeff(input: &str) -> IResult<&str, Coeff> {
    alt((
        const_var,
        nom::combinator::map(integer, Coeff::Const),
        delimited(
            preceded(multispace0, char('(')),
            coeff,
            preceded(multispace0, char(')')),
        ),
    ))(input)
}

fn mul(input: &str) -> IResult<&str, AffineExpr> {
    let (input, (c, e)) = tuple((
        coeff,
        alt((
            preceded(space0, factor),
            preceded(space0, preceded(char('*'), preceded(space0, factor))),
        )),
    ))(input)?;
    if c == Coeff::Const(1) {
        Ok((input, e))
    } else {
        Ok((input, AffineExpr::Mul(c, Box::new(e))))
    }
}

fn parens(input: &str) -> IResult<&str, AffineExpr> {
    delimited(
        delimited(multispace0, tag("("), multispace0),
        expr,
        delimited(multispace0, tag(")"), multispace0),
    )(input)
}

fn factor(input: &str) -> IResult<&str, AffineExpr> {
    preceded(
        multispace0,
        alt((
            mul,
            nom::combinator::map(integer, AffineExpr::Const),
            nom::combinator::map(identifier, |s: &str| AffineExpr::Var(s.to_string())),
            parens,
        )),
    )(input)
}

fn term(input: &str) -> IResult<&str, AffineExpr> {
    let (input, (e, op_div)) = tuple((
        factor,
        preceded(
            multispace0,
            opt(tuple((
                alt((tag("/"), tag("%"))),
                preceded(multispace0, coeff),
            ))),
        ),
    ))(input)?;
    Ok((
        input,
        match op_div {
            Some(("/", divisor)) => AffineExpr::Div(Box::new(e), divisor),
            Some((_, divisor)) => AffineExpr::Mod(Box::new(e), divisor),
            None => e,
        },
    ))
}

fn expr(input: &str) -> IResult<&str, AffineExpr> {
    let (input, init) = term(input)?;
    let (input, res) = many0(pair(
        delimited(multispace0, alt((tag("+"), tag("-"))), multispace0),
        term,
    ))(input)?;
    let e = res.into_iter().fold(init, |acc, (op, val)| match op {
        "+" => AffineExpr::Add(Box::new(acc), Box::new(val)),
        _ => AffineExpr::Sub(Box::new(acc), Box::new(val)),
    });
    Ok((input, e))
}

#[test]
fn the_library_reads_what_the_combinators_read() {
    for text in [
        "x",
        "42",
        "-7",
        "+7",
        "x1y2",
        "M_a",
        "3x",
        "3 x",
        "3 * x",
        "3*x",
        "1*x",
        "1 * (x + y)",
        "(1*x + M_a*y)/ 3 - 3*z%5",
        "(MAX_a * MAX_b) * x + y",
        "MAX_a * MAX_b * x + y",
        "2 * 3 * x",
        "2 * 3",
        "x + y - z + 1",
        "x+y-z",
        "x - -1",
        "x -1",
        "x / 2",
        "x / 2 / 3",
        "x % M_a * 2",
        "x / (2 * M_a)",
        "x / y",
        "((x))",
        "(x + 1) * 2",
        "4 * simd + n",
        "2 * (4 * simd + n) / 3",
        "-3 * (4 * (x % 2))",
        "M_a*(x)",
        "M_a(x)",
        "2 (x)",
        "3 4 x",
        "x y",
        "Ma_b1 * n",
        "M_1 * n",
        "x_1",
        "",
        "-x",
        "()",
        "(x",
        "x)",
        "*x",
        "_a",
        "99999999999",
        "2147483647 + 2147483648",
        "-2147483648",
        "3 * -2",
        "3 * - 2",
        "x\n+\ty",
        "3\n* x",
        "3 \t* x",
        "( 3) * x",
        "(3 ) * x",
        "( 3 )",
        "2 * ( M_a) * x",
        "2 *\n(M_a ) * x",
        "x ",
        "x / 2 ",
        "(x) \n",
        "( x + 1 ) rest",
        "x +",
        "x + )",
        "x /",
        "x / )",
        "3 *",
        "3 * )",
        " \t x\n",
    ] {
        let theirs = expr(text).ok();
        let ours = parse_expr(text).ok();
        assert_eq!(ours, theirs, "{:?}", text);
    }
}
