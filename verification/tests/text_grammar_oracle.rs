//! The grammars of iterators, instructions, transforms and mappings written
//! with parser combinators, as a second opinion on what the library reads.

use loopana::representations::affine_expr::AffineExpr;
use loopana::representations::instruction::{
    Compute, ConditionSuffix, DataAccess, Instruction, Operand,
};
use loopana::representations::instruction_parse::parse_instruction;
use loopana::representations::loops::{parse_loop_iter, LoopIter};
use loopana::representations::mapping::{Mapping, MappingType};
use loopana::representations::transforms::{Transform, Transforms};
use nom::{
    branch::alt,
    bytes::complete::{tag, take_while1},
    character::complete::{
        alpha1, alphanumeric0, alphanumeric1, char, digit1, line_ending, multispace0, multispace1,
        not_line_ending, space0,
    },
    combinator::{cut, opt, recognize},
    multi::{many0, separated_list0, separated_list1},
    sequence::{delimited, pair, preceded, terminated, tuple},
    IResult,
};

// Iterators.

fn number(input: &str) -> IResult<&str, i32> {
    nom::combinator::map_res(digit1, |s: &str| s.parse::<i32>())(input)
}

fn range(input: &str) -> IResult<&str, (i32, i32)> {
    delimited(
        tag("("),
        tuple((number, preceded(tag(".."), number))),
        tag(")"),
    )(input)
}

fn step(input: &str) -> IResult<&str, i32> {
    preceded(
        tuple((tag("."), tag("step"), tag("("))),
        terminated(number, tag(")")),
    )(input)
}

fn loop_iter(input: &str) -> IResult<&str, LoopIter> {
    let (input, _) = tuple((tag("for"), multispace1))(input)?;
    let (input, name) = alpha1(input)?;
    let (input, _) = tuple((multispace0, tag("in"), multispace0))(input)?;
    let (input, (start, end)) = range(input)?;
    let (input, step) = opt(preceded(multispace0, step))(input)?;
    Ok((
        input,
        LoopIter {
            iter_name: name.to_string(),
            bounds: (start, end),
            step: step.unwrap_or(1),
        },
    ))
}

#[test]
fn iterators_are_read_as_by_the_combinators() {
    for text in [
        "for m in (0..100).step(1)",
        "for k in (0..300)",
        "for k in (0..300) \n .step(5)",
        "for k in (0..300).step (5)",
        "for k in (0..300).step(5",
        "for k in (0..300).step()",
        "for  \t simd in(4..8)",
        "for x in\n(4..8)rest",
        "for x in (4 ..8)",
        "for x in ( 4..8)",
        "for x in (4..8 )",
        "for x1 in (4..8)",
        "form in (4..8)",
        "for in in (4..8)",
        "for iin (4..8)",
        "for i n (4..8)",
        "for m in (0...1)",
        "for m in (0..1",
        "fo m in (0..1)",
        " for m in (0..1)",
        "for",
        "",
    ] {
        let theirs = loop_iter(text).ok().map(|(_, it)| it);
        let ours = parse_loop_iter(text).ok();
        assert_eq!(ours, theirs, "{:?}", text);
    }
}

// Instructions, with names as indices.

fn var_id(input: &str) -> IResult<&str, &str> {
    recognize(pair(alpha1, alphanumeric0))(input)
}

fn reg_id(input: &str) -> IResult<&str, &str> {
    recognize(pair(char('R'), alphanumeric0))(input)
}

fn immediate(input: &str) -> IResult<&str, &str> {
    recognize(pair(char('$'), digit1))(input)
}

fn src(input: &str) -> IResult<&str, &str> {
    alt((reg_id, immediate))(input)
}

fn indices(input: &str) -> IResult<&str, Vec<&str>> {
    delimited(tag("["), separated_list0(tag("]["), var_id), tag("]"))(input)
}

fn cond_code(input: &str) -> IResult<&str, &str> {
    alt((
        tag("EQ"),
        tag("NE"),
        tag("LT"),
        tag("LE"),
        tag("GT"),
        tag("GE"),
    ))(input)
}

fn condition(input: &str) -> IResult<&str, (ConditionSuffix, String)> {
    let (input, (code, _, reg)) = delimited(
        char('('),
        tuple((cond_code, multispace1, reg_id)),
        char(')'),
    )(input)?;
    Ok((
        input,
        (ConditionSuffix::from_str(code).unwrap(), reg.to_string()),
    ))
}

fn access<'a>(arrow: &'static str, input: &'a str) -> IResult<&'a str, DataAccess> {
    let (input, (reg, _, array, idxs, cond)) = tuple((
        reg_id,
        preceded(multispace0, tag(arrow)),
        preceded(multispace0, var_id),
        indices,
        opt(preceded(multispace1, condition)),
    ))(input)?;
    let (cond_suffix, cond) = match cond {
        Some((s, r)) => (Some(s), Some(r)),
        None => (None, None),
    };
    Ok((
        input,
        DataAccess {
            array_name: array.to_string(),
            addr: idxs
                .iter()
                .map(|name| AffineExpr::Var(name.to_string()))
                .collect(),
            reg: reg.to_string(),
            cond_suffix,
            cond,
        },
    ))
}

fn compute(input: &str) -> IResult<&str, Instruction> {
    let (input, (op, dst, srcs, cond)) = tuple((
        preceded(multispace0, alphanumeric1),
        terminated(preceded(multispace0, reg_id), multispace0),
        separated_list1(tuple((multispace0, char(','), multispace0)), src),
        opt(preceded(multispace0, condition)),
    ))(input)?;
    let (cond_suffix, cond) = match cond {
        Some((s, r)) => (Some(s), Some(r)),
        None => (None, None),
    };
    Ok((
        input,
        Instruction::Compute(Compute {
            op: op.to_string(),
            src: srcs.iter().map(|s| Operand::from_str(s).unwrap()).collect(),
            dst: dst.to_string(),
            cond_suffix,
            cond,
        }),
    ))
}

fn instruction(input: &str) -> IResult<&str, Instruction> {
    terminated(
        alt((
            |i| access("<=", i).map(|(rest, a)| (rest, Instruction::DataLoad(a))),
            |i| access("=>", i).map(|(rest, a)| (rest, Instruction::DataStore(a))),
            compute,
        )),
        multispace0,
    )(input)
}

#[test]
fn instructions_are_read_as_by_the_combinators() {
    for text in [
        "R1 <= A[x][y] (EQ Rcmp)",
        "R1 => A[x][y]",
        "cmp Rcmp Ra, $0",
        "Ra <= A[m][k]",
        "Rb <= B[k][n] (LE Rcmp)",
        "mac Rc1 Ra, Rb, Rc (LE Rcmp)",
        "mac Rc1 Ra, Rb, Rc(LE Rcmp)",
        "mac Rc1 Ra ,Rb,\nRc \n (GT R)",
        "Rc1 => C[m][n] (LE Rcmp)",
        "Rc1 => C[m][n](LE Rcmp)",
        "Rc1 => C[m][n]  \t(LE  Rcmp)",
        "Rc1 => C[m][n] (LE Rcmp )",
        "Rc1 => C[m][n] ( LE Rcmp)",
        "Rc1 => C[m][n] (LERcmp)",
        "Rc1 => C[m][n] (XX Rcmp)",
        "Rc1 => C[m][n] (LE rcmp)",
        "Rc1=>C[m]",
        "Rc1\n=>\nC[m]",
        "Rc1 => C [m]",
        "Rc1 => C[m] [n]",
        "R <= A[x]",
        "R<=A[x]trailing",
        "R1 <= A[x]   \n",
        "r1 <= A[x]",
        "R1 <= 1A[x]",
        "R1 <= A",
        "R1 <= A[x",
        "R1 <= A[x][",
        "R1 < = A[x]",
        "Rop R1 R2",
        "Rop R1 $3",
        "  add R1 R2, R3",
        "add R1",
        "add r1 R2",
        "add R1 R2,",
        "add R1 R2, x",
        "add R1 $",
        "addR1 R2",
        "add\tR1\tR2",
        "1st R1 R2",
        "add-1 R1 R2",
        "",
    ] {
        let theirs = instruction(text).ok().map(|(_, i)| i);
        let ours = parse_instruction(text).ok();
        assert_eq!(ours, theirs, "{:?}", text);
    }
}

// Transforms.

fn identifier(input: &str) -> IResult<&str, &str> {
    delimited(
        space0,
        take_while1(|c: char| c.is_alphanumeric() || c == '_'),
        space0,
    )(input)
}

fn tiling_target(input: &str) -> IResult<&str, (String, String, i32)> {
    let (input, _) = delimited(space0, char('('), space0)(input)?;
    let (input, first) = identifier(input)?;
    let (input, _) = delimited(space0, char(','), space0)(input)?;
    let (input, second) = identifier(input)?;
    let (input, _) = delimited(space0, char(')'), space0)(input)?;
    let (input, _) = tag("by")(input)?;
    let (input, _) = space0(input)?;
    let (input, factor) = nom::combinator::map_res(digit1, |s: &str| s.parse::<i32>())(input)?;
    Ok((input, (first.to_string(), second.to_string(), factor)))
}

fn tiling(input: &str) -> IResult<&str, Transform> {
    let prefix = delimited(space0, tag("!Tiling"), space0);
    let (input, (_, old_var, _, (old_var1, new_var, factor))) = tuple((
        opt(prefix),
        identifier,
        terminated(tag("->"), space0),
        tiling_target,
    ))(input)?;
    if old_var != old_var1 {
        return Err(nom::Err::Error(nom::error::Error::new(
            input,
            nom::error::ErrorKind::Verify,
        )));
    }
    Ok((
        input,
        Transform::Tiling((old_var.to_string(), new_var, factor)),
    ))
}

fn renaming(input: &str) -> IResult<&str, Transform> {
    let prefix = delimited(space0, tag("!Renaming"), space0);
    let (input, (_, old_var, _, new_var)) = tuple((
        opt(prefix),
        preceded(space0, identifier),
        terminated(tag("->"), space0),
        identifier,
    ))(input)?;
    Ok((
        input,
        Transform::Renaming((old_var.to_string(), new_var.to_string())),
    ))
}

fn mapping_directive(input: &str) -> IResult<&str, Transform> {
    let prefix = delimited(
        space0,
        alt((tag("!MapSpatial"), tag("!MapTemporal"))),
        space0,
    );
    let (input, (prefix, id, _, mapping_type)) = tuple((
        opt(prefix),
        delimited(space0, identifier, space0),
        delimited(space0, tag("=>"), space0),
        alt((tag("Spatial"), tag("Temporal"))),
    ))(input)?;
    // The tag, where there is one, names the kind.
    if let Some(p) = prefix {
        if &p[4..] != mapping_type {
            return Err(nom::Err::Error(nom::error::Error::new(
                input,
                nom::error::ErrorKind::Verify,
            )));
        }
    }
    match mapping_type {
        "Spatial" => Ok((input, Transform::MapSpatial(id.to_string()))),
        _ => Ok((input, Transform::MapTemporal(id.to_string()))),
    }
}

fn reorder(input: &str) -> IResult<&str, Transform> {
    let prefix = delimited(space0, tag("!Reorder"), space0);
    let (input, (_, old_var, _, new_var)) = tuple((
        opt(prefix),
        preceded(space0, identifier),
        terminated(tag("<->"), space0),
        identifier,
    ))(input)?;
    Ok((
        input,
        Transform::Reorder((old_var.to_string(), new_var.to_string())),
    ))
}

fn comment(input: &str) -> IResult<&str, ()> {
    let (input, _) = tuple((multispace0, tag("//"), not_line_ending, opt(line_ending)))(input)?;
    Ok((input, ()))
}

fn ws_and_comments(input: &str) -> IResult<&str, ()> {
    let (input, _) = many0(alt((comment, |i| multispace1(i).map(|(r, _)| (r, ())))))(input)?;
    Ok((input, ()))
}

fn transform(input: &str) -> IResult<&str, Transform> {
    cut(alt((tiling, renaming, mapping_directive, reorder)))(input)
}

fn transforms(input: &str) -> IResult<&str, Vec<Transform>> {
    let (input, (mut all, last)) = tuple((
        many0(terminated(
            preceded(
                tuple((ws_and_comments, tag("-"), multispace0)),
                cut(tuple((transform, opt(preceded(multispace0, comment))))),
            ),
            ws_and_comments,
        )),
        opt(preceded(
            tuple((ws_and_comments, tag("-"), multispace0)),
            cut(tuple((transform, opt(preceded(multispace0, comment))))),
        )),
    ))(input)?;
    if let Some(t) = last {
        all.push(t);
    }
    Ok((input, all.into_iter().map(|(t, _)| t).collect()))
}

#[test]
fn transforms_are_read_as_by_the_combinators() {
    for text in [
        "n -> (n, simd) by 4",
        "!Tiling n -> (n, x) by 8",
        "  !Tiling   n->(n,x)by8",
        "!Tiling\tn -> ( n , x ) by  8 rest",
        "!Tilingn -> (n, x) by 8",
        "!Tiling n -> (m, x) by 8",
        "!Tiling n -> (n, x) by",
        "!Tiling n -> (n, x) 8",
        "!Tiling n -> (n x) by 8",
        "n -> (n, x) by 8x",
        "m -> ty",
        "!Renaming m -> ty",
        "!Renaming  m->ty",
        "m_1 -> t_y2",
        "_ -> __",
        "m - > ty",
        "m ->",
        "-> ty",
        "!MapSpatial x => Spatial",
        "y => Spatial",
        "!MapSpatial simd => Spatial",
        "!MapTemporal ty => Temporal",
        "ty=>Temporal",
        "ty => Temporalx",
        "ty => temporal",
        "ty =>\nTemporal",
        "!Reorder y <-> tn",
        "x <-> y",
        "x<->y",
        "x <- > y",
        "!Reorder x -> y",
        "!Tiling x <-> y",
        "!Renaming x => Spatial",
        "x",
        "",
        "\u{e9}t\u{e9} -> \u{3b1}\u{3b2}",
        "\u{661}\u{662} <-> \u{2167}",
        "a\u{a0}b -> c",
        "a\u{2003}-> c",
    ] {
        let theirs = transform(text).ok().map(|(_, t)| t);
        let ours = Transform::from_str(text).ok();
        assert_eq!(ours, theirs, "{:?}", text);
    }
}

#[test]
fn scripts_are_read_as_by_the_combinators() {
    for text in [
        "",
        "\n\n",
        "// only a comment",
        " - n -> (n, simd) by 4",
        " - n -> (n, simd) by 4\n",
        "- n -> tn\n- m -> tm",
        "- n -> tn - m -> tm",
        "-n -> tn\n-\nm -> tm\n",
        "- n -> tn // renamed\n// and\n\n  // more\n - x <-> y // swapped",
        "- n -> tn//c\r\n- x <-> y\r\n",
        "- n -> tn //c\n//d",
        "- n -> tn\nrest - x <-> y",
        "// tiling n into simd by 4\n - n -> (n, simd) by 4\n - !Tiling n -> (n, x) by 8 // tiling n into x by 8\n - m -> ty\n        ",
        "- n -> tn\n- \n",
        "- n -> tn\n- !",
        "-",
        "- // nothing",
        "- n tn",
        "n -> tn",
        "x - n -> tn",
    ] {
        let theirs = transforms(text).ok().map(|(_, t)| Transforms { transforms: t });
        let ours = Transforms::from_str(text).ok();
        assert_eq!(ours, theirs, "{:?}", text);
    }
}

// Mappings.

fn mapping_entry(input: &str) -> IResult<&str, (String, MappingType)> {
    let (input, _) = terminated(tag("-"), space0)(input)?;
    let (input, iter) = alpha1(input)?;
    let (input, _) = delimited(space0, tag("->"), space0)(input)?;
    let (input, mapping_type) = cut(alt((
        |i| alt((tag("Temporal"), tag("TODO"), tag("?")))(i).map(|(r, _)| (r, MappingType::Temporal)),
        |i| tag("InterTile")(i).map(|(r, _): (&str, &str)| (r, MappingType::InterTile)),
        |i| tag("IntraTile")(i).map(|(r, _): (&str, &str)| (r, MappingType::IntraTile)),
        |i| {
            preceded(tag("$"), alpha1)(i)
                .map(|(r, s): (&str, &str)| (r, MappingType::Spatial(s.to_string())))
        },
    )))(input)?;
    Ok((input, (iter.to_string(), mapping_type)))
}

fn mapping(input: &str) -> IResult<&str, Vec<(String, MappingType)>> {
    let (input, _) = multispace0(input)?;
    let (input, _) = tuple((tag("Mapping"), space0, tag(":")))(input)?;
    let (input, _) = multispace0(input)?;
    let (input, entries) = separated_list0(multispace0, mapping_entry)(input)?;
    // A later entry for a name takes the place of an earlier one.
    let mut types: Vec<(String, MappingType)> = Vec::new();
    for (name, kind) in entries {
        match types.iter().position(|(n, _)| *n == name) {
            Some(i) => types[i].1 = kind,
            None => types.push((name, kind)),
        }
    }
    Ok((input, types))
}

#[test]
fn mappings_are_read_as_by_the_combinators() {
    for text in [
        "Mapping:",
        "Mapping :",
        "Mapping\n:",
        " \n Mapping: \n",
        "Mapping:\n    - m -> InterTile\n    - tk -> IntraTile\n    - x -> $x\n        ",
        "Mapping:- m->InterTile- n->$y",
        "Mapping: - m -> TODO - n -> ? - k -> Temporal",
        "Mapping: - m -> InterTile - m -> $z - n -> ?",
        "Mapping: - m -> InterTiles",
        "Mapping: - m -> intertile",
        "Mapping: - m -> $",
        "Mapping: - m -> $1",
        "Mapping: - m ->\nInterTile",
        "Mapping: - m\n-> InterTile",
        "Mapping: - m1 -> InterTile",
        "Mapping: -\nm -> InterTile",
        "Mapping: - m -> InterTile rest - n -> ?",
        "Mapping: m -> InterTile",
        "mapping:",
        "",
    ] {
        let theirs = mapping(text).ok().map(|(_, t)| t);
        let ours = Mapping::from_str(text).ok().map(|m| m.types);
        assert_eq!(ours, theirs, "{:?}", text);
    }
}
