use loopana::representations::affine_expr::{AffineExpr, Coeff};
use loopana::representations::instruction::{
    Compute, ConditionSuffix, DataAccess, Instruction, Operand,
};
use loopana::representations::instruction_parse::{parse_compute, parse_instruction};
use loopana::text::ParseErrorKind;

#[test]
fn test_parse_instruction() {
    let instr = "R1 <= A[x][y] (EQ Rcmp)";
    let instr = parse_instruction(instr).unwrap();
    assert_eq!(
        instr,
        Instruction::DataLoad(DataAccess {
            array_name: "A".to_string(),
            addr: vec![
                AffineExpr::Var("x".to_string()),
                AffineExpr::Var("y".to_string())
            ],
            reg: "R1".to_string(),
            cond_suffix: Some(ConditionSuffix::EQ),
            cond: Some("Rcmp".to_string())
        })
    );

    let instr = "R1 => A[x][y]";
    let instr = parse_instruction(instr).unwrap();
    assert_eq!(
        instr,
        Instruction::DataStore(DataAccess {
            array_name: "A".to_string(),
            addr: vec![
                AffineExpr::Var("x".to_string()),
                AffineExpr::Var("y".to_string())
            ],
            reg: "R1".to_string(),
            cond_suffix: None,
            cond: None
        })
    );

    let instr = "cmp Rcmp Ra, $0";
    let instr = parse_compute(instr).unwrap();
    assert_eq!(
        instr,
        Instruction::Compute(Compute {
            op: "cmp".to_string(),
            src: vec![Operand::Reg("Ra".to_string()), Operand::Imm(0)],
            dst: "Rcmp".to_string(),
            cond_suffix: None,
            cond: None
        })
    );
}

fn load(array: &str, addr: Vec<AffineExpr>, reg: &str) -> Instruction {
    Instruction::DataLoad(DataAccess {
        array_name: array.to_string(),
        addr,
        reg: reg.to_string(),
        cond_suffix: None,
        cond: None,
    })
}

#[test]
fn instruction_prints_as_specified() {
    let tiled = AffineExpr::Add(
        Box::new(AffineExpr::Mul(
            Coeff::Const(4),
            Box::new(AffineExpr::Var("simd".to_string())),
        )),
        Box::new(AffineExpr::Var("n".to_string())),
    );
    assert_eq!(load("B", vec![tiled], "Rb").to_string(), "Rb <= B[4 * simd + n]");
    let store = Instruction::DataStore(DataAccess {
        array_name: "C".to_string(),
        addr: vec![
            AffineExpr::Var("m".to_string()),
            AffineExpr::Var("n".to_string()),
        ],
        reg: "Rc1".to_string(),
        cond_suffix: Some(ConditionSuffix::LE),
        cond: Some("Rcmp".to_string()),
    });
    assert_eq!(store.to_string(), "Rc1 => C[m][n] (LE Rcmp)");
    let mac = Instruction::Compute(Compute {
        op: "mac".to_string(),
        src: vec![
            Operand::Reg("Ra".to_string()),
            Operand::Reg("Rb".to_string()),
            Operand::Imm(7),
        ],
        dst: "Rc1".to_string(),
        cond_suffix: Some(ConditionSuffix::GE),
        cond: Some("Rcmp".to_string()),
    });
    assert_eq!(mac.to_string(), "mac Rc1 Ra, Rb, $7 (GE Rcmp)");
}

#[test]
fn instruction_text_is_read_back() {
    let texts = [
        "Rb <= B[4 * simd + n]",
        "R1 <= A[x][y] (EQ Rcmp)",
        "Rc1 => C[m][n / 2][3 * (k - 1) % M_a] (NE R0)",
        "cmp Rcmp Ra, $0",
        "mac Rc1 Ra, Rb, Rc (LE Rcmp)",
        "Radd R1 R2",
        "R => A[-7]",
    ];
    for text in texts {
        let first = parse_instruction(text).unwrap();
        assert_eq!(first.to_string(), text);
        let second = parse_instruction(&first.to_string()).unwrap();
        assert_eq!(first, second);
    }
}

#[test]
fn instruction_conditions_and_operands() {
    for (text, suffix) in [
        ("EQ", ConditionSuffix::EQ),
        ("NE", ConditionSuffix::NE),
        ("LT", ConditionSuffix::LT),
        ("LE", ConditionSuffix::LE),
        ("GT", ConditionSuffix::GT),
        ("GE", ConditionSuffix::GE),
    ] {
        assert_eq!(ConditionSuffix::from_str(text), Some(suffix));
        assert_eq!(suffix.to_string(), text);
    }
    assert_eq!(ConditionSuffix::from_str("XX"), None);
    assert_eq!(ConditionSuffix::from_str("E"), None);
    assert_eq!(Operand::from_str("$12"), Some(Operand::Imm(12)));
    assert_eq!(Operand::from_str("Rx1"), Some(Operand::Reg("Rx1".to_string())));
    assert_eq!(Operand::from_str("$"), None);
    assert_eq!(Operand::from_str("x"), None);
    assert_eq!(Operand::from_str("$99999999999"), None);
    assert_eq!(Operand::Imm(5).to_string(), "$5");
}

#[test]
fn instruction_parse_errors() {
    for text in ["", "R1 <= A", "R1 <= A[", "R1 <= [x]", "cmp", "cmp Rcmp", " R1 <= A[x]"] {
        let err = parse_instruction(text).unwrap_err();
        assert_eq!(err.kind, ParseErrorKind::Instruction);
        assert_eq!(err.position, 0);
    }
    // Trailing blanks belong to the instruction; a later index that cannot be
    // read ends the indices before it.
    assert_eq!(
        parse_instruction("R1 <= A[x]  \n").unwrap(),
        load("A", vec![AffineExpr::Var("x".to_string())], "R1")
    );
    assert_eq!(
        parse_instruction("R1 <= A[x][").unwrap(),
        load("A", vec![AffineExpr::Var("x".to_string())], "R1")
    );
    assert!(parse_compute("R1 <= A[x]").is_err());
}
