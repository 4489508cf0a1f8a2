//! The instructions of a loop body: loads, stores and computations, each
//! with an optional condition.

use crate::representations::affine_expr::{expr_text, push_text, AffineExpr, ExprModel};
use crate::text::{int_text, push_int};
use vstd::prelude::*;

verus! {

/// The comparison that a condition register is tested with.
#[derive(Debug, Clone, Copy, PartialEq, Eq, Structural)]
pub enum ConditionSuffix {
    EQ,
    NE,
    LT,
    LE,
    GT,
    GE,
}

/// A source operand: a register or an immediate value.
#[derive(Debug, PartialEq)]
pub enum Operand {
    Reg(String),
    Imm(i32),
}

/// A load from, or a store to, an array element.
#[derive(Debug, PartialEq)]
pub struct DataAccess {
    pub array_name: String,
    pub addr: Vec<AffineExpr>,
    /// The target register of a load, the source register of a store.
    pub reg: String,
    /// The comparison of the condition, present exactly when `cond` is.
    pub cond_suffix: Option<ConditionSuffix>,
    /// The register that the condition tests.
    pub cond: Option<String>,
}

/// A computation from source operands into a destination register.
#[derive(Debug, PartialEq)]
pub struct Compute {
    pub op: String,
    pub src: Vec<Operand>,
    pub dst: String,
    /// The comparison of the condition, present exactly when `cond` is.
    pub cond_suffix: Option<ConditionSuffix>,
    /// The register that the condition tests.
    pub cond: Option<String>,
}

#[derive(Debug, PartialEq)]
pub enum Instruction {
    DataLoad(DataAccess),
    DataStore(DataAccess),
    Compute(Compute),
}

pub enum OperandModel {
    Reg(Seq<char>),
    Imm(i32),
}

pub struct DataAccessModel {
    pub array_name: Seq<char>,
    pub addr: Seq<ExprModel>,
    pub reg: Seq<char>,
    pub cond_suffix: Option<ConditionSuffix>,
    pub cond: Option<Seq<char>>,
}

pub struct ComputeModel {
    pub op: Seq<char>,
    pub src: Seq<OperandModel>,
    pub dst: Seq<char>,
    pub cond_suffix: Option<ConditionSuffix>,
    pub cond: Option<Seq<char>>,
}

pub enum InstructionModel {
    DataLoad(DataAccessModel),
    DataStore(DataAccessModel),
    Compute(ComputeModel),
}

/// The value of an optional name.
pub open spec fn name_model(n: Option<String>) -> Option<Seq<char>> {
    match n {
        Some(s) => Some(s@),
        None => None,
    }
}

/// The values of a sequence of expressions.
pub open spec fn exprs_model(v: Seq<AffineExpr>) -> Seq<ExprModel> {
    v.map_values(|e: AffineExpr| e@)
}

/// The values of a sequence of operands.
pub open spec fn operands_model(v: Seq<Operand>) -> Seq<OperandModel> {
    v.map_values(|o: Operand| o@)
}

impl View for Operand {
    type V = OperandModel;

    open spec fn view(&self) -> OperandModel {
        match self {
            Operand::Reg(r) => OperandModel::Reg(r@),
            Operand::Imm(v) => OperandModel::Imm(*v),
        }
    }
}

impl View for DataAccess {
    type V = DataAccessModel;

    open spec fn view(&self) -> DataAccessModel {
        DataAccessModel {
            array_name: self.array_name@,
            addr: exprs_model(self.addr@),
            reg: self.reg@,
            cond_suffix: self.cond_suffix,
            cond: name_model(self.cond),
        }
    }
}

impl View for Compute {
    type V = ComputeModel;

    open spec fn view(&self) -> ComputeModel {
        ComputeModel {
            op: self.op@,
            src: operands_model(self.src@),
            dst: self.dst@,
            cond_suffix: self.cond_suffix,
            cond: name_model(self.cond),
        }
    }
}

impl View for Instruction {
    type V = InstructionModel;

    open spec fn view(&self) -> InstructionModel {
        match self {
            Instruction::DataLoad(a) => InstructionModel::DataLoad(a@),
            Instruction::DataStore(a) => InstructionModel::DataStore(a@),
            Instruction::Compute(c) => InstructionModel::Compute(c@),
        }
    }
}

impl Clone for Operand {
    fn clone(&self) -> (r: Self)
        ensures
            r == *self,
    {
        match self {
            Operand::Reg(s) => Operand::Reg(s.clone()),
            Operand::Imm(v) => Operand::Imm(*v),
        }
    }
}

/// A copy of an optional name.
pub fn clone_name(n: &Option<String>) -> (r: Option<String>)
    ensures
        r == *n,
{
    match n {
        Some(s) => Some(s.clone()),
        None => None,
    }
}

/// A copy of a vector of expressions.
pub fn clone_exprs(v: &Vec<AffineExpr>) -> (r: Vec<AffineExpr>)
    ensures
        r@ == v@,
{
    let mut r: Vec<AffineExpr> = Vec::new();
    let mut i: usize = 0;
    while i < v.len()
        invariant
            i <= v.len(),
            r@ == v@.take(i as int),
        decreases v.len() - i,
    {
        r.push(v[i].clone());
        assert(v@.take(i + 1) =~= v@.take(i as int).push(v@[i as int]));
        i = i + 1;
    }
    assert(v@.take(v.len() as int) =~= v@);
    r
}

/// A copy of a vector of operands.
pub fn clone_operands(v: &Vec<Operand>) -> (r: Vec<Operand>)
    ensures
        r@ == v@,
{
    let mut r: Vec<Operand> = Vec::new();
    let mut i: usize = 0;
    while i < v.len()
        invariant
            i <= v.len(),
            r@ == v@.take(i as int),
        decreases v.len() - i,
    {
        r.push(v[i].clone());
        assert(v@.take(i + 1) =~= v@.take(i as int).push(v@[i as int]));
        i = i + 1;
    }
    assert(v@.take(v.len() as int) =~= v@);
    r
}

impl Clone for DataAccess {
    fn clone(&self) -> (r: Self)
        ensures
            r@ == self@,
    {
        DataAccess {
            array_name: self.array_name.clone(),
            addr: clone_exprs(&self.addr),
            reg: self.reg.clone(),
            cond_suffix: self.cond_suffix,
            cond: clone_name(&self.cond),
        }
    }
}

impl Clone for Compute {
    fn clone(&self) -> (r: Self)
        ensures
            r@ == self@,
    {
        Compute {
            op: self.op.clone(),
            src: clone_operands(&self.src),
            dst: self.dst.clone(),
            cond_suffix: self.cond_suffix,
            cond: clone_name(&self.cond),
        }
    }
}

impl Clone for Instruction {
    fn clone(&self) -> (r: Self)
        ensures
            r@ == self@,
    {
        match self {
            Instruction::DataLoad(a) => Instruction::DataLoad(a.clone()),
            Instruction::DataStore(a) => Instruction::DataStore(a.clone()),
            Instruction::Compute(c) => Instruction::Compute(c.clone()),
        }
    }
}

/// Whether a condition is whole: the comparison and the register are both
/// there or both absent.
pub open spec fn cond_paired(suffix: Option<ConditionSuffix>, cond: Option<Seq<char>>) -> bool {
    suffix is Some == cond is Some
}

/// Whether the condition of an instruction is whole.
pub open spec fn inst_wf(i: InstructionModel) -> bool {
    match i {
        InstructionModel::DataLoad(a) => cond_paired(a.cond_suffix, a.cond),
        InstructionModel::DataStore(a) => cond_paired(a.cond_suffix, a.cond),
        InstructionModel::Compute(c) => cond_paired(c.cond_suffix, c.cond),
    }
}

impl Instruction {
    /// Whether the condition of the instruction is whole.
    pub fn is_valid(&self) -> (b: bool)
        ensures
            b == inst_wf(self@),
    {
        match self {
            Instruction::DataLoad(a) => a.cond_suffix.is_some() == a.cond.is_some(),
            Instruction::DataStore(a) => a.cond_suffix.is_some() == a.cond.is_some(),
            Instruction::Compute(c) => c.cond_suffix.is_some() == c.cond.is_some(),
        }
    }
}

/// The two letters of a comparison.
pub open spec fn suffix_text(c: ConditionSuffix) -> Seq<char> {
    match c {
        ConditionSuffix::EQ => seq!['E', 'Q'],
        ConditionSuffix::NE => seq!['N', 'E'],
        ConditionSuffix::LT => seq!['L', 'T'],
        ConditionSuffix::LE => seq!['L', 'E'],
        ConditionSuffix::GT => seq!['G', 'T'],
        ConditionSuffix::GE => seq!['G', 'E'],
    }
}

/// The text of a condition: ` (EQ Rc)` where the comparison and the register
/// are both there, nothing otherwise.
pub open spec fn cond_text(suffix: Option<ConditionSuffix>, cond: Option<Seq<char>>) -> Seq<char> {
    match (suffix, cond) {
        (Some(c), Some(r)) => seq![' ', '('] + suffix_text(c) + seq![' '] + r + seq![')'],
        _ => Seq::empty(),
    }
}

/// The text of the indices of an access: each in brackets.
pub open spec fn indices_text(addr: Seq<ExprModel>) -> Seq<char>
    decreases addr.len(),
{
    if addr.len() == 0 {
        Seq::empty()
    } else {
        indices_text(addr.drop_last()) + seq!['['] + expr_text(addr.last()) + seq![']']
    }
}

/// The text of an access, with the arrow of a load or of a store.
pub open spec fn access_text(a: DataAccessModel, arrow: Seq<char>) -> Seq<char> {
    a.reg + seq![' '] + arrow + seq![' '] + a.array_name + indices_text(a.addr) + cond_text(
        a.cond_suffix,
        a.cond,
    )
}

/// The text of an operand: a register by its name, an immediate value
/// after `$`.
pub open spec fn operand_text(o: OperandModel) -> Seq<char> {
    match o {
        OperandModel::Reg(r) => r,
        OperandModel::Imm(v) => seq!['$'] + int_text(v as int),
    }
}

/// The text of the operands after the first, each after `, `.
pub open spec fn more_operands_text(src: Seq<OperandModel>) -> Seq<char>
    decreases src.len(),
{
    if src.len() <= 1 {
        Seq::empty()
    } else {
        more_operands_text(src.drop_last()) + seq![',', ' '] + operand_text(src.last())
    }
}

/// The text of the source operands of a computation.
pub open spec fn operands_text(src: Seq<OperandModel>) -> Seq<char> {
    if src.len() == 0 {
        Seq::empty()
    } else {
        seq![' '] + operand_text(src[0]) + more_operands_text(src)
    }
}

/// The text of a computation.
pub open spec fn compute_text(c: ComputeModel) -> Seq<char> {
    c.op + seq![' '] + c.dst + operands_text(c.src) + cond_text(c.cond_suffix, c.cond)
}

pub open spec fn load_arrow() -> Seq<char> {
    seq!['<', '=']
}

pub open spec fn store_arrow() -> Seq<char> {
    seq!['=', '>']
}

/// The text of an instruction.
pub open spec fn instruction_text(i: InstructionModel) -> Seq<char> {
    match i {
        InstructionModel::DataLoad(a) => access_text(a, load_arrow()),
        InstructionModel::DataStore(a) => access_text(a, store_arrow()),
        InstructionModel::Compute(c) => compute_text(c),
    }
}

impl ConditionSuffix {
    /// The comparison that two letters name, if they name one.
    pub fn from_str(s: &str) -> (r: Option<ConditionSuffix>)
        ensures
            match r {
                Some(c) => s@ == suffix_text(c),
                None => forall|c: ConditionSuffix| s@ != suffix_text(c),
            },
    {
        let v = crate::text::to_chars(s);
        if v.len() != 2 {
            assert forall|c: ConditionSuffix| s@ != suffix_text(c) by {
                assert(suffix_text(c).len() == 2);
            }
            return None;
        }
        let r = Self::from_letters(v[0], v[1]);
        proof {
            match r {
                Some(c) => {
                    assert(s@ =~= suffix_text(c));
                },
                None => {
                    assert forall|c: ConditionSuffix| s@ != suffix_text(c) by {
                        assert(suffix_text(c)[0] == s@[0] ==> suffix_text(c)[1] != s@[1]);
                    }
                },
            }
        }
        r
    }

    /// The comparison that two letters name, if they name one.
    pub fn from_letters(a: char, b: char) -> (r: Option<ConditionSuffix>)
        ensures
            match r {
                Some(c) => suffix_text(c) == seq![a, b],
                None => forall|c: ConditionSuffix| suffix_text(c) != seq![a, b],
            },
    {
        let r = if a == 'E' && b == 'Q' {
            Some(ConditionSuffix::EQ)
        } else if a == 'N' && b == 'E' {
            Some(ConditionSuffix::NE)
        } else if a == 'L' && b == 'T' {
            Some(ConditionSuffix::LT)
        } else if a == 'L' && b == 'E' {
            Some(ConditionSuffix::LE)
        } else if a == 'G' && b == 'T' {
            Some(ConditionSuffix::GT)
        } else if a == 'G' && b == 'E' {
            Some(ConditionSuffix::GE)
        } else {
            None
        };
        proof {
            match r {
                Some(c) => {
                    assert(suffix_text(c) =~= seq![a, b]);
                },
                None => {
                    assert forall|c: ConditionSuffix| suffix_text(c) != seq![a, b] by {
                        let t = seq![a, b];
                        assert(t[0] == a && t[1] == b);
                        assert(suffix_text(c)[0] == a ==> suffix_text(c)[1] != b);
                    }
                },
            }
        }
        r
    }

    /// Appends the two letters of the comparison.
    pub fn write(&self, out: &mut String)
        ensures
            final(out)@ == old(out)@ + suffix_text(*self),
    {
        let (a, b) = match self {
            ConditionSuffix::EQ => ('E', 'Q'),
            ConditionSuffix::NE => ('N', 'E'),
            ConditionSuffix::LT => ('L', 'T'),
            ConditionSuffix::LE => ('L', 'E'),
            ConditionSuffix::GT => ('G', 'T'),
            ConditionSuffix::GE => ('G', 'E'),
        };
        out.push(a);
        out.push(b);
        assert(out@ =~= old(out)@ + suffix_text(*self));
    }

    /// The two letters of the comparison.
    pub fn to_string(&self) -> (r: String)
        ensures
            r@ == suffix_text(*self),
    {
        let mut out = String::new();
        self.write(&mut out);
        assert(out@ =~= suffix_text(*self));
        out
    }
}

fn write_cond(out: &mut String, suffix: &Option<ConditionSuffix>, cond: &Option<String>)
    ensures
        final(out)@ == old(out)@ + cond_text(*suffix, name_model(*cond)),
{
    match (suffix, cond) {
        (Some(c), Some(r)) => {
            out.push(' ');
            out.push('(');
            c.write(out);
            out.push(' ');
            push_text(out, r);
            out.push(')');
            assert(out@ =~= old(out)@ + cond_text(*suffix, name_model(*cond)));
        },
        _ => {
            assert(out@ =~= old(out)@ + cond_text(*suffix, name_model(*cond)));
        },
    }
}

impl Operand {
    /// Appends the text of the operand.
    pub fn write(&self, out: &mut String)
        ensures
            final(out)@ == old(out)@ + operand_text(self@),
    {
        match self {
            Operand::Reg(r) => push_text(out, r),
            Operand::Imm(v) => {
                out.push('$');
                push_int(out, *v);
                assert(out@ =~= old(out)@ + operand_text(self@));
            },
        }
    }

    /// The text of the operand.
    pub fn to_string(&self) -> (r: String)
        ensures
            r@ == operand_text(self@),
    {
        let mut out = String::new();
        self.write(&mut out);
        assert(out@ =~= operand_text(self@));
        out
    }
}

impl DataAccess {
    /// Appends the text of the access, with the arrow of a load (`<=`) or of
    /// a store (`=>`).
    pub fn write(&self, out: &mut String, load: bool)
        ensures
            final(out)@ == old(out)@ + access_text(
                self@,
                if load {
                    load_arrow()
                } else {
                    store_arrow()
                },
            ),
    {
        let ghost arrow = if load {
            load_arrow()
        } else {
            store_arrow()
        };
        push_text(out, &self.reg);
        out.push(' ');
        if load {
            out.push('<');
            out.push('=');
        } else {
            out.push('=');
            out.push('>');
        }
        out.push(' ');
        push_text(out, &self.array_name);
        let ghost head = old(out)@ + self.reg@ + seq![' '] + arrow + seq![' '] + self.array_name@;
        assert(out@ =~= head);
        let mut i: usize = 0;
        assert(exprs_model(self.addr@).take(0) =~= Seq::<ExprModel>::empty());
        while i < self.addr.len()
            invariant
                i <= self.addr.len(),
                out@ == head + indices_text(exprs_model(self.addr@).take(i as int)),
            decreases self.addr.len() - i,
        {
            out.push('[');
            self.addr[i].write(out);
            out.push(']');
            proof {
                let next = exprs_model(self.addr@).take(i + 1);
                assert(next.drop_last() =~= exprs_model(self.addr@).take(i as int));
                assert(next.last() == self.addr@[i as int]@);
                assert(out@ =~= head + indices_text(next));
            }
            i = i + 1;
        }
        assert(exprs_model(self.addr@).take(self.addr.len() as int) =~= exprs_model(self.addr@));
        write_cond(out, &self.cond_suffix, &self.cond);
        assert(out@ =~= old(out)@ + access_text(self@, arrow));
    }
}

impl Compute {
    /// Appends the text of the computation.
    pub fn write(&self, out: &mut String)
        ensures
            final(out)@ == old(out)@ + compute_text(self@),
    {
        push_text(out, &self.op);
        out.push(' ');
        push_text(out, &self.dst);
        let ghost head = old(out)@ + self.op@ + seq![' '] + self.dst@;
        assert(out@ =~= head);
        if self.src.len() > 0 {
            out.push(' ');
            self.src[0].write(out);
            let ghost first = head + seq![' '] + operand_text(self.src@[0]@);
            assert(out@ =~= first);
            let mut i: usize = 1;
            assert(more_operands_text(operands_model(self.src@).take(1)) =~= Seq::<char>::empty());
            while i < self.src.len()
                invariant
                    1 <= i <= self.src.len(),
                    out@ == first + more_operands_text(operands_model(self.src@).take(i as int)),
                decreases self.src.len() - i,
            {
                out.push(',');
                out.push(' ');
                self.src[i].write(out);
                proof {
                    let next = operands_model(self.src@).take(i + 1);
                    assert(next.drop_last() =~= operands_model(self.src@).take(i as int));
                    assert(next.last() == self.src@[i as int]@);
                    assert(out@ =~= first + more_operands_text(next));
                }
                i = i + 1;
            }
            assert(operands_model(self.src@).take(self.src.len() as int) =~= operands_model(
                self.src@,
            ));
            assert(out@ =~= head + operands_text(operands_model(self.src@)));
        } else {
            assert(out@ =~= head + operands_text(operands_model(self.src@)));
        }
        write_cond(out, &self.cond_suffix, &self.cond);
        assert(out@ =~= old(out)@ + compute_text(self@));
    }

    /// The text of the computation.
    pub fn to_string(&self) -> (r: String)
        ensures
            r@ == compute_text(self@),
    {
        let mut out = String::new();
        self.write(&mut out);
        assert(out@ =~= compute_text(self@));
        out
    }
}

impl Instruction {
    /// Appends the text of the instruction.
    pub fn write(&self, out: &mut String)
        ensures
            final(out)@ == old(out)@ + instruction_text(self@),
    {
        match self {
            Instruction::DataLoad(data_access) => data_access.write(out, true),
            Instruction::DataStore(data_access) => data_access.write(out, false),
            Instruction::Compute(compute) => compute.write(out),
        }
    }

    /// The text of the instruction.
    pub fn to_string(&self) -> (r: String)
        ensures
            r@ == instruction_text(self@),
    {
        let mut out = String::new();
        self.write(&mut out);
        assert(out@ =~= instruction_text(self@));
        out
    }
}

} // verus!
