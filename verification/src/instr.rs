//! The target instruction model: an opcode tag, up to three frame offsets
//! and at most one immediate-or-label operand per instruction.

use vstd::prelude::*;

verus! {

/// Opcode tags of the target instructions that the translator emits.
#[derive(Clone, Copy, Debug, PartialEq, Eq)]
pub enum CasmOp {
    /// `[fp + off2] = [fp + off0] + [fp + off1]`
    StoreAddFpFp,
    /// `[fp + off2] = [fp + off0] - [fp + off1]`
    StoreSubFpFp,
    /// `[fp + off2] = [fp + off0] * [fp + off1]`
    StoreMulFpFp,
    /// `[fp + off2] = [fp + off0]`
    StoreDerefFp,
    /// `[fp + off2] = imm`
    StoreImm,
    /// `call label`
    CallAbsImm,
    /// `ret`
    Ret,
}

/// The single immediate-or-label operand an instruction may carry.
#[derive(Clone, Debug, PartialEq, Eq)]
pub enum CasmOperand {
    Literal(i32),
    Label(String),
}

/// One emitted target instruction.  Instructions are appended to the
/// instruction stream and never mutated afterwards.
#[derive(Clone, Debug, PartialEq, Eq)]
pub struct Instr {
    pub opcode: CasmOp,
    pub off0: Option<i64>,
    pub off1: Option<i64>,
    pub off2: Option<i64>,
    pub operand: Option<CasmOperand>,
}

/// Mathematical image of an operand: a label is seen as its characters.
#[verifier::ext_equal]
pub enum OperandV {
    Literal(int),
    Label(Seq<char>),
}

/// Mathematical image of an instruction, used by all contracts.
#[verifier::ext_equal]
pub struct InstrV {
    pub opcode: CasmOp,
    pub off0: Option<int>,
    pub off1: Option<int>,
    pub off2: Option<int>,
    pub operand: Option<OperandV>,
}

impl View for Instr {
    type V = InstrV;

    open spec fn view(&self) -> InstrV {
        InstrV {
            opcode: self.opcode,
            off0: match self.off0 {
                Option::Some(v) => Option::Some(v as int),
                Option::None => Option::None,
            },
            off1: match self.off1 {
                Option::Some(v) => Option::Some(v as int),
                Option::None => Option::None,
            },
            off2: match self.off2 {
                Option::Some(v) => Option::Some(v as int),
                Option::None => Option::None,
            },
            operand: match self.operand {
                Option::Some(CasmOperand::Literal(v)) => Option::Some(OperandV::Literal(v as int)),
                Option::Some(CasmOperand::Label(s)) => Option::Some(OperandV::Label(s@)),
                Option::None => Option::None,
            },
        }
    }
}

/// The image of a whole instruction stream.
pub open spec fn instr_views(s: Seq<Instr>) -> Seq<InstrV> {
    s.map_values(|i: Instr| i@)
}

/// Appending one instruction to a stream appends its image.
pub proof fn lemma_views_push(s: Seq<Instr>, x: Instr)
    ensures
        instr_views(s.push(x)) == instr_views(s).push(x@),
        instr_views(s).push(x@) == instr_views(s) + seq![x@],
{
    assert(instr_views(s.push(x)) =~= instr_views(s).push(x@));
    assert(instr_views(s).push(x@) =~= instr_views(s) + seq![x@]);
}

impl Instr {
    /// A fresh instruction with the given opcode and no offsets or operand.
    pub fn new(opcode: CasmOp) -> (r: Self)
        ensures
            r == (Instr { opcode, off0: None, off1: None, off2: None, operand: None }),
    {
        Instr { opcode, off0: None, off1: None, off2: None, operand: None }
    }

    /// The same instruction with its first offset set.
    pub fn with_off0(self, off0: i64) -> (r: Self)
        ensures
            r == (Instr { off0: Some(off0), ..self }),
    {
        Instr { off0: Some(off0), ..self }
    }

    /// The same instruction with its second offset set.
    pub fn with_off1(self, off1: i64) -> (r: Self)
        ensures
            r == (Instr { off1: Some(off1), ..self }),
    {
        Instr { off1: Some(off1), ..self }
    }

    /// The same instruction with its third offset set.
    pub fn with_off2(self, off2: i64) -> (r: Self)
        ensures
            r == (Instr { off2: Some(off2), ..self }),
    {
        Instr { off2: Some(off2), ..self }
    }

    /// The same instruction carrying an immediate literal operand.
    pub fn with_imm(self, imm: i32) -> (r: Self)
        ensures
            r == (Instr { operand: Some(CasmOperand::Literal(imm)), ..self }),
    {
        Instr { operand: Some(CasmOperand::Literal(imm)), ..self }
    }

    /// The same instruction carrying a symbolic label operand.
    pub fn with_label(self, label: String) -> (r: Self)
        ensures
            r == (Instr { operand: Some(CasmOperand::Label(label)), ..self }),
    {
        Instr { operand: Some(CasmOperand::Label(label)), ..self }
    }
}

} // verus!
