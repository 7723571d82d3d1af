//! The mathematical model of the translation: what the symbol tables say,
//! which instructions each source operator emits, how the frame-offset
//! tracker moves, and what a whole driver run over a section stream yields.

use vstd::prelude::*;

use crate::data::{FuncSig, SectionV, WasmOp};
use crate::instr::{CasmOp, InstrV, OperandV};
use crate::names::fallback_label;

verus! {

/// The most operators one function body may declare: keeps the frame-offset
/// tracker's signed arithmetic in range.
pub const MAX_BODY_OPS: u64 = 0x4000_0000_0000_0000;

/// The symbol and type tables the translator consults.
#[verifier::ext_equal]
pub struct SymbolsV {
    /// Declared signatures, in type-section order.
    pub types: Seq<FuncSig>,
    /// Function index to type index, in declaration order.
    pub function_types: Seq<u32>,
    /// Function index to exported name, in export-section order.
    pub names: Seq<(u32, Seq<char>)>,
}

/// The declared name of a function index, if any entry holds one; a later
/// entry overrides an earlier one for the same index.
pub open spec fn lookup_name(names: Seq<(u32, Seq<char>)>, idx: u32) -> Option<Seq<char>>
    decreases names.len(),
{
    if names.len() == 0 {
        None
    } else if names.last().0 == idx {
        Some(names.last().1)
    } else {
        lookup_name(names.drop_last(), idx)
    }
}

/// A function's entry label: its exported name if one was declared, else the
/// deterministic fallback `func_<index>`.
pub open spec fn entry_label(s: SymbolsV, idx: u32) -> Seq<char> {
    match lookup_name(s.names, idx) {
        Some(n) => n,
        None => fallback_label(idx),
    }
}

/// Parameter count of a function's signature; an out-of-range function or
/// type index degrades to zero parameters rather than failing.
pub open spec fn param_count_of(s: SymbolsV, idx: u32) -> int {
    if idx < s.function_types.len() && (s.function_types[idx as int] as int) < s.types.len()
        as int {
        s.types[s.function_types[idx as int] as int].param_count as int
    } else {
        0
    }
}

/// Result count of a function's signature; an out-of-range function or type
/// index degrades to no result value.
pub open spec fn result_count_of(s: SymbolsV, idx: u32) -> int {
    if idx < s.function_types.len() && (s.function_types[idx as int] as int) < s.types.len()
        as int {
        s.types[s.function_types[idx as int] as int].result_count as int
    } else {
        0
    }
}

/// Whether the function returns a value.
pub open spec fn has_return_value(s: SymbolsV, idx: u32) -> bool {
    result_count_of(s, idx) > 0
}

/// A call whose target declares more than one result value: translating one
/// is a fatal configuration error, since the target calling convention has a
/// single return slot.
pub open spec fn is_bad_call(s: SymbolsV, op: WasmOp) -> bool {
    op matches WasmOp::Call(f) && result_count_of(s, f) > 1
}

/// Frame offset of a source local: parameters live below the frame pointer
/// at `-4 - i` (four slots are reserved for control data), true locals in
/// the positive region at `i - param_count`.
pub open spec fn local_offset(local_index: u32, param_count: int) -> int {
    if (local_index as int) < param_count {
        -4 - local_index as int
    } else {
        local_index as int - param_count
    }
}

/// Net effect of one translated operator on the frame-offset tracker.
pub open spec fn op_delta(s: SymbolsV, op: WasmOp) -> int {
    match op {
        WasmOp::I32Add => -1,
        WasmOp::I32Sub => -1,
        WasmOp::I32Mul => -1,
        WasmOp::I32Const(_) => 1,
        WasmOp::LocalGet(_) => 1,
        WasmOp::LocalSet(_) => -1,
        WasmOp::LocalTee(_) => 0,
        WasmOp::Call(f) => result_count_of(s, f),
        WasmOp::End => 0,
        WasmOp::Return => -1,
        WasmOp::Unsupported => 0,
    }
}

/// Net effect of a whole operator stream on the frame-offset tracker.
pub open spec fn net_effect(s: SymbolsV, ops: Seq<WasmOp>) -> int
    decreases ops.len(),
{
    if ops.len() == 0 {
        0
    } else {
        op_delta(s, ops[0]) + net_effect(s, ops.drop_first())
    }
}

/// A binary arithmetic instruction combining the two topmost stack slots
/// into the lower of the two.
pub open spec fn binop_instr(opcode: CasmOp, fp: int) -> InstrV {
    InstrV { opcode, off0: Some(fp - 2), off1: Some(fp - 1), off2: Some(fp - 2), operand: None }
}

/// An immediate store into the new top-of-stack slot.
pub open spec fn const_instr(value: i32, fp: int) -> InstrV {
    InstrV {
        opcode: CasmOp::StoreImm,
        off0: None,
        off1: None,
        off2: Some(fp),
        operand: Some(OperandV::Literal(value as int)),
    }
}

/// A copy from a local's resolved offset to the new top-of-stack slot.
pub open spec fn get_instr(local_index: u32, param_count: int, fp: int) -> InstrV {
    InstrV {
        opcode: CasmOp::StoreDerefFp,
        off0: Some(local_offset(local_index, param_count)),
        off1: None,
        off2: Some(fp),
        operand: None,
    }
}

/// A copy from the top-of-stack slot into a local's resolved offset.
pub open spec fn set_instr(local_index: u32, param_count: int, fp: int) -> InstrV {
    InstrV {
        opcode: CasmOp::StoreDerefFp,
        off0: Some(fp - 1),
        off1: None,
        off2: Some(local_offset(local_index, param_count)),
        operand: None,
    }
}

/// A call instruction carrying the callee's resolved entry label.
pub open spec fn call_instr(s: SymbolsV, callee: u32) -> InstrV {
    InstrV {
        opcode: CasmOp::CallAbsImm,
        off0: None,
        off1: None,
        off2: None,
        operand: Some(OperandV::Label(entry_label(s, callee))),
    }
}

/// The unconditional return instruction.
pub open spec fn ret_instr() -> InstrV {
    InstrV { opcode: CasmOp::Ret, off0: None, off1: None, off2: None, operand: None }
}

/// The return-value relocation: moves the top-of-stack slot into the fixed
/// return slot at frame offset `-3`.
pub open spec fn reloc_instr(fp: int) -> InstrV {
    InstrV {
        opcode: CasmOp::StoreDerefFp,
        off0: Some(fp - 1),
        off1: None,
        off2: Some(-3),
        operand: None,
    }
}

/// The instructions one source operator translates to, with the tracker at
/// `fp`.  An explicit return moves the popped top-of-stack value into the
/// fixed return slot and then returns; operators outside the supported
/// subset, and the end-of-body marker, emit nothing.
pub open spec fn op_code(s: SymbolsV, op: WasmOp, fp: int, param_count: int) -> Seq<InstrV> {
    match op {
        WasmOp::I32Add => seq![binop_instr(CasmOp::StoreAddFpFp, fp)],
        WasmOp::I32Sub => seq![binop_instr(CasmOp::StoreSubFpFp, fp)],
        WasmOp::I32Mul => seq![binop_instr(CasmOp::StoreMulFpFp, fp)],
        WasmOp::I32Const(v) => seq![const_instr(v, fp)],
        WasmOp::LocalGet(i) => seq![get_instr(i, param_count, fp)],
        WasmOp::LocalSet(i) => seq![set_instr(i, param_count, fp)],
        WasmOp::LocalTee(i) => seq![set_instr(i, param_count, fp)],
        WasmOp::Call(f) => seq![call_instr(s, f)],
        WasmOp::End => seq![],
        WasmOp::Return => seq![reloc_instr(fp), ret_instr()],
        WasmOp::Unsupported => seq![],
    }
}

/// The translation of a whole operator stream, with the tracker starting at
/// `fp`.
pub open spec fn ops_code(s: SymbolsV, ops: Seq<WasmOp>, fp: int, param_count: int) -> Seq<InstrV>
    decreases ops.len(),
{
    if ops.len() == 0 {
        seq![]
    } else {
        op_code(s, ops[0], fp, param_count) + ops_code(
            s,
            ops.drop_first(),
            fp + op_delta(s, ops[0]),
            param_count,
        )
    }
}

/// The function epilogue: the return-value relocation when the function
/// returns a value, then the unconditional return.
pub open spec fn epilogue_code(fp: int, has_ret: bool) -> Seq<InstrV> {
    if has_ret {
        seq![reloc_instr(fp), ret_instr()]
    } else {
        seq![ret_instr()]
    }
}

/// Everything translating one function body appends to the instruction
/// stream: the translated operators, then the epilogue.
pub open spec fn body_code(s: SymbolsV, ops: Seq<WasmOp>, local_count: u32, idx: u32) -> Seq<
    InstrV,
> {
    ops_code(s, ops, local_count as int, param_count_of(s, idx)) + epilogue_code(
        local_count as int + net_effect(s, ops),
        has_return_value(s, idx),
    )
}

/// The net effect of a concatenation is the sum of the parts' effects.
pub proof fn lemma_net_effect_concat(s: SymbolsV, a: Seq<WasmOp>, b: Seq<WasmOp>)
    ensures
        net_effect(s, a + b) == net_effect(s, a) + net_effect(s, b),
    decreases a.len(),
{
    if a.len() == 0 {
        assert(a + b =~= b);
    } else {
        assert((a + b).drop_first() =~= a.drop_first() + b);
        lemma_net_effect_concat(s, a.drop_first(), b);
    }
}

/// Translating a concatenation yields the first part's code, then the second
/// part's code with the tracker advanced by the first part's net effect.
pub proof fn lemma_ops_code_concat(s: SymbolsV, a: Seq<WasmOp>, b: Seq<WasmOp>, fp: int, pc: int)
    ensures
        ops_code(s, a + b, fp, pc) == ops_code(s, a, fp, pc) + ops_code(
            s,
            b,
            fp + net_effect(s, a),
            pc,
        ),
    decreases a.len(),
{
    if a.len() == 0 {
        assert(a + b =~= b);
        assert(ops_code(s, a, fp, pc) + ops_code(s, b, fp, pc) =~= ops_code(s, b, fp, pc));
    } else {
        assert((a + b).drop_first() =~= a.drop_first() + b);
        lemma_ops_code_concat(s, a.drop_first(), b, fp + op_delta(s, a[0]), pc);
        assert(op_code(s, a[0], fp, pc) + (ops_code(s, a.drop_first(), fp + op_delta(s, a[0]), pc)
            + ops_code(s, b, fp + op_delta(s, a[0]) + net_effect(s, a.drop_first()), pc)) =~= (
        op_code(s, a[0], fp, pc) + ops_code(s, a.drop_first(), fp + op_delta(s, a[0]), pc))
            + ops_code(s, b, fp + op_delta(s, a[0]) + net_effect(s, a.drop_first()), pc));
    }
}

/// Extending a translated prefix by one operator appends that operator's
/// code, with the tracker at the prefix's final position.
pub proof fn lemma_ops_code_snoc(s: SymbolsV, ops: Seq<WasmOp>, i: int, fp: int, pc: int)
    requires
        0 <= i < ops.len(),
    ensures
        ops_code(s, ops.take(i + 1), fp, pc) == ops_code(s, ops.take(i), fp, pc) + op_code(
            s,
            ops[i],
            fp + net_effect(s, ops.take(i)),
            pc,
        ),
        net_effect(s, ops.take(i + 1)) == net_effect(s, ops.take(i)) + op_delta(s, ops[i]),
{
    let one = seq![ops[i]];
    assert(ops.take(i + 1) =~= ops.take(i) + one);
    lemma_ops_code_concat(s, ops.take(i), one, fp, pc);
    lemma_net_effect_concat(s, ops.take(i), one);
    assert(one.drop_first() =~= Seq::<WasmOp>::empty());
    assert(one[0] == ops[i]);
    let mid = fp + net_effect(s, ops.take(i));
    assert(net_effect(s, one.drop_first()) == 0);
    assert(net_effect(s, one) == op_delta(s, ops[i]));
    assert(ops_code(s, one.drop_first(), mid + op_delta(s, ops[i]), pc) =~= Seq::<
        InstrV,
    >::empty());
    assert(ops_code(s, one, mid, pc) == op_code(s, ops[i], mid, pc) + ops_code(
        s,
        one.drop_first(),
        mid + op_delta(s, ops[i]),
        pc,
    ));
    assert(op_code(s, ops[i], mid, pc) + Seq::<InstrV>::empty() =~= op_code(s, ops[i], mid, pc));
}

/// The translation driver's whole state.
#[verifier::ext_equal]
pub struct DriverV {
    pub sym: SymbolsV,
    /// Label table: name to instruction index.
    pub labels: Seq<(Seq<char>, int)>,
    /// The accumulated instruction stream.
    pub code: Seq<InstrV>,
    /// The frame-offset tracker.
    pub fp: int,
    /// The next sequential function index to assign to a code entry.
    pub next_index: int,
}

/// One driver step: scan a non-code section into the tables, or translate
/// one code entry under the next sequential function index.  `None` is a
/// failed translation.
pub open spec fn section_step(st: DriverV, sec: SectionV) -> Option<DriverV> {
    match sec {
        SectionV::Types(ts) => Some(
            DriverV { sym: SymbolsV { types: st.sym.types + ts, ..st.sym }, ..st },
        ),
        SectionV::Functions(fs) => Some(
            DriverV {
                sym: SymbolsV { function_types: st.sym.function_types + fs, ..st.sym },
                ..st
            },
        ),
        SectionV::Exports(es) => Some(
            DriverV { sym: SymbolsV { names: st.sym.names + es, ..st.sym }, ..st },
        ),
        SectionV::Code(local_count, ops) => {
            if st.next_index > u32::MAX as int {
                None
            } else if ops.len() as int > MAX_BODY_OPS as int {
                None
            } else if exists|j: int| 0 <= j < ops.len() && is_bad_call(st.sym, ops[j]) {
                None
            } else {
                let idx = st.next_index as u32;
                Some(
                    DriverV {
                        sym: st.sym,
                        labels: st.labels.push((entry_label(st.sym, idx), st.code.len() as int)),
                        code: st.code + body_code(st.sym, ops, local_count, idx),
                        fp: local_count as int + net_effect(st.sym, ops) - (
                        if has_return_value(st.sym, idx) {
                            1int
                        } else {
                            0int
                        }),
                        next_index: st.next_index + 1,
                    },
                )
            }
        },
    }
}

/// Runs the driver over a section stream in file order, stopping at the
/// first failed translation.
pub open spec fn run_sections(st: DriverV, secs: Seq<SectionV>) -> Option<DriverV>
    decreases secs.len(),
{
    if secs.len() == 0 {
        Some(st)
    } else {
        match section_step(st, secs[0]) {
            Some(st2) => run_sections(st2, secs.drop_first()),
            None => None,
        }
    }
}

} // verus!
