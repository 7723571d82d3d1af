//! The library's general laws, stated over the translation model that the
//! engine's contracts are written in, and proved once and for all.

use vstd::prelude::*;

use crate::data::WasmOp;
use crate::instr::CasmOp;
use crate::model::{
    DriverV, SymbolsV, body_code, epilogue_code, has_return_value, is_bad_call,
    lemma_net_effect_concat, local_offset, net_effect, op_delta, ops_code, reloc_instr, ret_instr,
    run_sections,
};
use crate::wasm::{parsed_of, sections_of_raw};

verus! {

/// Law: parameter access for a source local index `i` below the parameter
/// count resolves to frame offset `-4 - i`: parameters are laid out in
/// declaration order below the four frame slots the calling convention
/// reserves for control data.
pub proof fn lemma_param_offset(i: u32, p: u32)
    requires
        (i as int) < (p as int),
    ensures
        local_offset(i, p as int) == -4 - i as int,
{
}

/// Law: access to a true local, a source local index `i` at or above the
/// parameter count `P`, resolves to frame offset `i - P`, in the
/// positive-offset region reserved at function entry.
pub proof fn lemma_true_local_offset(i: u32, p: u32)
    requires
        (i as int) >= (p as int),
    ensures
        local_offset(i, p as int) == i as int - p as int,
{
}

/// Law: the frame-offset tracker balances exactly like a stack machine's
/// depth.  Extending a translated prefix by one operator moves the net
/// effect by that operator's delta; a supported operator's delta is between
/// minus one and plus one (a call contributes its callee's result count),
/// and an untranslated operator or the end-of-body marker contributes
/// nothing.  Together with `generate_function`'s contract — the tracker ends
/// at the additional-local count plus the body's net effect, less the
/// epilogue's pop when a return value is owed — this is the whole balance.
pub proof fn lemma_tracker_balance(s: SymbolsV, ops: Seq<WasmOp>, i: int)
    requires
        0 <= i < ops.len(),
    ensures
        net_effect(s, ops.take(i + 1)) == net_effect(s, ops.take(i)) + op_delta(s, ops[i]),
        !is_bad_call(s, ops[i]) ==> -1 <= op_delta(s, ops[i]) <= 1,
        (ops[i] is Unsupported || ops[i] is End) ==> op_delta(s, ops[i]) == 0,
        ops[i] is Return ==> op_delta(s, ops[i]) == -1,
{
    let one = seq![ops[i]];
    assert(ops.take(i + 1) =~= ops.take(i) + one);
    lemma_net_effect_concat(s, ops.take(i), one);
    assert(one.drop_first() =~= Seq::<WasmOp>::empty());
    assert(one[0] == ops[i]);
    assert(net_effect(s, one.drop_first()) == 0);
    assert(net_effect(s, one) == op_delta(s, ops[i]));
}

/// Law: a function that returns a value always ends its translated
/// instruction sequence with exactly one return-value relocation — a copy of
/// the top-of-stack slot into the fixed return slot at frame offset `-3` —
/// immediately followed by one unconditional return, whether or not the body
/// held an explicit return operator.
pub proof fn lemma_return_epilogue(s: SymbolsV, ops: Seq<WasmOp>, local_count: u32, idx: u32)
    requires
        has_return_value(s, idx),
    ensures
        ({
            let code = body_code(s, ops, local_count, idx);
            let fp = local_count as int + net_effect(s, ops);
            &&& code.len() >= 2
            &&& code[code.len() - 2] == reloc_instr(fp)
            &&& code[code.len() - 2].opcode == CasmOp::StoreDerefFp
            &&& code[code.len() - 2].off2 == Some(-3int)
            &&& code.last() == ret_instr()
            &&& code.last().opcode == CasmOp::Ret
        }),
{
    let fp = local_count as int + net_effect(s, ops);
    let body = ops_code(s, ops, local_count as int, crate::model::param_count_of(s, idx));
    let epi = epilogue_code(fp, true);
    assert(epi == seq![reloc_instr(fp), ret_instr()]);
    let code = body_code(s, ops, local_count, idx);
    assert(code == body + epi);
    assert(code[code.len() - 2] == epi[0]);
    assert(code.last() == epi[1]);
}

/// Law: translating the same module bytes twice, from equal starting states,
/// yields byte-for-byte identical instruction sequences and label tables.
/// The conclusion is immediate once stated over the model — `parsed_of` and
/// `run_sections` are mathematical functions — and the substance lies in
/// `build_file`'s contract, which pins the executable's whole outcome (the
/// parse diagnostic on failure, the final instruction stream, label table
/// and tracker on success) to exactly these functions of the starting state
/// and the bytes, leaving the executable no other possible output.
pub proof fn lemma_translation_deterministic(
    a: DriverV,
    b: DriverV,
    bytes_a: Seq<u8>,
    bytes_b: Seq<u8>,
)
    requires
        a == b,
        bytes_a == bytes_b,
    ensures
        parsed_of(bytes_a) == parsed_of(bytes_b),
        parsed_of(bytes_a) matches Ok(rs) ==> run_sections(a, sections_of_raw(rs))
            == run_sections(b, sections_of_raw(rs)),
{
}

} // verus!
