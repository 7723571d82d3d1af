use casm_transpiler::builder::CasmBuilder;
use casm_transpiler::data::{FuncSig, FunctionCode, ModuleSection, TranslateError, WasmOp};
use casm_transpiler::instr::{CasmOp, CasmOperand, Instr};

fn di(
    opcode: CasmOp,
    off0: Option<i64>,
    off1: Option<i64>,
    off2: Option<i64>,
    operand: Option<CasmOperand>,
) -> Instr {
    Instr { opcode, off0, off1, off2, operand }
}

fn sig(param_count: u32, result_count: u32) -> FuncSig {
    FuncSig { param_count, result_count }
}

fn label(s: &str) -> Option<CasmOperand> {
    Some(CasmOperand::Label(s.to_string()))
}

fn lit(v: i32) -> Option<CasmOperand> {
    Some(CasmOperand::Literal(v))
}

#[test]
fn fresh_builder_is_empty() {
    let b = CasmBuilder::new();
    assert!(b.instructions.is_empty());
    assert!(b.labels.is_empty());
    assert_eq!(b.fp_offset, 0);
    assert!(b.function_names.is_empty());
    assert!(b.function_types.is_empty());
    assert!(b.types.is_empty());
}

#[test]
fn push_label_binds_current_end() {
    let mut b = CasmBuilder::new();
    b.push_instruction(Instr::new(CasmOp::Ret));
    b.push_label("here".to_string());
    assert_eq!(b.labels, vec![("here".to_string(), 1)]);
}

#[test]
fn local_get_parameter_offset() {
    // Parameter access: local index i < P resolves to -4 - i.
    let mut b = CasmBuilder::new();
    b.local_get(0, 3);
    b.local_get(1, 3);
    b.local_get(2, 3);
    assert_eq!(
        b.instructions,
        vec![
            di(CasmOp::StoreDerefFp, Some(-4), None, Some(0), None),
            di(CasmOp::StoreDerefFp, Some(-5), None, Some(1), None),
            di(CasmOp::StoreDerefFp, Some(-6), None, Some(2), None),
        ]
    );
    assert_eq!(b.fp_offset, 3);
}

#[test]
fn local_get_true_local_offset() {
    // True local access: local index i >= P resolves to i - P.
    let mut b = CasmBuilder::new();
    b.fp_offset = 2;
    b.local_get(3, 3);
    b.local_get(5, 3);
    assert_eq!(
        b.instructions,
        vec![
            di(CasmOp::StoreDerefFp, Some(0), None, Some(2), None),
            di(CasmOp::StoreDerefFp, Some(2), None, Some(3), None),
        ]
    );
    assert_eq!(b.fp_offset, 4);
}

#[test]
fn local_set_pops_into_local() {
    let mut b = CasmBuilder::new();
    b.fp_offset = 2;
    b.local_set(1, 3);
    assert_eq!(b.instructions, vec![di(CasmOp::StoreDerefFp, Some(1), None, Some(-5), None)]);
    assert_eq!(b.fp_offset, 1);
}

#[test]
fn local_tee_keeps_tracker() {
    let mut b = CasmBuilder::new();
    b.fp_offset = 2;
    b.local_tee(4, 3);
    assert_eq!(b.instructions, vec![di(CasmOp::StoreDerefFp, Some(1), None, Some(1), None)]);
    assert_eq!(b.fp_offset, 2);
}

#[test]
fn binary_operators_combine_topmost_slots() {
    let mut b = CasmBuilder::new();
    b.fp_offset = 5;
    b.i32_add();
    b.i32_sub();
    b.i32_mul();
    assert_eq!(
        b.instructions,
        vec![
            di(CasmOp::StoreAddFpFp, Some(3), Some(4), Some(3), None),
            di(CasmOp::StoreSubFpFp, Some(2), Some(3), Some(2), None),
            di(CasmOp::StoreMulFpFp, Some(1), Some(2), Some(1), None),
        ]
    );
    assert_eq!(b.fp_offset, 2);
}

#[test]
fn return_op_relocates_then_returns() {
    // An explicit return moves the top-of-stack value into the fixed return
    // slot at -3, pops it, then returns.
    let mut b = CasmBuilder::new();
    b.fp_offset = 2;
    b.return_op();
    assert_eq!(
        b.instructions,
        vec![
            di(CasmOp::StoreDerefFp, Some(1), None, Some(-3), None),
            di(CasmOp::Ret, None, None, None, None),
        ]
    );
    assert_eq!(b.fp_offset, 1);
}

#[test]
fn const_stores_at_new_top_slot() {
    let mut b = CasmBuilder::new();
    b.fp_offset = 4;
    b.i32_const(-7);
    assert_eq!(b.instructions, vec![di(CasmOp::StoreImm, None, None, Some(4), lit(-7))]);
    assert_eq!(b.fp_offset, 5);
}

#[test]
fn call_uses_exported_name_and_result_count() {
    let mut b = CasmBuilder::new();
    b.types.push(sig(2, 1));
    b.function_types.push(0);
    b.function_names.push((0, "helper".to_string()));
    let r = b.call(0);
    assert!(r.is_ok());
    assert_eq!(b.instructions, vec![di(CasmOp::CallAbsImm, None, None, None, label("helper"))]);
    assert_eq!(b.fp_offset, 1);
}

#[test]
fn call_out_of_range_degrades_to_no_result() {
    let mut b = CasmBuilder::new();
    let r = b.call(9);
    assert!(r.is_ok());
    assert_eq!(b.instructions, vec![di(CasmOp::CallAbsImm, None, None, None, label("func_9"))]);
    assert_eq!(b.fp_offset, 0);
}

#[test]
fn call_with_dangling_type_index_degrades() {
    let mut b = CasmBuilder::new();
    b.function_types.push(7);
    let r = b.call(0);
    assert!(r.is_ok());
    assert_eq!(b.fp_offset, 0);
}

#[test]
fn call_with_two_results_is_fatal() {
    let mut b = CasmBuilder::new();
    b.types.push(sig(0, 2));
    b.function_types.push(0);
    let r = b.call(0);
    assert_eq!(r, Err(TranslateError::MultiResultCallee(0)));
    assert_eq!(b.fp_offset, 0);
}

#[test]
fn resolve_name_prefers_export_and_takes_last() {
    let mut b = CasmBuilder::new();
    b.function_names.push((5, "first".to_string()));
    b.function_names.push((5, "second".to_string()));
    assert_eq!(b.resolve_name(5), "second");
    assert_eq!(b.resolve_name(0), "func_0");
    assert_eq!(b.resolve_name(2), "func_2");
    assert_eq!(b.resolve_name(42), "func_42");
    assert_eq!(b.resolve_name(4000000000), "func_4000000000");
}

#[test]
fn generate_function_appends_epilogue_for_return_value() {
    // A function with a return value ends with the -3 relocation, then ret,
    // even without an explicit return operator in the body.
    let mut b = CasmBuilder::new();
    b.types.push(sig(1, 1));
    b.function_types.push(0);
    let ops = vec![WasmOp::LocalGet(0), WasmOp::End];
    let r = b.generate_function("f".to_string(), &ops, 0, 0);
    assert!(r.is_ok());
    assert_eq!(
        b.instructions,
        vec![
            di(CasmOp::StoreDerefFp, Some(-4), None, Some(0), None),
            di(CasmOp::StoreDerefFp, Some(0), None, Some(-3), None),
            di(CasmOp::Ret, None, None, None, None),
        ]
    );
    assert_eq!(b.fp_offset, 0);
    assert_eq!(b.labels, vec![("f".to_string(), 0)]);
}

#[test]
fn generate_function_without_return_value_ends_with_ret_alone() {
    let mut b = CasmBuilder::new();
    b.types.push(sig(1, 0));
    b.function_types.push(0);
    let ops = vec![WasmOp::LocalGet(0), WasmOp::LocalSet(0), WasmOp::End];
    let r = b.generate_function("g".to_string(), &ops, 0, 0);
    assert!(r.is_ok());
    assert_eq!(b.instructions.len(), 3);
    assert_eq!(b.instructions[2], di(CasmOp::Ret, None, None, None, None));
    assert_eq!(b.fp_offset, 0);
}

#[test]
fn generate_function_out_of_range_defaults_to_no_params_no_return() {
    let mut b = CasmBuilder::new();
    let ops = vec![WasmOp::LocalGet(0)];
    let r = b.generate_function("h".to_string(), &ops, 0, 3);
    assert!(r.is_ok());
    // With the (0, false) default, local 0 is a true local at offset 0.
    assert_eq!(
        b.instructions,
        vec![
            di(CasmOp::StoreDerefFp, Some(0), None, Some(0), None),
            di(CasmOp::Ret, None, None, None, None),
        ]
    );
}

#[test]
fn tracker_balances_over_translated_operators() {
    // Additional locals plus the net effect of the translated operators,
    // less the epilogue's pop for the owed return value.
    let mut b = CasmBuilder::new();
    b.types.push(sig(0, 1));
    b.function_types.push(0);
    let ops = vec![
        WasmOp::I32Const(1),
        WasmOp::I32Const(2),
        WasmOp::I32Add,
        WasmOp::Unsupported,
        WasmOp::End,
    ];
    let r = b.generate_function("f".to_string(), &ops, 2, 0);
    assert!(r.is_ok());
    // Tracker: starts at 2, +1 +1 -1, unsupported and end contribute 0,
    // epilogue pops one: final 2.
    assert_eq!(b.fp_offset, 2);
}

#[test]
fn unsupported_operator_emits_nothing() {
    let mut b = CasmBuilder::new();
    b.types.push(sig(0, 0));
    b.function_types.push(0);
    let with = vec![WasmOp::I32Const(1), WasmOp::Unsupported, WasmOp::End];
    let without = vec![WasmOp::I32Const(1), WasmOp::End];
    let mut b2 = CasmBuilder::new();
    b2.types.push(sig(0, 0));
    b2.function_types.push(0);
    let r1 = b.generate_function("f".to_string(), &with, 0, 0);
    let r2 = b2.generate_function("f".to_string(), &without, 0, 0);
    assert!(r1.is_ok());
    assert!(r2.is_ok());
    assert_eq!(b.instructions, b2.instructions);
    assert_eq!(b.fp_offset, b2.fp_offset);
}

fn scenario_a_sections() -> Vec<ModuleSection> {
    vec![
        ModuleSection::Types(vec![sig(3, 1), sig(2, 1)]),
        ModuleSection::Functions(vec![0, 1, 1]),
        ModuleSection::Exports(vec![(1, "add".to_string()), (2, "mul".to_string())]),
        // main: mul(a, 3 * add(b, c)) - 12
        ModuleSection::Code(FunctionCode {
            local_count: 0,
            ops: vec![
                WasmOp::LocalGet(0),
                WasmOp::LocalGet(1),
                WasmOp::LocalGet(2),
                WasmOp::Call(1),
                WasmOp::I32Const(3),
                WasmOp::I32Mul,
                WasmOp::Call(2),
                WasmOp::I32Const(12),
                WasmOp::I32Sub,
                WasmOp::Return,
                WasmOp::End,
            ],
        }),
        ModuleSection::Code(FunctionCode {
            local_count: 0,
            ops: vec![WasmOp::LocalGet(0), WasmOp::LocalGet(1), WasmOp::I32Add, WasmOp::End],
        }),
        ModuleSection::Code(FunctionCode {
            local_count: 0,
            ops: vec![WasmOp::LocalGet(0), WasmOp::LocalGet(1), WasmOp::I32Mul, WasmOp::End],
        }),
    ]
}

#[test]
fn scenario_main_with_two_helper_calls() {
    let sections = scenario_a_sections();
    let mut b = CasmBuilder::new();
    let r = b.build_module(&sections);
    assert!(r.is_ok());
    let expected_main = vec![
        di(CasmOp::StoreDerefFp, Some(-4), None, Some(0), None),
        di(CasmOp::StoreDerefFp, Some(-5), None, Some(1), None),
        di(CasmOp::StoreDerefFp, Some(-6), None, Some(2), None),
        di(CasmOp::CallAbsImm, None, None, None, label("add")),
        di(CasmOp::StoreImm, None, None, Some(4), lit(3)),
        di(CasmOp::StoreMulFpFp, Some(3), Some(4), Some(3), None),
        di(CasmOp::CallAbsImm, None, None, None, label("mul")),
        di(CasmOp::StoreImm, None, None, Some(5), lit(12)),
        di(CasmOp::StoreSubFpFp, Some(4), Some(5), Some(4), None),
        // The explicit return relocates the result and returns.
        di(CasmOp::StoreDerefFp, Some(4), None, Some(-3), None),
        di(CasmOp::Ret, None, None, None, None),
        // The unconditional epilogue for a function with a return value.
        di(CasmOp::StoreDerefFp, Some(3), None, Some(-3), None),
        di(CasmOp::Ret, None, None, None, None),
    ];
    assert_eq!(&b.instructions[0..13], &expected_main[..]);
    // The main body's sequence ends in the -3 relocation plus return.
    assert_eq!(b.instructions[11].off2, Some(-3));
    assert_eq!(b.instructions[12].opcode, CasmOp::Ret);
    // Entry labels: unexported main falls back, helpers keep their names.
    assert_eq!(
        b.labels,
        vec![("func_0".to_string(), 0), ("add".to_string(), 13), ("mul".to_string(), 18)]
    );
    // Helper bodies: get, get, binop, relocation, ret.
    assert_eq!(
        &b.instructions[13..18],
        &[
            di(CasmOp::StoreDerefFp, Some(-4), None, Some(0), None),
            di(CasmOp::StoreDerefFp, Some(-5), None, Some(1), None),
            di(CasmOp::StoreAddFpFp, Some(0), Some(1), Some(0), None),
            di(CasmOp::StoreDerefFp, Some(0), None, Some(-3), None),
            di(CasmOp::Ret, None, None, None, None),
        ]
    );
    assert_eq!(b.instructions.len(), 23);
}

#[test]
fn exported_function_keeps_its_label() {
    let sections = vec![
        ModuleSection::Types(vec![sig(0, 0)]),
        ModuleSection::Functions(vec![0]),
        ModuleSection::Exports(vec![(0, "foo".to_string())]),
        ModuleSection::Code(FunctionCode { local_count: 0, ops: vec![WasmOp::End] }),
    ];
    let mut b = CasmBuilder::new();
    assert!(b.build_module(&sections).is_ok());
    assert_eq!(b.labels, vec![("foo".to_string(), 0)]);
}

#[test]
fn unexported_function_index_2_gets_fallback_name() {
    let body = || ModuleSection::Code(FunctionCode { local_count: 0, ops: vec![WasmOp::End] });
    let sections = vec![
        ModuleSection::Types(vec![sig(0, 0)]),
        ModuleSection::Functions(vec![0, 0, 0]),
        ModuleSection::Exports(vec![(0, "a".to_string()), (1, "b".to_string())]),
        body(),
        body(),
        body(),
    ];
    let mut b = CasmBuilder::new();
    assert!(b.build_module(&sections).is_ok());
    assert_eq!(b.labels[2], ("func_2".to_string(), 2));
}

#[test]
fn multi_result_callee_aborts_translation() {
    let sections = vec![
        ModuleSection::Types(vec![sig(0, 2)]),
        ModuleSection::Functions(vec![0, 0]),
        ModuleSection::Code(FunctionCode { local_count: 0, ops: vec![WasmOp::Call(1)] }),
    ];
    let mut b = CasmBuilder::new();
    assert_eq!(b.build_module(&sections), Err(TranslateError::MultiResultCallee(1)));
}

#[test]
fn build_module_twice_is_identical() {
    let sections = scenario_a_sections();
    let mut b1 = CasmBuilder::new();
    let mut b2 = CasmBuilder::new();
    assert!(b1.build_module(&sections).is_ok());
    assert!(b2.build_module(&sections).is_ok());
    assert_eq!(b1.instructions, b2.instructions);
    assert_eq!(b1.labels, b2.labels);
    assert_eq!(b1.fp_offset, b2.fp_offset);
}

#[test]
fn non_function_exports_are_ignored_by_parse_model() {
    // The driver only ever sees function exports; an export section entry
    // for another kind never reaches the name table.  At the driver level,
    // names come in as plain pairs, so an absent pair means a fallback name.
    let sections = vec![
        ModuleSection::Types(vec![sig(0, 0)]),
        ModuleSection::Functions(vec![0]),
        ModuleSection::Exports(vec![]),
        ModuleSection::Code(FunctionCode { local_count: 0, ops: vec![WasmOp::End] }),
    ];
    let mut b = CasmBuilder::new();
    assert!(b.build_module(&sections).is_ok());
    assert_eq!(b.labels, vec![("func_0".to_string(), 0)]);
}

#[test]
fn instruction_builders_set_fields() {
    let i = Instr::new(CasmOp::StoreImm).with_off0(1).with_off1(2).with_off2(3).with_imm(9);
    assert_eq!(i, di(CasmOp::StoreImm, Some(1), Some(2), Some(3), lit(9)));
    let c = Instr::new(CasmOp::CallAbsImm).with_label("x".to_string());
    assert_eq!(c, di(CasmOp::CallAbsImm, None, None, None, label("x")));
}

#[test]
fn local_count_reserves_positive_region() {
    // The tracker starts at the additional-local count, so the first pushed
    // value lands above the reserved local slots.
    let mut b = CasmBuilder::new();
    b.types.push(sig(0, 0));
    b.function_types.push(0);
    let ops = vec![WasmOp::I32Const(5), WasmOp::LocalSet(0), WasmOp::End];
    let r = b.generate_function("f".to_string(), &ops, 2, 0);
    assert!(r.is_ok());
    assert_eq!(
        b.instructions,
        vec![
            di(CasmOp::StoreImm, None, None, Some(2), lit(5)),
            di(CasmOp::StoreDerefFp, Some(2), None, Some(0), None),
            di(CasmOp::Ret, None, None, None, None),
        ]
    );
    assert_eq!(b.fp_offset, 2);
}
