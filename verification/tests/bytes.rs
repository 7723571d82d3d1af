use casm_transpiler::builder::CasmBuilder;
use casm_transpiler::data::{FuncSig, TranslateError};
use casm_transpiler::instr::{CasmOp, Instr};

// A minimal binary module: one type `(i32, i32) -> i32`, one function of
// that type exported as "foo", body `local.get 0; local.get 1; i32.add; end`.
fn add_module() -> Vec<u8> {
    vec![
        0x00, 0x61, 0x73, 0x6D, // magic
        0x01, 0x00, 0x00, 0x00, // version
        0x01, 0x07, 0x01, 0x60, 0x02, 0x7F, 0x7F, 0x01, 0x7F, // type section
        0x03, 0x02, 0x01, 0x00, // function section
        0x07, 0x07, 0x01, 0x03, 0x66, 0x6F, 0x6F, 0x00, 0x00, // export "foo"
        0x0A, 0x09, 0x01, 0x07, 0x00, 0x20, 0x00, 0x20, 0x01, 0x6A, 0x0B, // code
    ]
}

// The same module with a `nop` at the start of the body, an operator outside
// the supported subset.
fn add_module_with_nop() -> Vec<u8> {
    vec![
        0x00, 0x61, 0x73, 0x6D, 0x01, 0x00, 0x00, 0x00, //
        0x01, 0x07, 0x01, 0x60, 0x02, 0x7F, 0x7F, 0x01, 0x7F, //
        0x03, 0x02, 0x01, 0x00, //
        0x07, 0x07, 0x01, 0x03, 0x66, 0x6F, 0x6F, 0x00, 0x00, //
        0x0A, 0x0A, 0x01, 0x08, 0x00, 0x01, 0x20, 0x00, 0x20, 0x01, 0x6A, 0x0B,
    ]
}

fn expected_add_instructions() -> Vec<Instr> {
    vec![
        Instr { opcode: CasmOp::StoreDerefFp, off0: Some(-4), off1: None, off2: Some(0), operand: None },
        Instr { opcode: CasmOp::StoreDerefFp, off0: Some(-5), off1: None, off2: Some(1), operand: None },
        Instr { opcode: CasmOp::StoreAddFpFp, off0: Some(0), off1: Some(1), off2: Some(0), operand: None },
        Instr { opcode: CasmOp::StoreDerefFp, off0: Some(0), off1: None, off2: Some(-3), operand: None },
        Instr { opcode: CasmOp::Ret, off0: None, off1: None, off2: None, operand: None },
    ]
}

#[test]
fn build_file_translates_add_module() {
    let bytes = add_module();
    let mut b = CasmBuilder::new();
    let r = b.build_file(&bytes);
    assert!(r.is_ok());
    assert_eq!(b.types, vec![FuncSig { param_count: 2, result_count: 1 }]);
    assert_eq!(b.function_types, vec![0]);
    assert_eq!(b.function_names, vec![(0, "foo".to_string())]);
    assert_eq!(b.instructions, expected_add_instructions());
    assert_eq!(b.labels, vec![("foo".to_string(), 0)]);
    assert_eq!(b.fp_offset, 0);
}

#[test]
fn exported_entry_label_is_the_export_name() {
    let bytes = add_module();
    let mut b = CasmBuilder::new();
    assert!(b.build_file(&bytes).is_ok());
    assert_eq!(b.labels, vec![("foo".to_string(), 0)]);
}

#[test]
fn unsupported_operator_in_bytes_is_skipped() {
    let bytes = add_module_with_nop();
    let mut b = CasmBuilder::new();
    let r = b.build_file(&bytes);
    assert!(r.is_ok());
    // The `nop` emits nothing and leaves the tracker alone: the output is
    // byte-for-byte the output of the module without it.
    assert_eq!(b.instructions, expected_add_instructions());
    assert_eq!(b.fp_offset, 0);
}

#[test]
fn translating_the_same_bytes_twice_is_identical() {
    let bytes = add_module();
    let mut b1 = CasmBuilder::new();
    let mut b2 = CasmBuilder::new();
    assert!(b1.build_file(&bytes).is_ok());
    assert!(b2.build_file(&bytes).is_ok());
    assert_eq!(b1.instructions, b2.instructions);
    assert_eq!(b1.labels, b2.labels);
    assert_eq!(b1.fp_offset, b2.fp_offset);
    assert_eq!(b1.types, b2.types);
    assert_eq!(b1.function_types, b2.function_types);
    assert_eq!(b1.function_names, b2.function_names);
}

#[test]
fn malformed_bytes_surface_the_parser_diagnostic() {
    let bytes = vec![0x00, 0x01, 0x02, 0x03];
    let mut b = CasmBuilder::new();
    let r = b.build_file(&bytes);
    assert!(matches!(r, Err(TranslateError::Parse(_))));
}

#[test]
fn empty_module_translates_to_nothing() {
    let bytes = vec![0x00, 0x61, 0x73, 0x6D, 0x01, 0x00, 0x00, 0x00];
    let mut b = CasmBuilder::new();
    assert!(b.build_file(&bytes).is_ok());
    assert!(b.instructions.is_empty());
    assert!(b.labels.is_empty());
}
