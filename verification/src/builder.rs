//! The translation engine.  A [`CasmBuilder`] accumulates the type and
//! symbol tables scanned from a module's sections, the emitted instruction
//! stream with its label table, and the frame-offset tracker, and translates
//! each function body in sequence.

use vstd::prelude::*;

use crate::data::{FuncSig, ModuleSection, SectionV, TranslateError, WasmOp, section_views};
use crate::instr::{CasmOp, Instr, InstrV, instr_views, lemma_views_push};
use crate::model::{
    DriverV, MAX_BODY_OPS, SymbolsV, binop_instr, body_code, call_instr, const_instr, entry_label,
    epilogue_code, get_instr, has_return_value, is_bad_call, lemma_ops_code_snoc, lookup_name,
    net_effect, op_code, op_delta, ops_code, param_count_of, reloc_instr,
    result_count_of, ret_instr, run_sections, section_step, set_instr,
};
use crate::names::make_fallback_label;
use crate::wasm::{parse_sections, parsed_of, sections_of_raw};

verus! {

/// Every sequence begins with itself.
proof fn lemma_prefix_refl<T>(a: Seq<T>)
    ensures
        a.is_prefix_of(a),
{
    assert(a.subrange(0, a.len() as int) =~= a);
}

/// What a sequence begins with stays in place when more is appended.
proof fn lemma_prefix_extend<T>(a: Seq<T>, b: Seq<T>, c: Seq<T>)
    requires
        a.is_prefix_of(b),
    ensures
        a.is_prefix_of(b + c),
{
    assert((b + c).subrange(0, a.len() as int) =~= b.subrange(0, a.len() as int));
}

/// Beginning a sequence that itself begins a third is beginning the third.
proof fn lemma_prefix_trans<T>(a: Seq<T>, b: Seq<T>, c: Seq<T>)
    requires
        a.is_prefix_of(b),
        b.is_prefix_of(c),
    ensures
        a.is_prefix_of(c),
{
    assert(c.subrange(0, a.len() as int) =~= c.subrange(0, b.len() as int).subrange(
        0,
        a.len() as int,
    ));
}

/// The symbol and type tables of two builder states coincide.
pub open spec fn same_tables(pre: CasmBuilder, post: CasmBuilder) -> bool {
    &&& post.function_names == pre.function_names
    &&& post.function_types == pre.function_types
    &&& post.types == pre.types
}

/// The translation engine's state.
pub struct CasmBuilder {
    /// The emitted instructions, in order: the sole output artifact.
    pub instructions: Vec<Instr>,
    /// Label table: symbolic name to instruction index.  A later entry
    /// overrides an earlier one of the same name.
    pub labels: Vec<(String, usize)>,
    /// The frame-offset tracker: the next free virtual-stack slot, relative
    /// to the current function's frame pointer.
    pub fp_offset: i64,
    /// Function index to declared (exported) name.
    pub function_names: Vec<(u32, String)>,
    /// Function index to type index, in declaration order.
    pub function_types: Vec<u32>,
    /// The declared function signatures, in type-section order.
    pub types: Vec<FuncSig>,
}

impl CasmBuilder {
    /// The symbol and type tables as mathematical values.
    pub open spec fn sym(self) -> SymbolsV {
        SymbolsV {
            types: self.types@,
            function_types: self.function_types@,
            names: self.function_names@.map_values(|p: (u32, String)| (p.0, p.1@)),
        }
    }

    /// The label table as a mathematical value.
    pub open spec fn labels_view(self) -> Seq<(Seq<char>, int)> {
        self.labels@.map_values(|p: (String, usize)| (p.0@, p.1 as int))
    }

    /// The emitted instruction stream as a mathematical value.
    pub open spec fn code_view(self) -> Seq<InstrV> {
        instr_views(self.instructions@)
    }

    /// The whole driver state, given the next function index to assign.
    pub open spec fn driver_view(self, next_index: int) -> DriverV {
        DriverV {
            sym: self.sym(),
            labels: self.labels_view(),
            code: self.code_view(),
            fp: self.fp_offset as int,
            next_index,
        }
    }

    /// A fresh builder: empty tables, an empty instruction stream, and the
    /// tracker at zero.
    pub fn new() -> (r: Self)
        ensures
            r.instructions@ == Seq::<Instr>::empty(),
            r.labels@ == Seq::<(String, usize)>::empty(),
            r.fp_offset == 0,
            r.function_names@ == Seq::<(u32, String)>::empty(),
            r.function_types@ == Seq::<u32>::empty(),
            r.types@ == Seq::<FuncSig>::empty(),
    {
        CasmBuilder {
            instructions: Vec::new(),
            labels: Vec::new(),
            fp_offset: 0,
            function_names: Vec::new(),
            function_types: Vec::new(),
            types: Vec::new(),
        }
    }

    /// Appends one instruction to the stream.
    pub fn push_instruction(&mut self, instruction: Instr)
        ensures
            final(self).instructions@ == old(self).instructions@.push(instruction),
            final(self).labels == old(self).labels,
            final(self).fp_offset == old(self).fp_offset,
            same_tables(*old(self), *final(self)),
    {
        self.instructions.push(instruction);
    }

    /// Records a label binding the name to the current end of the stream.
    pub fn push_label(&mut self, label: String)
        ensures
            final(self).labels@ == old(self).labels@.push(
                (label, old(self).instructions@.len() as usize),
            ),
            final(self).instructions == old(self).instructions,
            final(self).fp_offset == old(self).fp_offset,
            same_tables(*old(self), *final(self)),
    {
        let at = self.instructions.len();
        self.labels.push((label, at));
    }

    /// The resolved entry label of a function index: its exported name if
    /// one was declared, else the deterministic fallback `func_<index>`.
    pub fn resolve_name(&self, function_index: u32) -> (r: String)
        ensures
            r@ == entry_label(self.sym(), function_index),
    {
        let ghost nv = self.sym().names;
        let mut i: usize = self.function_names.len();
        proof {
            assert(nv.take(i as int) =~= nv);
        }
        while i > 0
            invariant
                i <= self.function_names@.len(),
                nv == self.sym().names,
                lookup_name(nv, function_index) == lookup_name(nv.take(i as int), function_index),
            decreases i,
        {
            i = i - 1;
            proof {
                assert(nv.take(i as int + 1).last() == nv[i as int]);
                assert(nv.take(i as int + 1).drop_last() =~= nv.take(i as int));
            }
            if self.function_names[i].0 == function_index {
                let r = self.function_names[i].1.clone();
                proof {
                    assert(nv[i as int].0 == function_index);
                    assert(lookup_name(nv.take(i as int + 1), function_index) == Some(
                        nv[i as int].1,
                    ));
                }
                return r;
            }
            proof {
                assert(nv[i as int].0 != function_index);
            }
        }
        proof {
            assert(nv.take(0) =~= Seq::<(u32, Seq<char>)>::empty());
        }
        make_fallback_label(function_index)
    }

    /// Translates a source `get`: copies the local's resolved slot to the
    /// new top-of-stack slot and pushes.
    pub fn local_get(&mut self, local_index: u32, param_count: u32)
        requires
            old(self).fp_offset < i64::MAX,
        ensures
            final(self).code_view() == old(self).code_view().push(
                get_instr(local_index, param_count as int, old(self).fp_offset as int),
            ),
            final(self).fp_offset == old(self).fp_offset + 1,
            final(self).labels == old(self).labels,
            same_tables(*old(self), *final(self)),
    {
        let casm_offset: i64 = if local_index < param_count {
            -4 - (local_index as i64)
        } else {
            (local_index as i64) - (param_count as i64)
        };
        let fp = self.fp_offset;
        let instr = Instr::new(CasmOp::StoreDerefFp).with_off0(casm_offset).with_off2(fp);
        proof {
            lemma_views_push(self.instructions@, instr);
            assert(instr@ =~= get_instr(local_index, param_count as int, fp as int));
        }
        self.push_instruction(instr);
        self.fp_offset = fp + 1;
    }

    /// Translates a source `set`: copies the top-of-stack slot into the
    /// local's resolved slot and pops.
    pub fn local_set(&mut self, local_index: u32, param_count: u32)
        requires
            old(self).fp_offset > i64::MIN,
        ensures
            final(self).code_view() == old(self).code_view().push(
                set_instr(local_index, param_count as int, old(self).fp_offset as int),
            ),
            final(self).fp_offset == old(self).fp_offset - 1,
            final(self).labels == old(self).labels,
            same_tables(*old(self), *final(self)),
    {
        let casm_offset: i64 = if local_index < param_count {
            -4 - (local_index as i64)
        } else {
            (local_index as i64) - (param_count as i64)
        };
        let fp = self.fp_offset;
        let instr = Instr::new(CasmOp::StoreDerefFp).with_off0(fp - 1).with_off2(casm_offset);
        proof {
            lemma_views_push(self.instructions@, instr);
            assert(instr@ =~= set_instr(local_index, param_count as int, fp as int));
        }
        self.push_instruction(instr);
        self.fp_offset = fp - 1;
    }

    /// Translates a source `tee`: updates the local as a `set` would, then
    /// restores the tracker as if the value were pushed back.
    pub fn local_tee(&mut self, local_index: u32, param_count: u32)
        requires
            old(self).fp_offset > i64::MIN,
        ensures
            final(self).code_view() == old(self).code_view().push(
                set_instr(local_index, param_count as int, old(self).fp_offset as int),
            ),
            final(self).fp_offset == old(self).fp_offset,
            final(self).labels == old(self).labels,
            same_tables(*old(self), *final(self)),
    {
        self.local_set(local_index, param_count);
        self.fp_offset = self.fp_offset + 1;
    }

    /// Translates a source `add`: combines the two topmost stack slots into
    /// the lower one and pops.
    pub fn i32_add(&mut self)
        requires
            old(self).fp_offset >= i64::MIN + 2,
        ensures
            final(self).code_view() == old(self).code_view().push(
                binop_instr(CasmOp::StoreAddFpFp, old(self).fp_offset as int),
            ),
            final(self).fp_offset == old(self).fp_offset - 1,
            final(self).labels == old(self).labels,
            same_tables(*old(self), *final(self)),
    {
        let fp = self.fp_offset;
        let instr = Instr::new(CasmOp::StoreAddFpFp).with_off0(fp - 2).with_off1(fp - 1).with_off2(
            fp - 2,
        );
        proof {
            lemma_views_push(self.instructions@, instr);
            assert(instr@ =~= binop_instr(CasmOp::StoreAddFpFp, fp as int));
        }
        self.push_instruction(instr);
        self.fp_offset = fp - 1;
    }

    /// Translates a source `sub`: combines the two topmost stack slots into
    /// the lower one and pops.
    pub fn i32_sub(&mut self)
        requires
            old(self).fp_offset >= i64::MIN + 2,
        ensures
            final(self).code_view() == old(self).code_view().push(
                binop_instr(CasmOp::StoreSubFpFp, old(self).fp_offset as int),
            ),
            final(self).fp_offset == old(self).fp_offset - 1,
            final(self).labels == old(self).labels,
            same_tables(*old(self), *final(self)),
    {
        let fp = self.fp_offset;
        let instr = Instr::new(CasmOp::StoreSubFpFp).with_off0(fp - 2).with_off1(fp - 1).with_off2(
            fp - 2,
        );
        proof {
            lemma_views_push(self.instructions@, instr);
            assert(instr@ =~= binop_instr(CasmOp::StoreSubFpFp, fp as int));
        }
        self.push_instruction(instr);
        self.fp_offset = fp - 1;
    }

    /// Translates a source `mul`: combines the two topmost stack slots into
    /// the lower one and pops.
    pub fn i32_mul(&mut self)
        requires
            old(self).fp_offset >= i64::MIN + 2,
        ensures
            final(self).code_view() == old(self).code_view().push(
                binop_instr(CasmOp::StoreMulFpFp, old(self).fp_offset as int),
            ),
            final(self).fp_offset == old(self).fp_offset - 1,
            final(self).labels == old(self).labels,
            same_tables(*old(self), *final(self)),
    {
        let fp = self.fp_offset;
        let instr = Instr::new(CasmOp::StoreMulFpFp).with_off0(fp - 2).with_off1(fp - 1).with_off2(
            fp - 2,
        );
        proof {
            lemma_views_push(self.instructions@, instr);
            assert(instr@ =~= binop_instr(CasmOp::StoreMulFpFp, fp as int));
        }
        self.push_instruction(instr);
        self.fp_offset = fp - 1;
    }

    /// Translates a source constant push: stores the immediate literal at
    /// the new top-of-stack slot.
    pub fn i32_const(&mut self, value: i32)
        requires
            old(self).fp_offset < i64::MAX,
        ensures
            final(self).code_view() == old(self).code_view().push(
                const_instr(value, old(self).fp_offset as int),
            ),
            final(self).fp_offset == old(self).fp_offset + 1,
            final(self).labels == old(self).labels,
            same_tables(*old(self), *final(self)),
    {
        let fp = self.fp_offset;
        let instr = Instr::new(CasmOp::StoreImm).with_off2(fp).with_imm(value);
        proof {
            lemma_views_push(self.instructions@, instr);
            assert(instr@ =~= const_instr(value, fp as int));
        }
        self.push_instruction(instr);
        self.fp_offset = fp + 1;
    }

    /// Translates a source `call`: emits a call instruction carrying the
    /// callee's resolved entry label, then advances the tracker by the
    /// callee's result count.  A callee declaring more than one result value
    /// is a fatal configuration error.
    pub fn call(&mut self, function_index: u32) -> (r: Result<(), TranslateError>)
        requires
            old(self).fp_offset < i64::MAX,
        ensures
            final(self).code_view() == old(self).code_view().push(
                call_instr(old(self).sym(), function_index),
            ),
            final(self).labels == old(self).labels,
            same_tables(*old(self), *final(self)),
            r is Ok <==> result_count_of(old(self).sym(), function_index) <= 1,
            r is Ok ==> final(self).fp_offset == old(self).fp_offset + result_count_of(
                old(self).sym(),
                function_index,
            ),
            r is Err ==> final(self).fp_offset == old(self).fp_offset,
            r is Err ==> r == Err::<(), TranslateError>(
                TranslateError::MultiResultCallee(function_index),
            ),
    {
        let label = self.resolve_name(function_index);
        let instr = Instr::new(CasmOp::CallAbsImm).with_label(label);
        proof {
            lemma_views_push(self.instructions@, instr);
            assert(instr@ =~= call_instr(self.sym(), function_index));
        }
        self.push_instruction(instr);
        let rc: u32 = if (function_index as usize) < self.function_types.len() {
            let ti = self.function_types[function_index as usize];
            if (ti as usize) < self.types.len() {
                self.types[ti as usize].result_count
            } else {
                0
            }
        } else {
            0
        };
        proof {
            assert(rc as int == result_count_of(self.sym(), function_index));
        }
        if rc > 1 {
            return Err(TranslateError::MultiResultCallee(function_index));
        }
        self.fp_offset = self.fp_offset + (rc as i64);
        Ok(())
    }

    /// Translates one function body: records its entry label at the current
    /// end of the stream, resolves the calling convention from the tables
    /// (out-of-range indices degrade to no parameters and no return value),
    /// initializes the tracker to the additional-local count, translates
    /// every operator in stream order, and emits the epilogue.
    pub fn generate_function(
        &mut self,
        function_name: String,
        ops: &Vec<WasmOp>,
        local_count: u32,
        function_index: u32,
    ) -> (r: Result<(), TranslateError>)
        requires
            ops@.len() as int <= MAX_BODY_OPS as int,
        ensures
            same_tables(*old(self), *final(self)),
            final(self).labels@ == old(self).labels@.push(
                (function_name, old(self).instructions@.len() as usize),
            ),
            old(self).code_view().is_prefix_of(final(self).code_view()),
            (r is Ok) <==> (forall|j: int|
                0 <= j < ops@.len() ==> !is_bad_call(old(self).sym(), #[trigger] ops@[j])),
            r is Ok ==> final(self).code_view() == old(self).code_view() + body_code(
                old(self).sym(),
                ops@,
                local_count,
                function_index,
            ),
            r is Ok ==> final(self).fp_offset as int == local_count as int + net_effect(
                old(self).sym(),
                ops@,
            ) - (if has_return_value(old(self).sym(), function_index) {
                1int
            } else {
                0int
            }),
            r is Err ==> (exists|j: int|
                0 <= j < ops@.len() && is_bad_call(old(self).sym(), #[trigger] ops@[j]) && (
                forall|k: int| 0 <= k < j ==> !is_bad_call(old(self).sym(), ops@[k]))
                    && (ops@[j] matches WasmOp::Call(f) && r == Err::<(), TranslateError>(
                    TranslateError::MultiResultCallee(f),
                )) && final(self).code_view() == old(self).code_view() + ops_code(
                    old(self).sym(),
                    ops@.take(j + 1),
                    local_count as int,
                    param_count_of(old(self).sym(), function_index),
                ) && final(self).fp_offset as int == local_count as int + net_effect(
                    old(self).sym(),
                    ops@.take(j),
                )),
    {
        let ghost s = old(self).sym();
        self.push_label(function_name);

        // Calling convention of this function's own signature, with the
        // defensive default for out-of-range indices.
        let (param_count, has_ret): (u32, bool) = if (function_index as usize)
            < self.function_types.len() {
            let ti = self.function_types[function_index as usize];
            if (ti as usize) < self.types.len() {
                let sig = self.types[ti as usize];
                (sig.param_count, sig.result_count > 0)
            } else {
                (0, false)
            }
        } else {
            (0, false)
        };
        let ghost pc = param_count_of(s, function_index);
        proof {
            assert(param_count as int == pc);
            assert(has_ret == has_return_value(s, function_index));
        }

        self.fp_offset = local_count as i64;

        let mut i: usize = 0;
        proof {
            assert(ops@.take(0) =~= Seq::<WasmOp>::empty());
        }
        while i < ops.len()
            invariant
                i <= ops@.len(),
                ops@.len() as int <= MAX_BODY_OPS as int,
                same_tables(*old(self), *self),
                s == self.sym(),
                pc == param_count_of(s, function_index),
                param_count as int == pc,
                self.labels@ == old(self).labels@.push(
                    (function_name, old(self).instructions@.len() as usize),
                ),
                self.code_view() == old(self).code_view() + ops_code(
                    s,
                    ops@.take(i as int),
                    local_count as int,
                    pc,
                ),
                self.fp_offset as int == local_count as int + net_effect(s, ops@.take(i as int)),
                local_count as int - i <= self.fp_offset as int <= local_count as int + i,
                forall|k: int| 0 <= k < i ==> !is_bad_call(s, #[trigger] ops@[k]),
            decreases ops@.len() - i,
        {
            let op = ops[i];
            let ghost pre_cv = self.code_view();
            let ghost pre_fp = self.fp_offset as int;
            proof {
                lemma_ops_code_snoc(s, ops@, i as int, local_count as int, pc);
            }
            match op {
                WasmOp::I32Add => self.i32_add(),
                WasmOp::I32Sub => self.i32_sub(),
                WasmOp::I32Mul => self.i32_mul(),
                WasmOp::I32Const(value) => self.i32_const(value),
                WasmOp::LocalGet(local_index) => self.local_get(local_index, param_count),
                WasmOp::LocalSet(local_index) => self.local_set(local_index, param_count),
                WasmOp::LocalTee(local_index) => self.local_tee(local_index, param_count),
                WasmOp::Call(callee) => {
                    match self.call(callee) {
                        Ok(()) => {},
                        Err(e) => {
                            proof {
                                let j = i as int;
                                assert(is_bad_call(s, ops@[j]));
                                assert(self.code_view() =~= old(self).code_view() + ops_code(
                                    s,
                                    ops@.take(j + 1),
                                    local_count as int,
                                    pc,
                                ));
                                lemma_prefix_refl(old(self).code_view());
                                lemma_prefix_extend(
                                    old(self).code_view(),
                                    old(self).code_view(),
                                    ops_code(s, ops@.take(j + 1), local_count as int, pc),
                                );
                            }
                            return Err(e);
                        },
                    }
                },
                WasmOp::End => {},
                WasmOp::Return => self.return_op(),
                WasmOp::Unsupported => {},
            }
            proof {
                assert(self.code_view() =~= pre_cv + op_code(s, ops@[i as int], pre_fp, pc));
                assert(self.fp_offset as int == pre_fp + op_delta(s, ops@[i as int]));
                assert(self.code_view() =~= old(self).code_view() + ops_code(
                    s,
                    ops@.take(i as int + 1),
                    local_count as int,
                    pc,
                ));
            }
            i = i + 1;
        }
        proof {
            assert(ops@.take(ops@.len() as int) =~= ops@);
        }

        let ghost end_fp = self.fp_offset as int;
        if has_ret {
            let fp = self.fp_offset;
            let instr = Instr::new(CasmOp::StoreDerefFp).with_off0(fp - 1).with_off2(-3);
            proof {
                lemma_views_push(self.instructions@, instr);
                assert(instr@ =~= reloc_instr(fp as int));
            }
            self.push_instruction(instr);
            self.fp_offset = fp - 1;
        }
        let ret_i = Instr::new(CasmOp::Ret);
        proof {
            lemma_views_push(self.instructions@, ret_i);
            assert(ret_i@ =~= ret_instr());
        }
        self.push_instruction(ret_i);
        proof {
            assert(self.code_view() =~= old(self).code_view() + (ops_code(
                s,
                ops@,
                local_count as int,
                pc,
            ) + epilogue_code(end_fp, has_ret)));
            assert(self.code_view() =~= old(self).code_view() + body_code(
                s,
                ops@,
                local_count,
                function_index,
            ));
            lemma_prefix_refl(old(self).code_view());
            lemma_prefix_extend(
                old(self).code_view(),
                old(self).code_view(),
                body_code(s, ops@, local_count, function_index),
            );
        }
        Ok(())
    }

    /// Drives the translation over a section stream in file order: scans
    /// type, function and export sections into the tables, and translates
    /// each code entry under the next sequential function index, starting at
    /// zero.
    pub fn build_module(&mut self, sections: &Vec<ModuleSection>) -> (r: Result<
        (),
        TranslateError,
    >)
        ensures
            (r is Ok) <==> (run_sections(old(self).driver_view(0), section_views(sections@))
                is Some),
            r is Ok ==> (run_sections(old(self).driver_view(0), section_views(sections@))
                matches Some(st) && final(self).driver_view(st.next_index) == st),
            r matches Err(e) ==> (e is MultiResultCallee || e is BodyTooLarge
                || e is TooManyFunctions),
            r is Err ==> (exists|k: int, st: DriverV|
                0 <= k < section_views(sections@).len() && #[trigger] run_sections(
                    st,
                    section_views(sections@).skip(k),
                ) == run_sections(old(self).driver_view(0), section_views(sections@))
                    && section_step(st, section_views(sections@)[k]) is None && final(self).sym()
                    == st.sym),
            old(self).code_view().is_prefix_of(final(self).code_view()),
            old(self).labels_view().is_prefix_of(final(self).labels_view()),
    {
        let ghost svs = section_views(sections@);
        let mut function_index: u64 = 0;
        let mut si: usize = 0;
        proof {
            assert(svs.skip(0) =~= svs);
        }
        proof {
            assert(self.code_view().subrange(0, self.code_view().len() as int) =~= self.code_view());
            assert(self.labels_view().subrange(0, self.labels_view().len() as int)
                =~= self.labels_view());
        }
        while si < sections.len()
            invariant
                si <= sections@.len(),
                svs == section_views(sections@),
                function_index <= 0x1_0000_0000u64,
                run_sections(old(self).driver_view(0), svs) == run_sections(
                    self.driver_view(function_index as int),
                    svs.skip(si as int),
                ),
                old(self).code_view().is_prefix_of(self.code_view()),
                old(self).labels_view().is_prefix_of(self.labels_view()),
            decreases sections@.len() - si,
        {
            let ghost pre = *self;
            let ghost pre_dv = self.driver_view(function_index as int);
            proof {
                assert(svs.skip(si as int).drop_first() =~= svs.skip(si as int + 1));
                assert(svs.skip(si as int)[0] == svs[si as int]);
                assert(svs[si as int] == sections@[si as int]@);
            }
            match &sections[si] {
                ModuleSection::Types(ts) => {
                    let mut j: usize = 0;
                    proof {
                        assert(ts@.take(0) =~= Seq::<FuncSig>::empty());
                        assert(pre.types@ + ts@.take(0) =~= pre.types@);
                    }
                    while j < ts.len()
                        invariant
                            j <= ts@.len(),
                            self.types@ == pre.types@ + ts@.take(j as int),
                            self.function_types == pre.function_types,
                            self.function_names == pre.function_names,
                            self.labels == pre.labels,
                            self.instructions == pre.instructions,
                            self.fp_offset == pre.fp_offset,
                        decreases ts@.len() - j,
                    {
                        let sig = ts[j];
                        self.types.push(sig);
                        proof {
                            assert(pre.types@ + ts@.take(j as int + 1) =~= (pre.types@ + ts@.take(
                                j as int,
                            )).push(ts@[j as int]));
                        }
                        j = j + 1;
                    }
                    proof {
                        assert(ts@.take(ts@.len() as int) =~= ts@);
                        let stepped = section_step(pre_dv, svs[si as int]);
                        assert(stepped matches Some(st) && st =~~= self.driver_view(
                            function_index as int,
                        ));
                    }
                },
                ModuleSection::Functions(fs) => {
                    let mut j: usize = 0;
                    proof {
                        assert(fs@.take(0) =~= Seq::<u32>::empty());
                        assert(pre.function_types@ + fs@.take(0) =~= pre.function_types@);
                    }
                    while j < fs.len()
                        invariant
                            j <= fs@.len(),
                            self.function_types@ == pre.function_types@ + fs@.take(j as int),
                            self.types == pre.types,
                            self.function_names == pre.function_names,
                            self.labels == pre.labels,
                            self.instructions == pre.instructions,
                            self.fp_offset == pre.fp_offset,
                        decreases fs@.len() - j,
                    {
                        let ti = fs[j];
                        self.function_types.push(ti);
                        proof {
                            assert(pre.function_types@ + fs@.take(j as int + 1) =~= (
                            pre.function_types@ + fs@.take(j as int)).push(fs@[j as int]));
                        }
                        j = j + 1;
                    }
                    proof {
                        assert(fs@.take(fs@.len() as int) =~= fs@);
                        let stepped = section_step(pre_dv, svs[si as int]);
                        assert(stepped matches Some(st) && st =~~= self.driver_view(
                            function_index as int,
                        ));
                    }
                },
                ModuleSection::Exports(es) => {
                    let mut j: usize = 0;
                    proof {
                        assert(es@.take(0) =~= Seq::<(u32, String)>::empty());
                        assert(pre.function_names@ + es@.take(0) =~= pre.function_names@);
                    }
                    while j < es.len()
                        invariant
                            j <= es@.len(),
                            self.function_names@ == pre.function_names@ + es@.take(j as int),
                            self.types == pre.types,
                            self.function_types == pre.function_types,
                            self.labels == pre.labels,
                            self.instructions == pre.instructions,
                            self.fp_offset == pre.fp_offset,
                        decreases es@.len() - j,
                    {
                        let index = es[j].0;
                        let name = es[j].1.clone();
                        self.function_names.push((index, name));
                        proof {
                            assert((index, name) == es@[j as int]);
                            assert(pre.function_names@ + es@.take(j as int + 1) =~= (
                            pre.function_names@ + es@.take(j as int)).push(es@[j as int]));
                        }
                        j = j + 1;
                    }
                    proof {
                        assert(es@.take(es@.len() as int) =~= es@);
                        assert(self.sym().names =~= pre.sym().names + es@.map_values(
                            |p: (u32, String)| (p.0, p.1@),
                        ));
                        let stepped = section_step(pre_dv, svs[si as int]);
                        assert(stepped matches Some(st) && st =~~= self.driver_view(
                            function_index as int,
                        ));
                    }
                },
                ModuleSection::Code(fc) => {
                    if function_index > 0xffff_ffffu64 {
                        proof {
                            assert(section_step(pre_dv, svs[si as int]) is None);
                            assert(self.sym() =~~= pre_dv.sym);
                            assert(exists|k: int, st: DriverV|
                                0 <= k < section_views(sections@).len() && #[trigger] run_sections(
                                    st,
                                    section_views(sections@).skip(k),
                                ) == run_sections(
                                    old(self).driver_view(0),
                                    section_views(sections@),
                                ) && section_step(st, section_views(sections@)[k]) is None
                                    && self.sym() == st.sym) by {
                                assert(run_sections(
                                    pre_dv,
                                    section_views(sections@).skip(si as int),
                                ) == run_sections(
                                    old(self).driver_view(0),
                                    section_views(sections@),
                                ));
                                assert(section_step(
                                    pre_dv,
                                    section_views(sections@)[si as int],
                                ) is None);
                            }
                        }
                        return Err(TranslateError::TooManyFunctions);
                    }
                    if fc.ops.len() as u64 > MAX_BODY_OPS {
                        proof {
                            assert(section_step(pre_dv, svs[si as int]) is None);
                            assert(self.sym() =~~= pre_dv.sym);
                            assert(exists|k: int, st: DriverV|
                                0 <= k < section_views(sections@).len() && #[trigger] run_sections(
                                    st,
                                    section_views(sections@).skip(k),
                                ) == run_sections(
                                    old(self).driver_view(0),
                                    section_views(sections@),
                                ) && section_step(st, section_views(sections@)[k]) is None
                                    && self.sym() == st.sym) by {
                                assert(run_sections(
                                    pre_dv,
                                    section_views(sections@).skip(si as int),
                                ) == run_sections(
                                    old(self).driver_view(0),
                                    section_views(sections@),
                                ));
                                assert(section_step(
                                    pre_dv,
                                    section_views(sections@)[si as int],
                                ) is None);
                            }
                        }
                        return Err(TranslateError::BodyTooLarge);
                    }
                    let idx = function_index as u32;
                    let name = self.resolve_name(idx);
                    match self.generate_function(name, &fc.ops, fc.local_count, idx) {
                        Ok(()) => {},
                        Err(e) => {
                            proof {
                                assert(section_step(pre_dv, svs[si as int]) is None);
                            assert(self.sym() =~~= pre_dv.sym);
                            assert(exists|k: int, st: DriverV|
                                0 <= k < section_views(sections@).len() && #[trigger] run_sections(
                                    st,
                                    section_views(sections@).skip(k),
                                ) == run_sections(
                                    old(self).driver_view(0),
                                    section_views(sections@),
                                ) && section_step(st, section_views(sections@)[k]) is None
                                    && self.sym() == st.sym) by {
                                assert(run_sections(
                                    pre_dv,
                                    section_views(sections@).skip(si as int),
                                ) == run_sections(
                                    old(self).driver_view(0),
                                    section_views(sections@),
                                ));
                                assert(section_step(
                                    pre_dv,
                                    section_views(sections@)[si as int],
                                ) is None);
                            }
                                lemma_prefix_trans(
                                    old(self).code_view(),
                                    pre.code_view(),
                                    self.code_view(),
                                );
                                let lx = (name@, (pre.instructions@.len() as usize) as int);
                                assert(self.labels_view() =~= pre.labels_view().push(lx));
                                assert(pre.labels_view().push(lx) =~= pre.labels_view() + seq![lx]);
                                lemma_prefix_refl(pre.labels_view());
                                lemma_prefix_extend(pre.labels_view(), pre.labels_view(), seq![lx]);
                                lemma_prefix_trans(
                                    old(self).labels_view(),
                                    pre.labels_view(),
                                    self.labels_view(),
                                );
                            }
                            return Err(e);
                        },
                    }
                    proof {
                        lemma_prefix_trans(old(self).code_view(), pre.code_view(), self.code_view());
                        let lx = (name@, (pre.instructions@.len() as usize) as int);
                        assert(self.labels_view() =~= pre.labels_view().push(lx));
                        assert(pre.labels_view().push(lx) =~= pre.labels_view() + seq![lx]);
                        lemma_prefix_refl(pre.labels_view());
                        lemma_prefix_extend(pre.labels_view(), pre.labels_view(), seq![lx]);
                        lemma_prefix_trans(
                            old(self).labels_view(),
                            pre.labels_view(),
                            self.labels_view(),
                        );
                        assert(pre.instructions.len() == pre.instructions@.len());
                        assert(name@ == entry_label(pre.sym(), idx));
                        assert(self.labels@ == pre.labels@.push(
                            (name, pre.instructions@.len() as usize),
                        ));
                        assert(pre.code_view().len() == pre.instructions@.len());
                        assert(self.labels_view() =~= pre.labels_view().push(
                            (entry_label(pre.sym(), idx), pre.code_view().len() as int),
                        ));
                        let stepped = section_step(pre_dv, svs[si as int]);
                        assert(stepped matches Some(st) && st =~~= self.driver_view(
                            function_index as int + 1,
                        ));
                    }
                    function_index = function_index + 1;
                },
            }
            si = si + 1;
        }
        proof {
            assert(svs.skip(svs.len() as int) =~= Seq::<SectionV>::empty());
        }
        Ok(())
    }

    /// Translates a whole module from its raw bytes: parses the sections,
    /// then drives the translation over them in file order.  Succeeds exactly
    /// when the bytes parse and every code entry translates; a malformed
    /// module surfaces the parser's diagnostic unchanged and leaves the
    /// builder untouched.
    pub fn build_file(&mut self, wasm_file: &[u8]) -> (r: Result<(), TranslateError>)
        ensures
            (r is Ok) <==> (parsed_of(wasm_file@) matches Ok(rs) && run_sections(
                old(self).driver_view(0),
                sections_of_raw(rs),
            ) is Some),
            r is Ok ==> (parsed_of(wasm_file@) matches Ok(rs) && run_sections(
                old(self).driver_view(0),
                sections_of_raw(rs),
            ) matches Some(st) && final(self).driver_view(st.next_index) == st),
            parsed_of(wasm_file@) matches Err(m) ==> (r matches Err(e) && e
                matches TranslateError::Parse(d) && d@ == m && *final(self) == *old(self)),
            (parsed_of(wasm_file@) is Ok && r is Err) ==> (r matches Err(e) && (e
                is MultiResultCallee || e is BodyTooLarge || e is TooManyFunctions)),
            old(self).code_view().is_prefix_of(final(self).code_view()),
            old(self).labels_view().is_prefix_of(final(self).labels_view()),
    {
        let sections = match parse_sections(wasm_file) {
            Ok(s) => s,
            Err(e) => {
                proof {
                    lemma_prefix_refl(self.code_view());
                    lemma_prefix_refl(self.labels_view());
                }
                return Err(e);
            },
        };
        let r = self.build_module(&sections);
        proof {
            assert(parsed_of(wasm_file@) matches Ok(rs) && section_views(sections@)
                == sections_of_raw(rs));
        }
        r
    }

    /// Translates an explicit source `return`: moves the value at the
    /// top-of-stack slot into the fixed return slot at frame offset `-3`,
    /// pops it, then emits the unconditional return instruction.
    pub fn return_op(&mut self)
        requires
            old(self).fp_offset > i64::MIN,
        ensures
            final(self).code_view() == old(self).code_view().push(
                reloc_instr(old(self).fp_offset as int),
            ).push(ret_instr()),
            final(self).fp_offset == old(self).fp_offset - 1,
            final(self).labels == old(self).labels,
            same_tables(*old(self), *final(self)),
    {
        let fp = self.fp_offset;
        let move_instr = Instr::new(CasmOp::StoreDerefFp).with_off0(fp - 1).with_off2(-3);
        proof {
            lemma_views_push(self.instructions@, move_instr);
            assert(move_instr@ =~= reloc_instr(fp as int));
        }
        self.push_instruction(move_instr);
        let ret_i = Instr::new(CasmOp::Ret);
        proof {
            lemma_views_push(self.instructions@, ret_i);
            assert(ret_i@ =~= ret_instr());
        }
        self.push_instruction(ret_i);
        self.fp_offset = fp - 1;
    }
}

} // verus!
