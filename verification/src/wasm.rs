//! The boundary to the outside module parser.  The trusted items below rely
//! on the `wasmparser` crate to split raw module bytes into sections and to
//! decode each section's entries into the library's plain raw-section model.
//! The parse is a function of the bytes alone, so its result is given a name,
//! `parsed_of`; the verified code here then keeps the function types and the
//! function exports and assembles the section stream the translation driver
//! consumes, with a contract stated over that name.

use vstd::prelude::*;

use crate::data::{
    ExportEntry, ExportEntryV, FuncSig, FunctionCode, ModuleSection, RawSection, RawSectionV,
    SectionV, TranslateError, WasmOp, export_views, name_pair_views, raw_section_views,
    section_views,
};

verus! {

#[verifier::external_type_specification]
#[verifier::external_body]
pub struct ExPayload<'a>(wasmparser::Payload<'a>);

#[verifier::external_type_specification]
#[verifier::external_body]
#[verifier::reject_recursive_types(T)]
pub struct ExSectionLimited<'a, T>(wasmparser::SectionLimited<'a, T>);

#[verifier::external_type_specification]
#[verifier::external_body]
pub struct ExRecGroup(wasmparser::RecGroup);

#[verifier::external_type_specification]
#[verifier::external_body]
pub struct ExExport<'a>(wasmparser::Export<'a>);

#[verifier::external_type_specification]
#[verifier::external_body]
pub struct ExFunctionBody<'a>(wasmparser::FunctionBody<'a>);

#[verifier::external_type_specification]
#[verifier::external_body]
pub struct ExOperator<'a>(wasmparser::Operator<'a>);

/// The raw sections that the outside parser yields for a byte sequence, in
/// file order, or the parser's diagnostic for malformed bytes.  The parse is
/// deterministic — a function of the bytes alone — so this name stands for
/// its result; `parse_raw_sections` is the one item trusted to return it.
pub uninterp spec fn parsed_of(bytes: Seq<u8>) -> Result<Seq<RawSectionV>, Seq<char>>;

/// Relies on the type-section reader: yields each declared type, giving the
/// arity of function types and `None` for other composite types.
#[verifier::external_body]
fn type_entries(r: wasmparser::TypeSectionReader<'_>) -> (res: Result<
    Vec<Option<FuncSig>>,
    TranslateError,
>) {
    let mut v = Vec::new();
    for g in r {
        for t in g.map_err(|e| TranslateError::Parse(e.to_string()))?.into_types() {
            v.push(match &t.composite_type.inner {
                wasmparser::CompositeInnerType::Func(f) => Some(FuncSig {
                    param_count: f.params().len() as u32,
                    result_count: f.results().len() as u32,
                }),
                _ => None,
            });
        }
    }
    Ok(v)
}

/// Relies on the function-section reader: yields each function's type index,
/// in declaration order.
#[verifier::external_body]
fn func_entries(r: wasmparser::FunctionSectionReader<'_>) -> (res: Result<
    Vec<u32>,
    TranslateError,
>) {
    r.into_iter().collect::<Result<Vec<u32>, _>>().map_err(
        |e| TranslateError::Parse(e.to_string()),
    )
}

/// Relies on the export-section reader: yields each export's index, name and
/// whether its kind is a function export.
#[verifier::external_body]
fn export_entries(r: wasmparser::ExportSectionReader<'_>) -> (res: Result<
    Vec<ExportEntry>,
    TranslateError,
>) {
    let mut v = Vec::new();
    for e in r {
        let e = e.map_err(|e| TranslateError::Parse(e.to_string()))?;
        v.push(ExportEntry {
            index: e.index,
            name: e.name.to_string(),
            is_func: matches!(e.kind, wasmparser::ExternalKind::Func),
        });
    }
    Ok(v)
}

/// Relies on `FunctionBody::get_locals_reader`: the count of local
/// declarations in the body.
#[verifier::external_body]
fn body_local_count(b: &wasmparser::FunctionBody<'_>) -> (res: Result<u32, TranslateError>) {
    match b.get_locals_reader() {
        Ok(r) => Ok(r.get_count()),
        Err(e) => Err(TranslateError::Parse(e.to_string())),
    }
}

/// Relies on `wasmparser::Operator`: tells the supported operators apart,
/// moving their fields; everything else is carried as unsupported.
#[verifier::external_body]
fn wasm_op_of(op: &wasmparser::Operator<'_>) -> (w: WasmOp) {
    match op {
        wasmparser::Operator::I32Add => WasmOp::I32Add,
        wasmparser::Operator::I32Sub => WasmOp::I32Sub,
        wasmparser::Operator::I32Mul => WasmOp::I32Mul,
        wasmparser::Operator::I32Const { value } => WasmOp::I32Const(*value),
        wasmparser::Operator::LocalGet { local_index } => WasmOp::LocalGet(*local_index),
        wasmparser::Operator::LocalSet { local_index } => WasmOp::LocalSet(*local_index),
        wasmparser::Operator::LocalTee { local_index } => WasmOp::LocalTee(*local_index),
        wasmparser::Operator::Call { function_index } => WasmOp::Call(*function_index),
        wasmparser::Operator::End => WasmOp::End,
        wasmparser::Operator::Return => WasmOp::Return,
        _ => WasmOp::Unsupported,
    }
}

/// Relies on `FunctionBody::get_operators_reader`: decodes the body's
/// operator stream, in order, each operator told apart by `wasm_op_of`.
#[verifier::external_body]
fn raw_ops(b: &wasmparser::FunctionBody<'_>) -> (res: Result<Vec<WasmOp>, TranslateError>) {
    let mut v = Vec::new();
    for op in b.get_operators_reader().map_err(|e| TranslateError::Parse(e.to_string()))? {
        v.push(wasm_op_of(&op.map_err(|e| TranslateError::Parse(e.to_string()))?));
    }
    Ok(v)
}

/// Relies on `wasmparser::Payload`: tells the section kinds apart and
/// decodes each through the readers above, moving fields only; payloads of
/// any other kind yield nothing.
#[verifier::external_body]
fn raw_of_payload(p: wasmparser::Payload<'_>) -> (r: Result<Option<RawSection>, TranslateError>) {
    match p {
        wasmparser::Payload::TypeSection(r) => Ok(Some(RawSection::Types(type_entries(r)?))),
        wasmparser::Payload::FunctionSection(r) => Ok(Some(RawSection::Functions(func_entries(r)?))),
        wasmparser::Payload::ExportSection(r) => Ok(Some(RawSection::Exports(export_entries(r)?))),
        wasmparser::Payload::CodeSectionEntry(b) => Ok(Some(RawSection::Code(FunctionCode {
            local_count: body_local_count(&b)?,
            ops: raw_ops(&b)?,
        }))),
        _ => Ok(None),
    }
}

/// Relies on `wasmparser::Parser::parse_all` and the readers above: the raw
/// sections of the module bytes, in file order — the value that `parsed_of`
/// names — or the first diagnostic for malformed bytes.
#[verifier::external_body]
fn parse_raw_sections(data: &[u8]) -> (r: Result<Vec<RawSection>, TranslateError>)
    ensures
        r matches Ok(v) ==> (parsed_of(data@) matches Ok(s) && raw_section_views(v@) == s),
        r matches Err(e) ==> (parsed_of(data@) matches Err(m) && e matches TranslateError::Parse(d)
            && d@ == m),
{
    let mut out = Vec::new();
    for p in wasmparser::Parser::new(0).parse_all(data) {
        let payload = p.map_err(|e| TranslateError::Parse(e.to_string()))?;
        if let Some(s) = raw_of_payload(payload)? {
            out.push(s);
        }
    }
    Ok(out)
}

/// The function signatures among a type section's entries, in order.
pub open spec fn present_sigs(s: Seq<Option<FuncSig>>) -> Seq<FuncSig>
    decreases s.len(),
{
    if s.len() == 0 {
        seq![]
    } else {
        match s[0] {
            Some(f) => seq![f] + present_sigs(s.drop_first()),
            None => present_sigs(s.drop_first()),
        }
    }
}

/// The `(index, name)` pairs of the function exports among a section's
/// entries, in order.
pub open spec fn func_export_pairs(s: Seq<ExportEntryV>) -> Seq<(u32, Seq<char>)>
    decreases s.len(),
{
    if s.len() == 0 {
        seq![]
    } else if s[0].is_func {
        seq![(s[0].index, s[0].name)] + func_export_pairs(s.drop_first())
    } else {
        func_export_pairs(s.drop_first())
    }
}

/// What one raw section contributes to the driver's section stream: the
/// function signatures of a type section, the function exports of an export
/// section, and everything else unchanged.
pub open spec fn section_of_raw(r: RawSectionV) -> SectionV {
    match r {
        RawSectionV::Types(ts) => SectionV::Types(present_sigs(ts)),
        RawSectionV::Functions(fs) => SectionV::Functions(fs),
        RawSectionV::Exports(es) => SectionV::Exports(func_export_pairs(es)),
        RawSectionV::Code(local_count, ops) => SectionV::Code(local_count, ops),
    }
}

/// The driver's section stream for a whole raw section stream.
pub open spec fn sections_of_raw(rs: Seq<RawSectionV>) -> Seq<SectionV> {
    rs.map_values(|r: RawSectionV| section_of_raw(r))
}

/// Keeps the function signatures among a type section's entries.
fn flatten_func_types(entries: &Vec<Option<FuncSig>>) -> (r: Vec<FuncSig>)
    ensures
        r@ == present_sigs(entries@),
{
    let mut out: Vec<FuncSig> = Vec::new();
    let mut i: usize = 0;
    proof {
        assert(entries@.skip(0) =~= entries@);
        assert(out@ + present_sigs(entries@) =~= present_sigs(entries@));
    }
    while i < entries.len()
        invariant
            i <= entries@.len(),
            out@ + present_sigs(entries@.skip(i as int)) == present_sigs(entries@),
        decreases entries@.len() - i,
    {
        proof {
            assert(entries@.skip(i as int).drop_first() =~= entries@.skip(i as int + 1));
            assert(entries@.skip(i as int)[0] == entries@[i as int]);
        }
        match entries[i] {
            Some(sig) => {
                out.push(sig);
            },
            None => {},
        }
        proof {
            assert(out@ + present_sigs(entries@.skip(i as int + 1)) =~= present_sigs(entries@));
        }
        i = i + 1;
    }
    proof {
        assert(entries@.skip(entries@.len() as int) =~= Seq::<Option<FuncSig>>::empty());
        assert(out@ + present_sigs(entries@.skip(entries@.len() as int)) =~= out@);
    }
    out
}

/// Keeps the function exports among a section's entries.
fn func_exports(entries: &Vec<ExportEntry>) -> (r: Vec<(u32, String)>)
    ensures
        name_pair_views(r@) == func_export_pairs(export_views(entries@)),
{
    let ghost ev = export_views(entries@);
    let mut out: Vec<(u32, String)> = Vec::new();
    let mut i: usize = 0;
    proof {
        assert(ev.skip(0) =~= ev);
        assert(name_pair_views(out@) + func_export_pairs(ev) =~= func_export_pairs(ev));
    }
    while i < entries.len()
        invariant
            i <= entries@.len(),
            ev == export_views(entries@),
            name_pair_views(out@) + func_export_pairs(ev.skip(i as int)) == func_export_pairs(ev),
        decreases entries@.len() - i,
    {
        proof {
            assert(ev.skip(i as int).drop_first() =~= ev.skip(i as int + 1));
            assert(ev.skip(i as int)[0] == ev[i as int]);
            assert(ev[i as int] == entries@[i as int]@);
        }
        if entries[i].is_func {
            let index = entries[i].index;
            let name = entries[i].name.clone();
            out.push((index, name));
        }
        proof {
            assert(name_pair_views(out@) + func_export_pairs(ev.skip(i as int + 1))
                =~= func_export_pairs(ev));
        }
        i = i + 1;
    }
    proof {
        assert(ev.skip(ev.len() as int) =~= Seq::<ExportEntryV>::empty());
        assert(name_pair_views(out@) + func_export_pairs(ev.skip(ev.len() as int)) =~= name_pair_views(
            out@,
        ));
    }
    out
}

/// A copy of an operator stream.
fn clone_ops(ops: &Vec<WasmOp>) -> (r: Vec<WasmOp>)
    ensures
        r@ == ops@,
{
    let mut out: Vec<WasmOp> = Vec::new();
    let mut i: usize = 0;
    while i < ops.len()
        invariant
            i <= ops@.len(),
            out@ == ops@.take(i as int),
        decreases ops@.len() - i,
    {
        out.push(ops[i]);
        proof {
            assert(ops@.take(i as int + 1) =~= ops@.take(i as int).push(ops@[i as int]));
        }
        i = i + 1;
    }
    proof {
        assert(ops@.take(ops@.len() as int) =~= ops@);
    }
    out
}

/// A copy of a function section's type indices.
fn clone_indices(v: &Vec<u32>) -> (r: Vec<u32>)
    ensures
        r@ == v@,
{
    let mut out: Vec<u32> = Vec::new();
    let mut i: usize = 0;
    while i < v.len()
        invariant
            i <= v@.len(),
            out@ == v@.take(i as int),
        decreases v@.len() - i,
    {
        out.push(v[i]);
        proof {
            assert(v@.take(i as int + 1) =~= v@.take(i as int).push(v@[i as int]));
        }
        i = i + 1;
    }
    proof {
        assert(v@.take(v@.len() as int) =~= v@);
    }
    out
}

/// Parses raw module bytes into the plain section stream the translation
/// driver consumes, in file order: the parser's raw sections, with only the
/// function signatures of each type section and only the function exports of
/// each export section kept.  Fails exactly when the parse fails, surfacing
/// the parser's diagnostic unchanged.
pub(crate) fn parse_sections(data: &[u8]) -> (r: Result<Vec<ModuleSection>, TranslateError>)
    ensures
        r matches Ok(v) ==> (parsed_of(data@) matches Ok(rs) && section_views(v@)
            == sections_of_raw(rs)),
        r matches Err(e) ==> (parsed_of(data@) matches Err(m) && e matches TranslateError::Parse(d)
            && d@ == m),
{
    let raws = match parse_raw_sections(data) {
        Ok(v) => v,
        Err(e) => {
            return Err(e);
        },
    };
    let ghost rv = raw_section_views(raws@);
    let mut out: Vec<ModuleSection> = Vec::new();
    let mut i: usize = 0;
    proof {
        assert(section_views(out@) =~= sections_of_raw(rv.take(0)));
    }
    while i < raws.len()
        invariant
            i <= raws@.len(),
            rv == raw_section_views(raws@),
            section_views(out@) == sections_of_raw(rv.take(i as int)),
        decreases raws@.len() - i,
    {
        proof {
            assert(rv[i as int] == raws@[i as int]@);
        }
        let sec: ModuleSection = match &raws[i] {
            RawSection::Types(ts) => ModuleSection::Types(flatten_func_types(ts)),
            RawSection::Functions(fs) => ModuleSection::Functions(clone_indices(fs)),
            RawSection::Exports(es) => ModuleSection::Exports(func_exports(es)),
            RawSection::Code(fc) => ModuleSection::Code(
                FunctionCode { local_count: fc.local_count, ops: clone_ops(&fc.ops) },
            ),
        };
        proof {
            assert(sec@ =~~= section_of_raw(rv[i as int]));
        }
        let ghost prior = out@;
        out.push(sec);
        proof {
            assert(section_views(prior).len() == prior.len());
            assert(sections_of_raw(rv.take(i as int)).len() == rv.take(i as int).len());
            assert(prior.len() == i as int);
            assert(out@ == prior.push(sec));
            assert forall|k: int| 0 <= k < out@.len() implies section_views(out@)[k]
                == sections_of_raw(rv.take(i as int + 1))[k] by {
                if k < i as int {
                    assert(section_views(prior)[k] == sections_of_raw(rv.take(i as int))[k]);
                    assert(out@[k] == prior[k]);
                    assert(rv.take(i as int + 1)[k] == rv.take(i as int)[k]);
                } else {
                    assert(out@[k] == prior.push(sec)[k]);
                    assert(rv.take(i as int + 1)[k] == rv[i as int]);
                }
            }
            assert(section_views(out@) =~= sections_of_raw(rv.take(i as int + 1)));
        }
        i = i + 1;
    }
    proof {
        assert(rv.take(rv.len() as int) =~= rv);
    }
    Ok(out)
}

} // verus!
