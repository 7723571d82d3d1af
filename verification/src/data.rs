//! The plain data model of a parsed module: function signatures, the
//! supported source operators, export entries, per-function code, and the
//! section stream the translation driver consumes.

use vstd::prelude::*;

verus! {

/// The arity of a function signature: how many parameters it declares and
/// how many result values it returns.
#[derive(Clone, Copy, Debug, PartialEq, Eq)]
pub struct FuncSig {
    pub param_count: u32,
    pub result_count: u32,
}

/// The source operators the translator understands.  Anything outside this
/// subset is carried as [`WasmOp::Unsupported`] and silently skipped.
#[derive(Clone, Copy, Debug, PartialEq, Eq)]
pub enum WasmOp {
    I32Add,
    I32Sub,
    I32Mul,
    I32Const(i32),
    LocalGet(u32),
    LocalSet(u32),
    LocalTee(u32),
    Call(u32),
    End,
    Return,
    Unsupported,
}

/// One entry of a module's export section.
#[derive(Clone, Debug, PartialEq, Eq)]
pub struct ExportEntry {
    pub index: u32,
    pub name: String,
    pub is_func: bool,
}

/// Mathematical image of an export entry.
#[verifier::ext_equal]
pub struct ExportEntryV {
    pub index: u32,
    pub name: Seq<char>,
    pub is_func: bool,
}

impl View for ExportEntry {
    type V = ExportEntryV;

    open spec fn view(&self) -> ExportEntryV {
        ExportEntryV { index: self.index, name: self.name@, is_func: self.is_func }
    }
}

/// The image of a whole export section.
pub open spec fn export_views(s: Seq<ExportEntry>) -> Seq<ExportEntryV> {
    s.map_values(|e: ExportEntry| e@)
}

/// The image of a sequence of `(function index, name)` pairs.
pub open spec fn name_pair_views(s: Seq<(u32, String)>) -> Seq<(u32, Seq<char>)> {
    s.map_values(|p: (u32, String)| (p.0, p.1@))
}

/// One code-section entry: the declared additional-local count and the
/// function's operator stream.
#[derive(Clone, Debug, PartialEq, Eq)]
pub struct FunctionCode {
    pub local_count: u32,
    pub ops: Vec<WasmOp>,
}

/// A module section exactly as the parser hands it over, in file order,
/// before the library keeps the function types and the function exports:
/// the raw image that the name for the parse result speaks of.
#[derive(Clone, Debug, PartialEq, Eq)]
pub enum RawSection {
    /// Every declared type: the arity of a function type, `None` for any
    /// other composite type.
    Types(Vec<Option<FuncSig>>),
    /// The type index of each function, in declaration order.
    Functions(Vec<u32>),
    /// Every export entry, of any kind.
    Exports(Vec<ExportEntry>),
    /// One function body.
    Code(FunctionCode),
}

/// Mathematical image of a raw module section.
#[verifier::ext_equal]
pub enum RawSectionV {
    Types(Seq<Option<FuncSig>>),
    Functions(Seq<u32>),
    Exports(Seq<ExportEntryV>),
    Code(u32, Seq<WasmOp>),
}

impl View for RawSection {
    type V = RawSectionV;

    open spec fn view(&self) -> RawSectionV {
        match self {
            RawSection::Types(v) => RawSectionV::Types(v@),
            RawSection::Functions(v) => RawSectionV::Functions(v@),
            RawSection::Exports(v) => RawSectionV::Exports(export_views(v@)),
            RawSection::Code(c) => RawSectionV::Code(c.local_count, c.ops@),
        }
    }
}

/// The image of a whole raw section stream.
pub open spec fn raw_section_views(s: Seq<RawSection>) -> Seq<RawSectionV> {
    s.map_values(|m: RawSection| m@)
}

/// A module section, in file order, as the translation driver sees it.
#[derive(Clone, Debug, PartialEq, Eq)]
pub enum ModuleSection {
    /// The declared function signatures, in section order.
    Types(Vec<FuncSig>),
    /// The type index of each function, in declaration order.
    Functions(Vec<u32>),
    /// The exported function names: `(function index, name)` pairs.
    Exports(Vec<(u32, String)>),
    /// One function body.
    Code(FunctionCode),
}

/// Mathematical image of a module section.
#[verifier::ext_equal]
pub enum SectionV {
    Types(Seq<FuncSig>),
    Functions(Seq<u32>),
    Exports(Seq<(u32, Seq<char>)>),
    Code(u32, Seq<WasmOp>),
}

impl View for ModuleSection {
    type V = SectionV;

    open spec fn view(&self) -> SectionV {
        match self {
            ModuleSection::Types(v) => SectionV::Types(v@),
            ModuleSection::Functions(v) => SectionV::Functions(v@),
            ModuleSection::Exports(v) => SectionV::Exports(name_pair_views(v@)),
            ModuleSection::Code(c) => SectionV::Code(c.local_count, c.ops@),
        }
    }
}

/// The image of a whole section stream.
pub open spec fn section_views(s: Seq<ModuleSection>) -> Seq<SectionV> {
    s.map_values(|m: ModuleSection| m@)
}

/// Why a translation failed.
#[derive(Clone, Debug, PartialEq, Eq)]
pub enum TranslateError {
    /// The module bytes are malformed; carries the parser's diagnostic.
    Parse(String),
    /// A call target declares more than one result value, which the target
    /// calling convention's single return slot cannot hold.
    MultiResultCallee(u32),
    /// A function body declares more operators than the frame-offset
    /// tracker's arithmetic can account for.
    BodyTooLarge,
    /// The module holds more code entries than there are function indices.
    TooManyFunctions,
}

} // verus!
