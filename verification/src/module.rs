//! Metadata of a parsed module: its types, functions, tables, memories, globals, elements,
//! data segments, imports and exports.
use crate::functypes::FuncType;
use crate::types::{
    FuncIdx, GlobalIdx, GlobalType, ImportDesc, Limits, MemIdx, RefType, TableIdx, TableType, TypeIdx,
};
use vstd::prelude::*;

verus! {

#[derive(Debug, Clone, Copy, PartialEq, Eq, Structural)]
pub struct FunctionImport {
    pub import_idx: u32,
}

/// Where the code of a function lies in the module binary.
#[derive(Debug, Clone, Copy, PartialEq, Eq, Structural)]
pub struct FunctionUnparsed {
    pub offset: usize,
    pub size: usize,
}

#[derive(Debug, Clone, Copy, PartialEq, Eq, Structural)]
pub enum FunctionSource {
    Import(FunctionImport),
    Wasm(FunctionUnparsed),
    /// Declared in the function section; its code was not read yet.
    Pending,
}

#[derive(Debug, Clone, Copy, PartialEq, Eq, Structural)]
pub struct Function {
    pub type_idx: TypeIdx,
    pub source: FunctionSource,
}

impl Function {
    /// A function of the module whose code is still to be read.
    pub fn new(type_idx: TypeIdx) -> (f: Self)
        ensures
            f.type_idx == type_idx,
            f.source == FunctionSource::Pending,
    {
        Function { type_idx, source: FunctionSource::Pending }
    }

    pub fn get_import(&self) -> (r: Option<FunctionImport>)
        ensures
            r == (match self.source {
                FunctionSource::Import(i) => Some(i),
                _ => None,
            }),
    {
        match self.source {
            FunctionSource::Import(i) => Some(i),
            _ => None,
        }
    }

    pub fn get_unparsed_mem(&self) -> (r: Option<FunctionUnparsed>)
        ensures
            r == (match self.source {
                FunctionSource::Wasm(u) => Some(u),
                _ => None,
            }),
    {
        match self.source {
            FunctionSource::Wasm(u) => Some(u),
            _ => None,
        }
    }

    /// Records where the function's code lies.
    pub fn add_unparsed_mem(&mut self, offset: usize, size: usize)
        ensures
            final(self).type_idx == old(self).type_idx,
            final(self).source == FunctionSource::Wasm(FunctionUnparsed { offset, size }),
    {
        self.source = FunctionSource::Wasm(FunctionUnparsed { offset, size });
    }
}

#[derive(Debug, Clone, Copy, PartialEq, Eq, Structural)]
pub struct Table {
    pub ty: TableType,
    pub import: bool,
}

#[derive(Debug, Clone, Copy, PartialEq, Eq, Structural)]
pub struct Memory {
    pub limits: Limits,
    pub import: bool,
}

/// A number; floating-point numbers are kept as their bit patterns.
#[derive(Debug, Clone, Copy, PartialEq, Eq, Structural)]
pub enum Number {
    I32(u32),
    I64(u64),
    F32(u32),
    F64(u64),
}

#[derive(Debug, Clone, Copy, PartialEq, Eq, Structural)]
pub enum Reference {
    Null,
    Function(FuncIdx),
    Extern(u64),
}

#[derive(Debug, Clone, Copy, PartialEq, Eq, Structural)]
pub enum Value {
    Number(Number),
    Reference(Reference),
}

/// The value of a constant expression.
#[derive(Debug, Clone, Copy, PartialEq, Eq, Structural)]
pub enum ConstantValue {
    V(Value),
    Global(GlobalIdx),
    FuncPtr(FuncIdx),
}

#[derive(Debug, Clone, Copy, PartialEq, Eq, Structural)]
pub struct Global {
    pub ty: GlobalType,
    pub import: bool,
    pub init: ConstantValue,
}

#[derive(Debug, Clone, PartialEq, Eq)]
pub enum ElementInit {
    Final(Vec<ConstantValue>),
    Unresolved(Vec<FuncIdx>),
}

#[derive(Debug, Clone, Copy, PartialEq, Eq, Structural)]
pub enum ElemMode {
    Passive,
    Active { table: TableIdx, offset: ConstantValue },
    Declarative,
}

#[derive(Debug, Clone, PartialEq, Eq)]
pub struct Element {
    pub type_: RefType,
    pub init: ElementInit,
    pub mode: ElemMode,
}

#[derive(Debug, Clone, Copy, PartialEq, Eq, Structural)]
pub enum DataMode {
    Passive,
    Active { memory: MemIdx, offset: ConstantValue },
}

#[derive(Debug, Clone, PartialEq, Eq)]
pub struct Data {
    pub mode: DataMode,
    pub init: Vec<u8>,
}

/// An export: its name and the index of what it exports.
#[derive(Debug, Clone, PartialEq, Eq)]
pub struct ExportDesc {
    pub name: String,
    pub idx: u32,
}

#[derive(Debug, Clone, PartialEq, Eq)]
pub enum Export {
    Func(ExportDesc),
    Table(ExportDesc),
    Mem(ExportDesc),
    Global(ExportDesc),
}

/// The exports of a module, by kind.
#[derive(Debug, Clone, PartialEq, Eq)]
pub struct WasmExports {
    pub functions: Vec<ExportDesc>,
    pub tables: Vec<ExportDesc>,
    pub memories: Vec<ExportDesc>,
    pub globals: Vec<ExportDesc>,
}

/// The index exported under `name` in `exports`, the first such entry.
pub open spec fn find_export(exports: Seq<ExportDesc>, name: Seq<char>) -> Option<u32>
    decreases exports.len(),
{
    if exports.len() == 0 {
        None
    } else if exports[0].name@ == name {
        Some(exports[0].idx)
    } else {
        find_export(exports.drop_first(), name)
    }
}

/// The name under which `idx` is exported in `exports`, the first such entry.
pub open spec fn find_export_name(exports: Seq<ExportDesc>, idx: u32) -> Option<Seq<char>>
    decreases exports.len(),
{
    if exports.len() == 0 {
        None
    } else if exports[0].idx == idx {
        Some(exports[0].name@)
    } else {
        find_export_name(exports.drop_first(), idx)
    }
}

fn str_eq(a: &str, b: &str) -> (r: bool)
    ensures
        r == (a@ == b@),
{
    let ghost av = a@;
    let ghost bv = b@;
    let la = a.unicode_len();
    let lb = b.unicode_len();
    if la != lb {
        return false;
    }
    let mut i: usize = 0;
    while i < la
        invariant
            la == a@.len(),
            lb == b@.len(),
            la == lb,
            i <= la,
            forall|j: int| 0 <= j < i ==> a@[j] == b@[j],
        decreases la - i,
    {
        if a.get_char(i) != b.get_char(i) {
            return false;
        }
        i = i + 1;
    }
    assert(a@ =~= b@);
    true
}

fn find_in(exports: &Vec<ExportDesc>, name: &str) -> (r: Option<u32>)
    ensures
        r == find_export(exports@, name@),
{
    let mut i: usize = 0;
    assert(exports@.skip(0) =~= exports@);
    while i < exports.len()
        invariant
            i <= exports@.len(),
            find_export(exports@, name@) == find_export(exports@.skip(i as int), name@),
        decreases exports.len() - i,
    {
        proof {
            assert(exports@.skip(i as int).drop_first() =~= exports@.skip(i + 1));
        }
        if str_eq(exports[i].name.as_str(), name) {
            return Some(exports[i].idx);
        }
        i = i + 1;
    }
    None
}

fn find_name_in(exports: &Vec<ExportDesc>, idx: u32) -> (r: Option<&String>)
    ensures
        r matches Some(s) ==> find_export_name(exports@, idx) == Some(s@),
        r is None ==> find_export_name(exports@, idx) is None,
{
    let mut i: usize = 0;
    assert(exports@.skip(0) =~= exports@);
    while i < exports.len()
        invariant
            i <= exports@.len(),
            find_export_name(exports@, idx) == find_export_name(exports@.skip(i as int), idx),
        decreases exports.len() - i,
    {
        proof {
            assert(exports@.skip(i as int).drop_first() =~= exports@.skip(i + 1));
        }
        if exports[i].idx == idx {
            return Some(&exports[i].name);
        }
        i = i + 1;
    }
    None
}

impl WasmExports {
    pub fn new() -> (e: Self)
        ensures
            e.functions@.len() == 0,
            e.tables@.len() == 0,
            e.memories@.len() == 0,
            e.globals@.len() == 0,
    {
        WasmExports { functions: Vec::new(), tables: Vec::new(), memories: Vec::new(), globals: Vec::new() }
    }

    pub fn add_function_export(&mut self, e: ExportDesc)
        ensures
            final(self).functions@ == old(self).functions@.push(e),
            final(self).tables@ == old(self).tables@,
            final(self).memories@ == old(self).memories@,
            final(self).globals@ == old(self).globals@,
    {
        self.functions.push(e);
    }

    pub fn add_table_export(&mut self, e: ExportDesc)
        ensures
            final(self).functions@ == old(self).functions@,
            final(self).tables@ == old(self).tables@.push(e),
            final(self).memories@ == old(self).memories@,
            final(self).globals@ == old(self).globals@,
    {
        self.tables.push(e);
    }

    pub fn add_memory_export(&mut self, e: ExportDesc)
        ensures
            final(self).functions@ == old(self).functions@,
            final(self).tables@ == old(self).tables@,
            final(self).memories@ == old(self).memories@.push(e),
            final(self).globals@ == old(self).globals@,
    {
        self.memories.push(e);
    }

    pub fn add_global_export(&mut self, e: ExportDesc)
        ensures
            final(self).functions@ == old(self).functions@,
            final(self).tables@ == old(self).tables@,
            final(self).memories@ == old(self).memories@,
            final(self).globals@ == old(self).globals@.push(e),
    {
        self.globals.push(e);
    }

    /// Appends all exports of `other`.
    pub fn append(&mut self, other: WasmExports)
        ensures
            final(self).functions@ == old(self).functions@ + other.functions@,
            final(self).tables@ == old(self).tables@ + other.tables@,
            final(self).memories@ == old(self).memories@ + other.memories@,
            final(self).globals@ == old(self).globals@ + other.globals@,
    {
        let WasmExports { mut functions, mut tables, mut memories, mut globals } = other;
        self.functions.append(&mut functions);
        self.tables.append(&mut tables);
        self.memories.append(&mut memories);
        self.globals.append(&mut globals);
    }

    /// The function exported under `name`.
    pub fn find_function_idx(&self, name: &str) -> (r: Option<FuncIdx>)
        ensures
            r == find_export(self.functions@, name@),
    {
        find_in(&self.functions, name)
    }

    /// The global exported under `name`.
    pub fn find_global_idx(&self, name: &str) -> (r: Option<GlobalIdx>)
        ensures
            r == find_export(self.globals@, name@),
    {
        find_in(&self.globals, name)
    }

    /// The name under which the function `idx` is exported.
    pub fn find_function_name(&self, idx: FuncIdx) -> (r: Option<&String>)
        ensures
            r matches Some(s) ==> find_export_name(self.functions@, idx) == Some(s@),
            r is None ==> find_export_name(self.functions@, idx) is None,
    {
        find_name_in(&self.functions, idx)
    }
}

#[derive(Debug, Clone)]
pub struct Import {
    pub module: String,
    pub name: String,
    pub desc: ImportDesc,
}

/// What the module parser learns of a module.
#[derive(Debug)]
pub struct ModuleMetadata {
    pub function_types: Vec<FuncType>,
    pub functions: Vec<Function>,
    pub tables: Vec<Table>,
    pub memories: Vec<Memory>,
    pub globals: Vec<Global>,
    pub elements: Vec<Element>,
    pub datas: Vec<Data>,
    pub exports: WasmExports,
    pub imports: Vec<Import>,
    pub entry_point: Option<FuncIdx>,
    pub datacount: Option<u32>,
}

impl ModuleMetadata {
    pub fn new() -> (m: Self)
        ensures
            m.function_types@.len() == 0,
            m.functions@.len() == 0,
            m.tables@.len() == 0,
            m.memories@.len() == 0,
            m.globals@.len() == 0,
            m.elements@.len() == 0,
            m.datas@.len() == 0,
            m.imports@.len() == 0,
            m.exports.functions@.len() == 0,
            m.exports.tables@.len() == 0,
            m.exports.memories@.len() == 0,
            m.exports.globals@.len() == 0,
            m.entry_point.is_none(),
            m.datacount.is_none(),
    {
        ModuleMetadata {
            function_types: Vec::new(),
            functions: Vec::new(),
            tables: Vec::new(),
            memories: Vec::new(),
            globals: Vec::new(),
            elements: Vec::new(),
            datas: Vec::new(),
            exports: WasmExports::new(),
            imports: Vec::new(),
            entry_point: None,
            datacount: None,
        }
    }
}

} // verus!
