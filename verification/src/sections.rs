//! What each section of a module binary does to the module's metadata, stated over the bytes
//! of the section.
use crate::decode::{functype_dec, limits_dec, name_dec, tabletype_dec, u32_dec};
use crate::module::{
    ConstantValue, Data, DataMode, ElemMode, ExportDesc, Function, FunctionImport, FunctionSource,
    FunctionUnparsed, Global, Import, Memory, ModuleMetadata, Table,
};
use crate::module_decode::{
    data_dec, data_view, element_dec, element_matches, export_dec, global_dec, import_dec,
};
use crate::types::{ImportDesc, RefType, Section, TableType, section_of_id, section_order};
use crate::module_parser::section_may_follow;
use crate::reader::{LEB_OK, rest};
use crate::types::ValType;
use vstd::prelude::*;

verus! {

/// The parts of the metadata that sections fill.
pub enum MetaPart {
    Types,
    Functions,
    Tables,
    Memories,
    Globals,
    Elements,
    Datas,
    Exports,
    Imports,
    EntryPoint,
    DataCount,
}

/// `m1` equals `m0` in every part outside `parts`.
pub open spec fn same_except(m0: ModuleMetadata, m1: ModuleMetadata, parts: Set<MetaPart>) -> bool {
    &&& !parts.contains(MetaPart::Types) ==> m1.function_types == m0.function_types
    &&& !parts.contains(MetaPart::Functions) ==> m1.functions == m0.functions
    &&& !parts.contains(MetaPart::Tables) ==> m1.tables == m0.tables
    &&& !parts.contains(MetaPart::Memories) ==> m1.memories == m0.memories
    &&& !parts.contains(MetaPart::Globals) ==> m1.globals == m0.globals
    &&& !parts.contains(MetaPart::Elements) ==> m1.elements == m0.elements
    &&& !parts.contains(MetaPart::Datas) ==> m1.datas == m0.datas
    &&& !parts.contains(MetaPart::Exports) ==> m1.exports == m0.exports
    &&& !parts.contains(MetaPart::Imports) ==> m1.imports == m0.imports
    &&& !parts.contains(MetaPart::EntryPoint) ==> m1.entry_point == m0.entry_point
    &&& !parts.contains(MetaPart::DataCount) ==> m1.datacount == m0.datacount
}

/// `(outcome, items, bytes read)` of the first `k` items of `s`, each read by `dec`; reading
/// stops at the first item that fails.
pub open spec fn items_dec<T>(s: Seq<u8>, k: nat, dec: spec_fn(Seq<u8>) -> (nat, T, nat)) -> (
    nat,
    Seq<T>,
    nat,
)
    decreases k,
{
    if k == 0 {
        (LEB_OK(), Seq::empty(), 0)
    } else {
        let p = items_dec(s, (k - 1) as nat, dec);
        if p.0 != LEB_OK() {
            p
        } else {
            let a = dec(rest(s, p.2 as int));
            if a.0 != LEB_OK() {
                (a.0, p.1, p.2 + a.2)
            } else {
                (LEB_OK(), p.1.push(a.1), p.2 + a.2)
            }
        }
    }
}

/// `(outcome, items, bytes read)` of a section that holds a vector: the section size (which is
/// not checked), a count, then that many items read by `dec`.
pub open spec fn vec_section<T>(s: Seq<u8>, dec: spec_fn(Seq<u8>) -> (nat, T, nat)) -> (
    nat,
    Seq<T>,
    nat,
) {
    let size = u32_dec(s);
    let count = u32_dec(rest(s, size.2 as int));
    let h = size.2 + count.2;
    if size.0 != LEB_OK() {
        (size.0, Seq::empty(), size.2)
    } else if count.0 != LEB_OK() {
        (count.0, Seq::empty(), h)
    } else {
        let v = items_dec(rest(s, h as int), count.1 as nat, dec);
        (v.0, v.1, h + v.2)
    }
}

/// Reads one function type.
pub open spec fn functype_item() -> spec_fn(Seq<u8>) -> (nat, (Seq<ValType>, Seq<ValType>), nat) {
    |x: Seq<u8>| functype_dec(x)
}

/// The function types of a type section.
pub open spec fn type_section_dec(s: Seq<u8>) -> (nat, Seq<(Seq<ValType>, Seq<ValType>)>, nat) {
    vec_section(s, functype_item())
}

/// What a type section `s` of `len` bytes does: it appends its function types.
pub open spec fn type_section_effect(s: Seq<u8>, m0: ModuleMetadata, m1: ModuleMetadata, len: int) -> bool {
    let d = type_section_dec(s);
    let n0 = m0.function_types@.len();
    &&& d.0 == LEB_OK()
    &&& len == d.2
    &&& same_except(m0, m1, set![MetaPart::Types])
    &&& m1.function_types@.len() == n0 + d.1.len()
    &&& forall|j: int| 0 <= j < n0 ==> #[trigger] m1.function_types@[j] == m0.function_types@[j]
    &&& forall|j: int| 0 <= j < d.1.len() ==> (#[trigger] m1.function_types@[n0 + j])@ == d.1[j]
}

/// Reads one table type.
pub open spec fn table_item() -> spec_fn(Seq<u8>) -> (nat, TableType, nat) {
    |x: Seq<u8>| tabletype_dec(x)
}

/// What a table section `s` of `len` bytes does: it appends its tables, which are not imports.
pub open spec fn table_section_effect(s: Seq<u8>, m0: ModuleMetadata, m1: ModuleMetadata, len: int) -> bool {
    let d = vec_section(s, table_item());
    let n0 = m0.tables@.len();
    &&& d.0 == LEB_OK()
    &&& len == d.2
    &&& same_except(m0, m1, set![MetaPart::Tables])
    &&& m1.tables@.len() == n0 + d.1.len()
    &&& forall|j: int| 0 <= j < n0 ==> #[trigger] m1.tables@[j] == m0.tables@[j]
    &&& forall|j: int| 0 <= j < d.1.len() ==> #[trigger] m1.tables@[n0 + j] == (Table { ty: d.1[j], import: false })
}

/// Reads one global of a module with `nglobals` globals.
pub open spec fn global_item(nglobals: nat) -> spec_fn(Seq<u8>) -> (nat, Global, nat) {
    |x: Seq<u8>| global_dec(x, nglobals)
}

/// What a global section `s` of `len` bytes does: it appends its globals, whose initializers
/// may read the globals known before the section.
pub open spec fn global_section_effect(s: Seq<u8>, m0: ModuleMetadata, m1: ModuleMetadata, len: int) -> bool {
    let n0 = m0.globals@.len();
    let d = vec_section(s, global_item(n0));
    &&& d.0 == LEB_OK()
    &&& len == d.2
    &&& same_except(m0, m1, set![MetaPart::Globals])
    &&& m1.globals@ == m0.globals@ + d.1
}

/// Reads one element segment of a module with `nglobals` globals.
pub open spec fn element_item(nglobals: nat) -> spec_fn(Seq<u8>) -> (
    nat,
    (RefType, bool, Seq<u32>, Seq<ConstantValue>, ElemMode),
    nat,
) {
    |x: Seq<u8>| element_dec(x, nglobals)
}

/// What an element section `s` of `len` bytes does: it appends its element segments.
pub open spec fn element_section_effect(s: Seq<u8>, m0: ModuleMetadata, m1: ModuleMetadata, len: int) -> bool {
    let d = vec_section(s, element_item(m0.globals@.len()));
    let n0 = m0.elements@.len();
    &&& d.0 == LEB_OK()
    &&& len == d.2
    &&& same_except(m0, m1, set![MetaPart::Elements])
    &&& m1.elements@.len() == n0 + d.1.len()
    &&& forall|j: int| 0 <= j < n0 ==> #[trigger] m1.elements@[j] == m0.elements@[j]
    &&& forall|j: int| 0 <= j < d.1.len() ==> element_matches(#[trigger] m1.elements@[n0 + j], d.1[j])
}

/// What a memory section `s` of `len` bytes does: with no memory it changes nothing; else it
/// holds exactly one, the module has none yet, and that one becomes the module's memory.
pub open spec fn memory_section_effect(s: Seq<u8>, m0: ModuleMetadata, m1: ModuleMetadata, len: int) -> bool {
    let size = u32_dec(s);
    let count = u32_dec(rest(s, size.2 as int));
    let h = size.2 + count.2;
    let l = limits_dec(rest(s, h as int));
    &&& size.0 == LEB_OK()
    &&& count.0 == LEB_OK()
    &&& count.1 == 0 ==> len == h && m1 == m0
    &&& count.1 != 0 ==> {
        &&& count.1 == 1
        &&& m0.memories@.len() == 0
        &&& l.0 == LEB_OK()
        &&& len == h + l.2
        &&& same_except(m0, m1, set![MetaPart::Memories])
        &&& m1.memories@ == seq![(Memory { limits: l.1, import: false })]
    }
}

/// What a start section `s` of `len` bytes does: the module has no start function yet, and the
/// one it names exists and becomes the start function.
pub open spec fn start_section_effect(s: Seq<u8>, m0: ModuleMetadata, m1: ModuleMetadata, len: int) -> bool {
    let size = u32_dec(s);
    let idx = u32_dec(rest(s, size.2 as int));
    &&& size.0 == LEB_OK()
    &&& idx.0 == LEB_OK()
    &&& len == size.2 + idx.2
    &&& m0.entry_point is None
    &&& idx.1 < m0.functions@.len()
    &&& same_except(m0, m1, set![MetaPart::EntryPoint])
    &&& m1.entry_point == Some(idx.1)
}

/// What a data count section `s` of `len` bytes does: one of size `0` changes nothing; else
/// the module has no data count yet and gets the one that follows.
pub open spec fn datacount_section_effect(s: Seq<u8>, m0: ModuleMetadata, m1: ModuleMetadata, len: int) -> bool {
    let size = u32_dec(s);
    let c = u32_dec(rest(s, size.2 as int));
    &&& size.0 == LEB_OK()
    &&& size.1 == 0 ==> len == size.2 && m1 == m0
    &&& size.1 != 0 ==> {
        &&& m0.datacount is None
        &&& c.0 == LEB_OK()
        &&& len == size.2 + c.2
        &&& same_except(m0, m1, set![MetaPart::DataCount])
        &&& m1.datacount == Some(c.1)
    }
}

/// What a custom section `s` of `len` bytes does: nothing to the metadata. It holds its size,
/// a name, and the rest of the section (no byte is skipped when the name is longer than the
/// size says).
pub open spec fn custom_section_effect(s: Seq<u8>, m0: ModuleMetadata, m1: ModuleMetadata, len: int) -> bool {
    let size = u32_dec(s);
    let name = name_dec(rest(s, size.2 as int));
    let body = if name.2 < size.1 {
        size.1 as int
    } else {
        name.2 as int
    };
    &&& size.0 == LEB_OK()
    &&& name.0 == LEB_OK()
    &&& len == size.2 + body
    &&& len <= s.len()
    &&& m1 == m0
}

/// Reads one export: its kind, name and index.
pub open spec fn export_item() -> spec_fn(Seq<u8>) -> (nat, (u8, Seq<char>, u32), nat) {
    |x: Seq<u8>| export_dec(x)
}

/// The names and indices of the exports of kind `kind` among `items`, in order.
pub open spec fn exports_of(items: Seq<(u8, Seq<char>, u32)>, kind: u8) -> Seq<(Seq<char>, u32)>
    decreases items.len(),
{
    if items.len() == 0 {
        Seq::empty()
    } else {
        let r = exports_of(items.drop_last(), kind);
        if items.last().0 == kind {
            r.push((items.last().1, items.last().2))
        } else {
            r
        }
    }
}

/// The names and indices of export entries.
pub open spec fn desc_views(v: Seq<ExportDesc>) -> Seq<(Seq<char>, u32)> {
    v.map_values(|d: ExportDesc| (d.name@, d.idx))
}

/// What an export section `s` of `len` bytes does: one of size `0` changes nothing; else each
/// exported function exists, and the exports are appended by kind.
pub open spec fn export_section_effect(s: Seq<u8>, m0: ModuleMetadata, m1: ModuleMetadata, len: int) -> bool {
    let d = vec_section(s, export_item());
    let size = u32_dec(s);
    &&& size.0 == LEB_OK()
    &&& size.1 == 0 ==> len == size.2 && m1 == m0
    &&& size.1 != 0 ==> {
        &&& d.0 == LEB_OK()
        &&& len == d.2
        &&& same_except(m0, m1, set![MetaPart::Exports])
        &&& forall|j: int| 0 <= j < d.1.len() && (#[trigger] d.1[j]).0 == 0 ==> d.1[j].2 < m0.functions@.len()
        &&& desc_views(m1.exports.functions@) == desc_views(m0.exports.functions@) + exports_of(d.1, 0)
        &&& desc_views(m1.exports.tables@) == desc_views(m0.exports.tables@) + exports_of(d.1, 1)
        &&& desc_views(m1.exports.memories@) == desc_views(m0.exports.memories@) + exports_of(d.1, 2)
        &&& desc_views(m1.exports.globals@) == desc_views(m0.exports.globals@) + exports_of(d.1, 3)
    }
}

/// Reads one unsigned LEB128 number.
pub open spec fn u32_item() -> spec_fn(Seq<u8>) -> (nat, u32, nat) {
    |x: Seq<u8>| u32_dec(x)
}

/// What a function section `s` of `len` bytes does: one with no function changes nothing;
/// else each listed type exists, and a function of that type, whose code is not read yet, is
/// appended for each.
pub open spec fn function_section_effect(s: Seq<u8>, m0: ModuleMetadata, m1: ModuleMetadata, len: int) -> bool {
    let size = u32_dec(s);
    let count = u32_dec(rest(s, size.2 as int));
    let d = vec_section(s, u32_item());
    let n0 = m0.functions@.len();
    &&& size.0 == LEB_OK()
    &&& count.0 == LEB_OK()
    &&& count.1 == 0 ==> len == size.2 + count.2 && m1 == m0
    &&& count.1 != 0 ==> {
        &&& d.0 == LEB_OK()
        &&& len == d.2
        &&& forall|j: int| 0 <= j < d.1.len() ==> #[trigger] d.1[j] < m0.function_types@.len()
        &&& same_except(m0, m1, set![MetaPart::Functions])
        &&& m1.functions@.len() == n0 + d.1.len()
        &&& forall|j: int| 0 <= j < n0 ==> #[trigger] m1.functions@[j] == m0.functions@[j]
        &&& forall|j: int|
            0 <= j < d.1.len() ==> #[trigger] m1.functions@[n0 + j] == (Function {
                type_idx: d.1[j],
                source: FunctionSource::Pending,
            })
    }
}

/// An import as read: module name, name and descriptor.
pub type ImportView = (Seq<char>, Seq<char>, ImportDesc);

/// Reads one import.
pub open spec fn import_item() -> spec_fn(Seq<u8>) -> (nat, ImportView, nat) {
    |x: Seq<u8>| import_dec(x)
}

/// The functions that `items`, the imports of one section, add: one per function import, which
/// records its place among the section's imports.
pub open spec fn imported_functions(items: Seq<ImportView>) -> Seq<Function>
    decreases items.len(),
{
    if items.len() == 0 {
        Seq::empty()
    } else {
        let r = imported_functions(items.drop_last());
        match items.last().2 {
            ImportDesc::Func(t) => r.push(
                Function {
                    type_idx: t,
                    source: FunctionSource::Import(FunctionImport { import_idx: (items.len() - 1) as u32 }),
                },
            ),
            _ => r,
        }
    }
}

/// The tables that `items` add, each marked as an import.
pub open spec fn imported_tables(items: Seq<ImportView>) -> Seq<Table>
    decreases items.len(),
{
    if items.len() == 0 {
        Seq::empty()
    } else {
        let r = imported_tables(items.drop_last());
        match items.last().2 {
            ImportDesc::Table(ty) => r.push(Table { ty, import: true }),
            _ => r,
        }
    }
}

/// The memories that `items` add, each marked as an import.
pub open spec fn imported_memories(items: Seq<ImportView>) -> Seq<Memory>
    decreases items.len(),
{
    if items.len() == 0 {
        Seq::empty()
    } else {
        let r = imported_memories(items.drop_last());
        match items.last().2 {
            ImportDesc::Mem(limits) => r.push(Memory { limits, import: true }),
            _ => r,
        }
    }
}

/// The globals that `items` add, each marked as an import and recording its place among the
/// section's imports.
pub open spec fn imported_globals(items: Seq<ImportView>) -> Seq<Global>
    decreases items.len(),
{
    if items.len() == 0 {
        Seq::empty()
    } else {
        let r = imported_globals(items.drop_last());
        match items.last().2 {
            ImportDesc::Global((ty, _)) => r.push(
                Global { ty, import: true, init: ConstantValue::FuncPtr((items.len() - 1) as u32) },
            ),
            _ => r,
        }
    }
}

/// The imports that `items` record, in a module that had `g0` globals before them: a global
/// import gets the index of the global it adds.
pub open spec fn recorded_imports(items: Seq<ImportView>, g0: nat) -> Seq<ImportView>
    decreases items.len(),
{
    if items.len() == 0 {
        Seq::empty()
    } else {
        let r = recorded_imports(items.drop_last(), g0);
        let x = items.last();
        match x.2 {
            ImportDesc::Global((ty, _)) => r.push(
                (x.0, x.1, ImportDesc::Global((ty, (g0 + imported_globals(items.drop_last()).len()) as u32))),
            ),
            _ => r.push(x),
        }
    }
}

/// An import as recorded.
pub open spec fn import_views(v: Seq<Import>) -> Seq<ImportView> {
    v.map_values(|x: Import| (x.module@, x.name@, x.desc))
}

/// Whether every function import of `items` names a type below `ntypes`.
pub open spec fn imports_typed(items: Seq<ImportView>, ntypes: nat) -> bool {
    forall|j: int| 0 <= j < items.len() ==> (#[trigger] items[j].2 matches ImportDesc::Func(t) ==> t < ntypes)
}

/// What an import section `s` of `len` bytes does: every imported function has a known type;
/// the imported functions, tables, memories and globals are appended, and the imports recorded.
pub open spec fn import_section_effect(s: Seq<u8>, m0: ModuleMetadata, m1: ModuleMetadata, len: int) -> bool {
    let d = vec_section(s, import_item());
    &&& d.0 == LEB_OK()
    &&& len == d.2
    &&& imports_typed(d.1, m0.function_types@.len())
    &&& same_except(
        m0,
        m1,
        set![MetaPart::Functions, MetaPart::Tables, MetaPart::Memories, MetaPart::Globals, MetaPart::Imports],
    )
    &&& m1.functions@ == m0.functions@ + imported_functions(d.1)
    &&& m1.tables@ == m0.tables@ + imported_tables(d.1)
    &&& m1.memories@ == m0.memories@ + imported_memories(d.1)
    &&& m1.globals@ == m0.globals@ + imported_globals(d.1)
    &&& import_views(m1.imports@) == import_views(m0.imports@) + recorded_imports(d.1, m0.globals@.len())
}

/// Reads one data segment of a module with `nglobals` globals.
pub open spec fn data_item(nglobals: nat) -> spec_fn(Seq<u8>) -> (nat, (DataMode, Seq<u8>), nat) {
    |x: Seq<u8>| data_dec(x, nglobals)
}

/// What a data section `s` of `len` bytes does. With a data count of `0` it reads nothing;
/// else its number of segments must equal the data count when there is one, its declared size
/// must be the bytes that follow the size, and its segments are appended.
pub open spec fn data_section_effect(s: Seq<u8>, m0: ModuleMetadata, m1: ModuleMetadata, len: int) -> bool {
    let size = u32_dec(s);
    let count = u32_dec(rest(s, size.2 as int));
    let d = vec_section(s, data_item(m0.globals@.len()));
    if m0.datacount == Some(0u32) {
        len == 0 && m1 == m0
    } else {
        &&& d.0 == LEB_OK()
        &&& len == d.2
        &&& len == size.2 + size.1
        &&& m0.datacount matches Some(c) ==> count.1 == c
        &&& same_except(m0, m1, set![MetaPart::Datas])
        &&& m1.datas@.map_values(|x: Data| data_view(x)) == m0.datas@.map_values(|x: Data| data_view(x)) + d.1
    }
}

/// `(success, functions, end, next function without code)` of the code bodies from position
/// `q` of `src`: each of the next `remaining` functions from `idx` on that is not an import gets
/// the body whose size comes next, and the position moves past it.
pub open spec fn code_bodies(src: Seq<u8>, q: int, funcs: Seq<Function>, idx: nat, remaining: nat, next: nat) -> (
    bool,
    Seq<Function>,
    int,
    nat,
)
    decreases funcs.len() - idx,
{
    if idx >= funcs.len() || remaining == 0 {
        (true, funcs, q, next)
    } else if funcs[idx as int].source is Import {
        code_bodies(src, q, funcs, idx + 1, remaining, next)
    } else {
        let z = u32_dec(rest(src, q));
        let pos = q + z.2;
        if z.0 != LEB_OK() || pos + z.1 > usize::MAX || idx >= 0xFFFF_FFFF {
            (false, funcs, q, next)
        } else {
            let f = Function {
                type_idx: funcs[idx as int].type_idx,
                source: FunctionSource::Wasm(FunctionUnparsed { offset: pos as usize, size: z.1 as usize }),
            };
            code_bodies(src, pos + z.1, funcs.update(idx as int, f), idx + 1, (remaining - 1) as nat, idx + 1)
        }
    }
}

/// What a code section at position `p` of `src` does, ending at `q`: it holds no more bodies
/// than the module has functions, and the bodies go, in order, to the functions from `n0` on
/// that are not imports; `n1` is the function after the last that got one.
pub open spec fn code_section_effect(
    src: Seq<u8>,
    p: int,
    m0: ModuleMetadata,
    n0: u32,
    m1: ModuleMetadata,
    n1: u32,
    q: int,
) -> bool {
    let s = rest(src, p);
    let size = u32_dec(s);
    let count = u32_dec(rest(s, size.2 as int));
    let c = code_bodies(src, p + size.2 + count.2, m0.functions@, n0 as nat, count.1 as nat, n0 as nat);
    &&& size.0 == LEB_OK()
    &&& count.0 == LEB_OK()
    &&& count.1 <= m0.functions@.len()
    &&& c.0
    &&& same_except(m0, m1, set![MetaPart::Functions])
    &&& m1.functions@ == c.1
    &&& q == c.2
    &&& n1 == c.3
}

/// What the section `sec`, whose content starts at position `p` of `src` and ends at `q`, does
/// to the parser's metadata `m0` and next function without code `n0`.
pub open spec fn section_effect(
    sec: Section,
    src: Seq<u8>,
    p: int,
    m0: ModuleMetadata,
    n0: u32,
    m1: ModuleMetadata,
    n1: u32,
    q: int,
) -> bool {
    let s = rest(src, p);
    let len = q - p;
    match sec {
        Section::Code => code_section_effect(src, p, m0, n0, m1, n1, q),
        Section::Custom => n1 == n0 && custom_section_effect(s, m0, m1, len),
        Section::Type => n1 == n0 && type_section_effect(s, m0, m1, len),
        Section::Import => n1 == n0 && import_section_effect(s, m0, m1, len),
        Section::Function => n1 == n0 && function_section_effect(s, m0, m1, len),
        Section::Table => n1 == n0 && table_section_effect(s, m0, m1, len),
        Section::Memory => n1 == n0 && memory_section_effect(s, m0, m1, len),
        Section::Global => n1 == n0 && global_section_effect(s, m0, m1, len),
        Section::Export => n1 == n0 && export_section_effect(s, m0, m1, len),
        Section::Start => n1 == n0 && start_section_effect(s, m0, m1, len),
        Section::Element => n1 == n0 && element_section_effect(s, m0, m1, len),
        Section::DataCount => n1 == n0 && datacount_section_effect(s, m0, m1, len),
        Section::Data => n1 == n0 && data_section_effect(s, m0, m1, len),
    }
}

/// The order of the last section of `secs` that is not a custom section (`-1` for none).
pub open spec fn last_order(secs: Seq<Section>) -> i32
    decreases secs.len(),
{
    if secs.len() == 0 {
        -1i32
    } else if secs.last() == Section::Custom {
        last_order(secs.drop_last())
    } else {
        section_order(secs.last())
    }
}

/// Where the sections of a module end: at the end of the bytes, or at a last byte that is no
/// section id.
pub open spec fn module_end(src: Seq<u8>, b: int) -> bool {
    b >= src.len() || (b == src.len() - 1 && b >= 0 && section_of_id(src[b]) is None)
}

/// The `k`-th section id of `secs` is the byte at `bounds[k]` of `src`.
#[verifier::opaque]
pub open spec fn section_ids(src: Seq<u8>, secs: Seq<Section>, bounds: Seq<int>) -> bool {
    forall|k: int|
        0 <= k < secs.len() ==> 0 <= #[trigger] bounds[k] < src.len() && section_of_id(src[bounds[k]]) == Some(secs[k])
}

/// Each section of `secs` that is not a custom section may follow the ones before it.
#[verifier::opaque]
pub open spec fn section_orders(secs: Seq<Section>) -> bool {
    forall|k: int|
        0 <= k < secs.len() ==> (#[trigger] secs[k] != Section::Custom ==> section_may_follow(last_order(secs.take(k)), secs[k]))
}

/// The `k`-th section of `secs`, whose content ends at `bounds[k + 1]`, turns
/// `(metas[k], nexts[k])` into `(metas[k + 1], nexts[k + 1])`.
#[verifier::opaque]
pub open spec fn section_effects(
    src: Seq<u8>,
    secs: Seq<Section>,
    bounds: Seq<int>,
    metas: Seq<ModuleMetadata>,
    nexts: Seq<u32>,
) -> bool {
    forall|k: int|
        0 <= k < secs.len() ==> section_effect(
            #[trigger] secs[k],
            src,
            bounds[k] + 1,
            metas[k],
            nexts[k],
            metas[k + 1],
            nexts[k + 1],
            bounds[k + 1],
        )
}

/// The first `secs.len()` sections of a module binary `src` whose first section id is at
/// `start`: the `k`-th section's id byte is at `bounds[k]`, its content ends at `bounds[k + 1]`,
/// it may follow the sections before it, and it turns the metadata and next function without
/// code `(metas[k], nexts[k])` into `(metas[k + 1], nexts[k + 1])`.
pub open spec fn sections_prefix(
    src: Seq<u8>,
    start: int,
    secs: Seq<Section>,
    bounds: Seq<int>,
    metas: Seq<ModuleMetadata>,
    nexts: Seq<u32>,
) -> bool {
    &&& bounds.len() == secs.len() + 1
    &&& metas.len() == secs.len() + 1
    &&& nexts.len() == secs.len() + 1
    &&& bounds[0] == start
    &&& section_ids(src, secs, bounds)
    &&& section_orders(secs)
    &&& section_effects(src, secs, bounds, metas, nexts)
}

/// All the sections of a module binary `src` whose first section id is at `start` (see
/// `sections_prefix`), up to the end of the bytes.
pub open spec fn module_sections(
    src: Seq<u8>,
    start: int,
    secs: Seq<Section>,
    bounds: Seq<int>,
    metas: Seq<ModuleMetadata>,
    nexts: Seq<u32>,
) -> bool {
    &&& sections_prefix(src, start, secs, bounds, metas, nexts)
    &&& module_end(src, bounds.last())
}

/// One more section, read after a prefix of sections, extends the prefix.
pub proof fn lemma_sections_push(
    src: Seq<u8>,
    start: int,
    secs: Seq<Section>,
    bounds: Seq<int>,
    metas: Seq<ModuleMetadata>,
    nexts: Seq<u32>,
    sec: Section,
    q: int,
    m1: ModuleMetadata,
    n1: u32,
)
    requires
        sections_prefix(src, start, secs, bounds, metas, nexts),
        0 <= bounds.last() < src.len(),
        section_of_id(src[bounds.last()]) == Some(sec),
        sec != Section::Custom ==> section_may_follow(last_order(secs), sec),
        section_effect(sec, src, bounds.last() + 1, metas.last(), nexts.last(), m1, n1, q),
    ensures
        sections_prefix(src, start, secs.push(sec), bounds.push(q), metas.push(m1), nexts.push(n1)),
{
    let n = secs.len() as int;
    reveal(section_ids);
    reveal(section_orders);
    reveal(section_effects);
    assert forall|k: int|
        0 <= k < secs.push(sec).len() implies 0 <= #[trigger] bounds.push(q)[k] < src.len() && section_of_id(
            src[bounds.push(q)[k]],
        ) == Some(secs.push(sec)[k]) by {
        if k < n {
            assert(secs.push(sec)[k] == secs[k] && bounds.push(q)[k] == bounds[k]);
        } else {
            assert(secs.push(sec)[k] == sec && bounds.push(q)[k] == bounds.last());
        }
    }
    assert forall|k: int|
        0 <= k < secs.push(sec).len() implies (#[trigger] secs.push(sec)[k] != Section::Custom
            ==> section_may_follow(last_order(secs.push(sec).take(k)), secs.push(sec)[k])) by {
        if k < n {
            assert(secs.push(sec)[k] == secs[k]);
            assert(secs.push(sec).take(k) =~= secs.take(k));
        } else {
            assert(secs.push(sec).take(k) =~= secs);
        }
    }
    assert forall|k: int|
        0 <= k < secs.push(sec).len() implies section_effect(
            #[trigger] secs.push(sec)[k],
            src,
            bounds.push(q)[k] + 1,
            metas.push(m1)[k],
            nexts.push(n1)[k],
            metas.push(m1)[k + 1],
            nexts.push(n1)[k + 1],
            bounds.push(q)[k + 1],
        ) by {
        if k < n {
            assert(secs.push(sec)[k] == secs[k]);
            assert(bounds.push(q)[k] == bounds[k] && bounds.push(q)[k + 1] == bounds[k + 1]);
            assert(metas.push(m1)[k] == metas[k] && metas.push(m1)[k + 1] == metas[k + 1]);
            assert(nexts.push(n1)[k] == nexts[k] && nexts.push(n1)[k + 1] == nexts[k + 1]);
        } else {
            assert(secs.push(sec)[k] == sec && bounds.push(q)[k] == bounds.last());
            assert(metas.push(m1)[k] == metas.last() && nexts.push(n1)[k] == nexts.last());
        }
    }
    assert(bounds.push(q)[0] == bounds[0]);
    assert(section_ids(src, secs.push(sec), bounds.push(q)));
    assert(section_orders(secs.push(sec)));
    assert(section_effects(src, secs.push(sec), bounds.push(q), metas.push(m1), nexts.push(n1)));
}

/// After one more section, the last section that is not a custom section is that one, or the
/// same as before for a custom section.
pub proof fn lemma_last_order_push(secs: Seq<Section>, sec: Section)
    ensures
        last_order(secs.push(sec)) == if sec == Section::Custom {
            last_order(secs)
        } else {
            section_order(sec)
        },
{
    assert(secs.push(sec).drop_last() =~= secs);
}

/// No section read yet is a prefix of sections.
pub proof fn lemma_sections_start(src: Seq<u8>, start: int, m: ModuleMetadata, n: u32)
    ensures
        sections_prefix(src, start, Seq::empty(), seq![start], seq![m], seq![n]),
{
    reveal(section_ids);
    reveal(section_orders);
    reveal(section_effects);
}

/// Metadata with nothing in it.
pub open spec fn meta_empty(m: ModuleMetadata) -> bool {
    &&& m.function_types@.len() == 0
    &&& m.functions@.len() == 0
    &&& m.tables@.len() == 0
    &&& m.memories@.len() == 0
    &&& m.globals@.len() == 0
    &&& m.elements@.len() == 0
    &&& m.datas@.len() == 0
    &&& m.imports@.len() == 0
    &&& m.exports.functions@.len() == 0
    &&& m.exports.tables@.len() == 0
    &&& m.exports.memories@.len() == 0
    &&& m.exports.globals@.len() == 0
    &&& m.entry_point is None
    &&& m.datacount is None
}

/// What parsing the module binary `src` gives: its sections, read from the first byte after
/// the 8-byte header, turn empty metadata, with no function that has code yet, into `m`.
pub open spec fn module_parsed(src: Seq<u8>, m: ModuleMetadata) -> bool {
    exists|secs: Seq<Section>, bounds: Seq<int>, metas: Seq<ModuleMetadata>, nexts: Seq<u32>|
        #[trigger] module_sections(src, 8, secs, bounds, metas, nexts) && meta_empty(metas[0]) && nexts[0] == 0
            && metas.last() == m
}

/// When the first `m` items decode, so does each item before, at the place where the items
/// before it end, and the `k`-th item is the one decoded there.
pub proof fn lemma_items_prefix<T>(s: Seq<u8>, m: nat, k: nat, dec: spec_fn(Seq<u8>) -> (nat, T, nat))
    requires
        items_dec(s, m, dec).0 == LEB_OK(),
        k < m,
    ensures
        items_dec(s, k, dec).0 == LEB_OK(),
        dec(rest(s, items_dec(s, k, dec).2 as int)).0 == LEB_OK(),
        items_dec(s, m, dec).1.len() == m,
        items_dec(s, m, dec).1[k as int] == dec(rest(s, items_dec(s, k, dec).2 as int)).1,
    decreases m,
{
    let p = items_dec(s, (m - 1) as nat, dec);
    if p.0 != LEB_OK() {
        assert(items_dec(s, m, dec) == p);
    } else {
        if k < m - 1 {
            lemma_items_prefix(s, (m - 1) as nat, k, dec);
        }
        lemma_items_len(s, (m - 1) as nat, dec);
    }
}

/// Items that decode are as many as were asked for.
pub proof fn lemma_items_len<T>(s: Seq<u8>, m: nat, dec: spec_fn(Seq<u8>) -> (nat, T, nat))
    requires
        items_dec(s, m, dec).0 == LEB_OK(),
    ensures
        items_dec(s, m, dec).1.len() == m,
    decreases m,
{
    if m > 0 {
        lemma_items_len(s, (m - 1) as nat, dec);
    }
}

/// The parts of the metadata on which whether a section is accepted, and what it does to
/// them, depend: the number of function types, the functions, the numbers of memories and
/// globals, the start function and the data count.
pub open spec fn same_shape(a: ModuleMetadata, b: ModuleMetadata) -> bool {
    &&& a.function_types@.len() == b.function_types@.len()
    &&& a.functions@ == b.functions@
    &&& a.memories@.len() == b.memories@.len()
    &&& a.globals@.len() == b.globals@.len()
    &&& a.entry_point == b.entry_point
    &&& a.datacount == b.datacount
}

/// Whether every function of `m` has code or is an import.
pub open spec fn meta_has_all_code(m: ModuleMetadata) -> bool {
    forall|k: int| 0 <= k < m.functions@.len() ==> !((#[trigger] m.functions@[k]).source is Pending)
}

/// Whether the section `sec`, whose content starts at position `p` of `src`, is accepted with
/// metadata `m0` and next function without code `n0`.
pub open spec fn section_ok(sec: Section, src: Seq<u8>, p: int, m0: ModuleMetadata, n0: u32) -> bool {
    let s = rest(src, p);
    let size = u32_dec(s);
    let count = u32_dec(rest(s, size.2 as int));
    let h = size.2 + count.2;
    match sec {
        Section::Custom => {
            let name = name_dec(rest(s, size.2 as int));
            let body = if name.2 < size.1 {
                size.1 as int
            } else {
                name.2 as int
            };
            size.0 == LEB_OK() && name.0 == LEB_OK() && size.2 + body <= s.len()
        },
        Section::Type => type_section_dec(s).0 == LEB_OK(),
        Section::Import => {
            let d = vec_section(s, import_item());
            d.0 == LEB_OK() && imports_typed(d.1, m0.function_types@.len())
        },
        Section::Function => {
            let d = vec_section(s, u32_item());
            &&& size.0 == LEB_OK()
            &&& count.0 == LEB_OK()
            &&& count.1 != 0 ==> d.0 == LEB_OK() && forall|j: int|
                0 <= j < d.1.len() ==> #[trigger] d.1[j] < m0.function_types@.len()
        },
        Section::Table => vec_section(s, table_item()).0 == LEB_OK(),
        Section::Memory => {
            &&& size.0 == LEB_OK()
            &&& count.0 == LEB_OK()
            &&& count.1 != 0 ==> count.1 == 1 && m0.memories@.len() == 0 && limits_dec(rest(s, h as int)).0
                == LEB_OK()
        },
        Section::Global => vec_section(s, global_item(m0.globals@.len())).0 == LEB_OK(),
        Section::Export => {
            let d = vec_section(s, export_item());
            &&& size.0 == LEB_OK()
            &&& size.1 != 0 ==> d.0 == LEB_OK() && forall|j: int|
                0 <= j < d.1.len() && (#[trigger] d.1[j]).0 == 0 ==> d.1[j].2 < m0.functions@.len()
        },
        Section::Start => {
            let idx = u32_dec(rest(s, size.2 as int));
            size.0 == LEB_OK() && idx.0 == LEB_OK() && m0.entry_point is None && idx.1 < m0.functions@.len()
        },
        Section::Element => vec_section(s, element_item(m0.globals@.len())).0 == LEB_OK(),
        Section::DataCount => {
            &&& size.0 == LEB_OK()
            &&& size.1 != 0 ==> m0.datacount is None && u32_dec(rest(s, size.2 as int)).0 == LEB_OK()
        },
        Section::Code => {
            &&& size.0 == LEB_OK()
            &&& count.0 == LEB_OK()
            &&& count.1 <= m0.functions@.len()
            &&& code_bodies(src, p + h, m0.functions@, n0 as nat, count.1 as nat, n0 as nat).0
        },
        Section::Data => {
            let d = vec_section(s, data_item(m0.globals@.len()));
            m0.datacount == Some(0u32) || {
                &&& d.0 == LEB_OK()
                &&& d.2 == size.2 + size.1
                &&& m0.datacount matches Some(c) ==> count.1 == c
            }
        },
    }
}

/// A section that does something is accepted, also with metadata of the same shape.
pub proof fn lemma_section_ok(
    sec: Section,
    src: Seq<u8>,
    p: int,
    m0: ModuleMetadata,
    n0: u32,
    m1: ModuleMetadata,
    n1: u32,
    q: int,
    m0b: ModuleMetadata,
)
    requires
        section_effect(sec, src, p, m0, n0, m1, n1, q),
        same_shape(m0, m0b),
    ensures
        section_ok(sec, src, p, m0b, n0),
{
    match sec {
        Section::Custom => {},
        Section::Type => {},
        Section::Import => {},
        Section::Function => {},
        Section::Table => {},
        Section::Memory => {},
        Section::Global => {},
        Section::Export => {},
        Section::Start => {},
        Section::Element => {},
        Section::DataCount => {},
        Section::Code => {},
        Section::Data => {},
    }
}

/// What a section does to the shape of the metadata, where it ends and the next function
/// without code depend on the shape of the metadata alone.
pub proof fn lemma_section_det(
    sec: Section,
    src: Seq<u8>,
    p: int,
    m0: ModuleMetadata,
    n0: u32,
    m1: ModuleMetadata,
    n1: u32,
    q: int,
    m0b: ModuleMetadata,
    m1b: ModuleMetadata,
    n1b: u32,
    qb: int,
)
    requires
        section_effect(sec, src, p, m0, n0, m1, n1, q),
        section_effect(sec, src, p, m0b, n0, m1b, n1b, qb),
        same_shape(m0, m0b),
    ensures
        same_shape(m1, m1b),
        n1b == n1,
        qb == q,
{
    match sec {
        Section::Custom => {},
        Section::Type => {},
        Section::Import => {},
        Section::Function => {
            let s = rest(src, p);
            let count = u32_dec(rest(s, u32_dec(s).2 as int));
            if count.1 != 0 {
                let d = vec_section(s, u32_item());
                let n = m0.functions@.len();
                assert forall|j: int| 0 <= j < m1.functions@.len() implies m1.functions@[j] == m1b.functions@[j] by {
                    if j < n {
                        assert(m1.functions@[j] == m0.functions@[j]);
                        assert(m1b.functions@[j] == m0b.functions@[j]);
                    } else {
                        assert(m1.functions@[n + (j - n)] == m1b.functions@[n + (j - n)]);
                    }
                }
                assert(m1.functions@ =~= m1b.functions@);
            }
        },
        Section::Table => {},
        Section::Memory => {},
        Section::Global => {},
        Section::Export => {},
        Section::Start => {},
        Section::Element => {},
        Section::DataCount => {},
        Section::Code => {},
        Section::Data => {},
    }
}

/// What a prefix of sections says of its `k`-th section.
pub proof fn lemma_sections_at(
    src: Seq<u8>,
    start: int,
    secs: Seq<Section>,
    bounds: Seq<int>,
    metas: Seq<ModuleMetadata>,
    nexts: Seq<u32>,
    k: int,
)
    requires
        sections_prefix(src, start, secs, bounds, metas, nexts),
        0 <= k < secs.len(),
    ensures
        0 <= bounds[k] < src.len(),
        section_of_id(src[bounds[k]]) == Some(secs[k]),
        secs[k] != Section::Custom ==> section_may_follow(last_order(secs.take(k)), secs[k]),
        section_effect(secs[k], src, bounds[k] + 1, metas[k], nexts[k], metas[k + 1], nexts[k + 1], bounds[k + 1]),
{
    reveal(section_ids);
    reveal(section_orders);
    reveal(section_effects);
    assert(0 <= bounds[k] < src.len());
    assert(secs[k] != Section::Custom ==> section_may_follow(last_order(secs.take(k)), secs[k]));
}

/// Whether the module binary `src` is accepted: its sections, read from the first byte after
/// the 8-byte header, turn empty metadata, with no function that has code yet, into metadata
/// in which every function has code or is an import.
pub open spec fn module_accepted(src: Seq<u8>) -> bool {
    exists|secs: Seq<Section>, bounds: Seq<int>, metas: Seq<ModuleMetadata>, nexts: Seq<u32>|
        #[trigger] module_sections(src, 8, secs, bounds, metas, nexts) && meta_empty(metas[0]) && nexts[0] == 0
            && meta_has_all_code(metas.last())
}

} // verus!
