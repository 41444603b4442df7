//! Table instances of a running module: their entries and the table instructions' semantics
//! (get, set, size, grow, fill, copy, init, drop of an element segment, indirect calls).
use crate::functypes::FuncType;
use crate::module::{ConstantValue, ElemMode, Element, ElementInit, Function, Number, Reference, Table, Value};
use crate::types::{FuncIdx, NumType, RefType, TableType, TypeIdx, ValType};
use vstd::prelude::*;

verus! {

/// An entry of a table.
#[derive(Debug, Clone, Copy, PartialEq, Eq, Structural)]
pub enum TableItem {
    /// A function of the module, with its type index and, once resolved, its entry address.
    FunctionReference { func_idx: FuncIdx, func_type: TypeIdx, func_ptr: Option<u64> },
    /// A host reference; no address is kept for the null address.
    ExternReference { func_ptr: Option<u64> },
    Null,
}

/// An error of a table operation.
#[derive(Debug)]
pub enum TableError {
    TableIndexOutOfBounds,
    TableAccessOutOfBounds,
    ElemAccessOutOfBounds,
    TableElementTypeMismatch { expected: RefType, actual: RefType },
    TableFunctionTypeMismatch { expected: FuncType, actual: FuncType },
    NullDeref,
    InvalidOffsetType(ValType),
    /// An entry of an element segment that no table entry can hold: an unknown function or
    /// global, or a value that is no reference.
    InvalidElementValue,
}

/// A table of a module instance: its entries and its type.
pub struct TableInstance {
    pub values: Vec<TableItem>,
    pub ty: TableType,
}

/// The address kept for a host reference `p`: none for the null address.
pub open spec fn extern_ptr(p: u64) -> Option<u64> {
    if p == 0 {
        None
    } else {
        Some(p)
    }
}

/// The reference type of a reference, `None` for the null reference.
pub open spec fn reference_type(r: Reference) -> Option<RefType> {
    match r {
        Reference::Null => None,
        Reference::Function(_) => Some(RefType::FunctionReference),
        Reference::Extern(_) => Some(RefType::ExternReference),
    }
}

/// Whether a reference names a function of `functions`, if it names one at all.
pub open spec fn ref_in_module(functions: Seq<Function>, r: Reference) -> bool {
    r matches Reference::Function(f) ==> f < functions.len()
}

/// Whether `r` may be stored in a table of element type `ty`.
pub open spec fn ref_fits(ty: RefType, r: Reference) -> bool {
    reference_type(r) is None || reference_type(r) == Some(ty)
}

/// The entry that stores `r`.
pub open spec fn item_of(functions: Seq<Function>, r: Reference) -> TableItem {
    match r {
        Reference::Null => TableItem::Null,
        Reference::Function(f) => TableItem::FunctionReference {
            func_idx: f,
            func_type: functions[f as int].type_idx,
            func_ptr: None,
        },
        Reference::Extern(p) => TableItem::ExternReference { func_ptr: extern_ptr(p) },
    }
}

/// The reference that an entry holds.
pub open spec fn reference_of(item: TableItem) -> Reference {
    match item {
        TableItem::FunctionReference { func_idx, .. } => Reference::Function(func_idx),
        TableItem::ExternReference { func_ptr } => Reference::Extern(
            match func_ptr {
                Some(p) => p,
                None => 0,
            },
        ),
        TableItem::Null => Reference::Null,
    }
}

/// The entries after `len` entries from `start` on are set to `item`.
pub open spec fn filled(values: Seq<TableItem>, start: int, len: int, item: TableItem) -> Seq<TableItem> {
    Seq::new(values.len(), |k: int| if start <= k < start + len { item } else { values[k] })
}

/// The entries of `dst` after `len` entries of `src` from `src_start` are copied to `dst_start`
/// on, as if through a buffer.
pub open spec fn copied(
    src: Seq<TableItem>,
    dst: Seq<TableItem>,
    src_start: int,
    dst_start: int,
    len: int,
) -> Seq<TableItem> {
    Seq::new(
        dst.len(),
        |k: int|
            if dst_start <= k < dst_start + len {
                src[src_start + k - dst_start]
            } else {
                dst[k]
            },
    )
}

impl TableInstance {
    /// Entries are counted by a `u32`.
    pub open spec fn wf(&self) -> bool {
        self.values@.len() <= u32::MAX
    }

    /// An empty table of type `ty`, grown to its minimum size with null entries.
    pub fn new(ty: TableType) -> (t: Self)
        ensures
            t.wf(),
            t.ty == ty,
            t.values@ == Seq::new(ty.lim.min as nat, |k: int| TableItem::Null),
    {
        let mut values: Vec<TableItem> = Vec::new();
        let mut k: u32 = 0;
        while k < ty.lim.min
            invariant
                k <= ty.lim.min,
                values@ == Seq::new(k as nat, |j: int| TableItem::Null),
            decreases ty.lim.min - k,
        {
            values.push(TableItem::Null);
            k = k + 1;
        }
        TableInstance { values, ty }
    }

    /// Stores `value` at `idx`.
    pub fn set(&mut self, functions: &[Function], value: Reference, idx: u32) -> (r: Result<(), TableError>)
        requires
            old(self).wf(),
            ref_in_module(functions@, value),
        ensures
            final(self).wf(),
            final(self).ty == old(self).ty,
            idx >= old(self).values@.len() ==> (r matches Err(TableError::TableIndexOutOfBounds)),
            idx < old(self).values@.len() && !ref_fits(old(self).ty.ref_type, value) ==> (r matches Err(
                TableError::TableElementTypeMismatch { .. },
            )),
            r is Ok <==> idx < old(self).values@.len() && ref_fits(old(self).ty.ref_type, value),
            r is Ok ==> final(self).values@ == old(self).values@.update(idx as int, item_of(functions@, value)),
            r is Err ==> final(self).values@ == old(self).values@,
    {
        if idx as usize >= self.values.len() {
            return Err(TableError::TableIndexOutOfBounds);
        }
        let item = self.item_for(functions, value)?;
        self.values.set(idx as usize, item);
        Ok(())
    }

    /// The entry that stores `value` in this table, or an error if it does not fit.
    fn item_for(&self, functions: &[Function], value: Reference) -> (r: Result<TableItem, TableError>)
        requires
            ref_in_module(functions@, value),
        ensures
            r is Ok <==> ref_fits(self.ty.ref_type, value),
            r matches Ok(item) ==> item == item_of(functions@, value),
            r is Err ==> (r matches Err(TableError::TableElementTypeMismatch { .. })),
    {
        match value {
            Reference::Null => Ok(TableItem::Null),
            Reference::Function(f) => match self.ty.ref_type {
                RefType::FunctionReference => Ok(
                    TableItem::FunctionReference {
                        func_idx: f,
                        func_type: functions[f as usize].type_idx,
                        func_ptr: None,
                    },
                ),
                RefType::ExternReference => Err(
                    TableError::TableElementTypeMismatch {
                        expected: RefType::ExternReference,
                        actual: RefType::FunctionReference,
                    },
                ),
            },
            Reference::Extern(p) => match self.ty.ref_type {
                RefType::ExternReference => Ok(
                    TableItem::ExternReference { func_ptr: if p == 0 {
                        None
                    } else {
                        Some(p)
                    } },
                ),
                RefType::FunctionReference => Err(
                    TableError::TableElementTypeMismatch {
                        expected: RefType::FunctionReference,
                        actual: RefType::ExternReference,
                    },
                ),
            },
        }
    }

    /// The reference stored at `idx`.
    pub fn get(&self, idx: u32) -> (r: Result<Reference, TableError>)
        ensures
            idx < self.values@.len() ==> r == Ok::<Reference, TableError>(
                reference_of(self.values@[idx as int]),
            ),
            idx >= self.values@.len() ==> (r matches Err(TableError::TableIndexOutOfBounds)),
    {
        if idx as usize >= self.values.len() {
            return Err(TableError::TableIndexOutOfBounds);
        }
        match self.values[idx as usize] {
            TableItem::FunctionReference { func_idx, .. } => Ok(Reference::Function(func_idx)),
            TableItem::ExternReference { func_ptr } => Ok(
                Reference::Extern(
                    match func_ptr {
                        Some(p) => p,
                        None => 0,
                    },
                ),
            ),
            TableItem::Null => Ok(Reference::Null),
        }
    }

    /// The number of entries.
    pub fn size(&self) -> (n: u32)
        requires
            self.wf(),
        ensures
            n == self.values@.len(),
    {
        self.values.len() as u32
    }
}

/// What is stored is what is read back: a reference that a table accepts at an index in range
/// is the reference then read at that index.
pub proof fn law_get_after_set(functions: Seq<Function>, values: Seq<TableItem>, ty: RefType, value: Reference, idx: int)
    requires
        0 <= idx < values.len(),
        ref_fits(ty, value),
    ensures
        reference_of(values.update(idx, item_of(functions, value))[idx]) == value,
{
}

/// Storing at one index leaves the reference read at every other index as it was.
pub proof fn law_set_keeps_others(
    functions: Seq<Function>,
    values: Seq<TableItem>,
    value: Reference,
    idx: int,
    other: int,
)
    requires
        0 <= idx < values.len(),
        0 <= other < values.len(),
        other != idx,
    ensures
        reference_of(values.update(idx, item_of(functions, value))[other]) == reference_of(values[other]),
{
}

/// The largest size that a table of type `ty` may grow to.
pub open spec fn max_size(ty: TableType) -> nat {
    match ty.lim.max {
        Some(m) => m as nat,
        None => u32::MAX as nat,
    }
}

/// Where an indirect call goes: a known entry address, or a function whose address the
/// engine has yet to give.
#[derive(Debug, Clone, Copy, PartialEq, Eq, Structural)]
pub enum CallTarget {
    Address(u64),
    Unresolved(FuncIdx),
}

impl TableInstance {
    /// Grows the table by `size` entries holding `value`. Returns the old size, or `u32::MAX`
    /// (the encoding of -1) with the table unchanged where it would outgrow its maximum.
    pub fn grow(&mut self, functions: &[Function], size: u32, value: Reference) -> (r: Result<u32, TableError>)
        requires
            old(self).wf(),
            ref_in_module(functions@, value),
        ensures
            final(self).wf(),
            final(self).ty == old(self).ty,
            size == 0 ==> r == Ok::<u32, TableError>(old(self).values@.len() as u32),
            size > 0 && old(self).values@.len() + size > max_size(old(self).ty) ==> r == Ok::<
                u32,
                TableError,
            >(u32::MAX),
            size > 0 && old(self).values@.len() + size <= max_size(old(self).ty) && !ref_fits(
                old(self).ty.ref_type,
                value,
            ) ==> (r matches Err(TableError::TableElementTypeMismatch { .. })),
            size > 0 && old(self).values@.len() + size <= max_size(old(self).ty) && ref_fits(
                old(self).ty.ref_type,
                value,
            ) ==> {
                &&& r == Ok::<u32, TableError>(old(self).values@.len() as u32)
                &&& final(self).values@ == old(self).values@ + Seq::new(
                    size as nat,
                    |k: int| item_of(functions@, value),
                )
            },
            !(size > 0 && old(self).values@.len() + size <= max_size(old(self).ty) && ref_fits(
                old(self).ty.ref_type,
                value,
            )) ==> final(self).values@ == old(self).values@,
    {
        let old_len = self.values.len();
        if size == 0 {
            return Ok(old_len as u32);
        }
        let max: u32 = match self.ty.lim.max {
            Some(m) => m,
            None => u32::MAX,
        };
        if old_len as u64 + size as u64 > max as u64 {
            return Ok(u32::MAX);
        }
        let item = self.item_for(functions, value)?;
        let ghost v0 = self.values@;
        let mut k: u32 = 0;
        while k < size
            invariant
                k <= size,
                old_len + size <= u32::MAX,
                v0.len() == old_len,
                self.ty == old(self).ty,
                self.values@ == v0 + Seq::new(k as nat, |j: int| item),
            decreases size - k,
        {
            self.values.push(item);
            proof {
                assert(self.values@ =~= v0 + Seq::new((k + 1) as nat, |j: int| item));
            }
            k = k + 1;
        }
        Ok(old_len as u32)
    }

    /// Sets `len` entries from `start` on to `value`.
    pub fn fill(&mut self, functions: &[Function], start: u32, len: u32, value: Reference) -> (r: Result<(), TableError>)
        requires
            old(self).wf(),
            ref_in_module(functions@, value),
        ensures
            final(self).wf(),
            final(self).ty == old(self).ty,
            start + len > old(self).values@.len() ==> (r matches Err(TableError::TableAccessOutOfBounds)),
            start + len <= old(self).values@.len() && len > 0 && !ref_fits(old(self).ty.ref_type, value)
                ==> (r matches Err(TableError::TableElementTypeMismatch { .. })),
            r is Ok <==> start + len <= old(self).values@.len() && (len == 0 || ref_fits(
                old(self).ty.ref_type,
                value,
            )),
            r is Ok ==> final(self).values@ == filled(
                old(self).values@,
                start as int,
                len as int,
                item_of(functions@, value),
            ),
            r is Err ==> final(self).values@ == old(self).values@,
    {
        if start as u64 + len as u64 > self.values.len() as u64 {
            return Err(TableError::TableAccessOutOfBounds);
        }
        if len == 0 {
            proof {
                assert(self.values@ =~= filled(self.values@, start as int, 0, item_of(functions@, value)));
            }
            return Ok(());
        }
        let item = self.item_for(functions, value)?;
        let ghost v0 = self.values@;
        let end: u32 = start + len;
        let mut k: u32 = start;
        while k < end
            invariant
                start <= k <= end,
                end == start + len,
                end <= v0.len(),
                self.ty == old(self).ty,
                self.values@ == filled(v0, start as int, k - start, item),
            decreases end - k,
        {
            self.values.set(k as usize, item);
            proof {
                assert(self.values@ =~= filled(v0, start as int, k + 1 - start, item));
            }
            k = k + 1;
        }
        Ok(())
    }

    /// Where a call through entry `entry_idx` goes, the call expecting function type `ty_idx`:
    /// the entry must hold a function of that type, or a host reference.
    pub fn indirect_call_target(&self, function_types: &[FuncType], ty_idx: TypeIdx, entry_idx: u32) -> (r: Result<
        CallTarget,
        TableError,
    >)
        requires
            self.wf(),
            ty_idx < function_types@.len(),
            forall|k: int|
                0 <= k < self.values@.len() ==> ((#[trigger] self.values@[k]) matches TableItem::FunctionReference {
                    func_type,
                    ..
                } ==> func_type < function_types@.len()),
        ensures
            entry_idx >= self.values@.len() ==> (r matches Err(TableError::TableAccessOutOfBounds)),
            entry_idx < self.values@.len() ==> match self.values@[entry_idx as int] {
                TableItem::FunctionReference { func_idx, func_type, func_ptr } => {
                    if function_types@[ty_idx as int]@ != function_types@[func_type as int]@ {
                        r matches Err(TableError::TableFunctionTypeMismatch { expected, actual })
                            && expected@ == function_types@[ty_idx as int]@ && actual@
                            == function_types@[func_type as int]@
                    } else {
                        r == Ok::<CallTarget, TableError>(
                            match func_ptr {
                                Some(p) => CallTarget::Address(p),
                                None => CallTarget::Unresolved(func_idx),
                            },
                        )
                    }
                },
                TableItem::ExternReference { func_ptr } => match func_ptr {
                    Some(p) => r == Ok::<CallTarget, TableError>(CallTarget::Address(p)),
                    None => r matches Err(TableError::NullDeref),
                },
                TableItem::Null => r matches Err(TableError::NullDeref),
            },
    {
        if entry_idx as usize >= self.values.len() {
            return Err(TableError::TableAccessOutOfBounds);
        }
        let item = self.values[entry_idx as usize];
        match item {
            TableItem::FunctionReference { func_idx, func_type, func_ptr } => {
                proof {
                    assert(self.values@[entry_idx as int] == item);
                }
                let expected = &function_types[ty_idx as usize];
                let actual = &function_types[func_type as usize];
                if !expected.same_as(actual) {
                    return Err(
                        TableError::TableFunctionTypeMismatch { expected: expected.clone(), actual: actual.clone() },
                    );
                }
                match func_ptr {
                    Some(p) => Ok(CallTarget::Address(p)),
                    None => Ok(CallTarget::Unresolved(func_idx)),
                }
            },
            TableItem::ExternReference { func_ptr } => match func_ptr {
                Some(p) => Ok(CallTarget::Address(p)),
                None => Err(TableError::NullDeref),
            },
            TableItem::Null => Err(TableError::NullDeref),
        }
    }

    /// Records the entry address of the function held at `entry_idx`.
    pub fn record_function_ptr(&mut self, entry_idx: u32, ptr: u64)
        requires
            old(self).wf(),
        ensures
            final(self).wf(),
            final(self).ty == old(self).ty,
            final(self).values@ == (if entry_idx < old(self).values@.len() && old(
                self,
            ).values@[entry_idx as int] is FunctionReference {
                old(self).values@.update(
                    entry_idx as int,
                    TableItem::FunctionReference {
                        func_idx: old(self).values@[entry_idx as int]->func_idx,
                        func_type: old(self).values@[entry_idx as int]->func_type,
                        func_ptr: Some(ptr),
                    },
                )
            } else {
                old(self).values@
            }),
    {
        if (entry_idx as usize) < self.values.len() {
            match self.values[entry_idx as usize] {
                TableItem::FunctionReference { func_idx, func_type, .. } => {
                    self.values.set(
                        entry_idx as usize,
                        TableItem::FunctionReference { func_idx, func_type, func_ptr: Some(ptr) },
                    );
                },
                _ => {},
            }
        }
    }
}

/// Copies `len` entries of table `src_idx` from `src_start` on to table `dst_idx` from
/// `dst_start` on. The two may be the same table; the ranges may overlap.
pub fn table_copy(
    tables: &mut Vec<TableInstance>,
    src_idx: usize,
    dst_idx: usize,
    src_start: u32,
    dst_start: u32,
    len: u32,
) -> (r: Result<(), TableError>)
    requires
        src_idx < old(tables)@.len(),
        dst_idx < old(tables)@.len(),
        forall|k: int| 0 <= k < old(tables)@.len() ==> (#[trigger] old(tables)@[k]).wf(),
    ensures
        final(tables)@.len() == old(tables)@.len(),
        forall|k: int| 0 <= k < final(tables)@.len() ==> (#[trigger] final(tables)@[k]).wf(),
        forall|k: int| 0 <= k < final(tables)@.len() ==> (#[trigger] final(tables)@[k]).ty == old(tables)@[k].ty,
        forall|k: int|
            0 <= k < final(tables)@.len() && k != dst_idx ==> (#[trigger] final(tables)@[k]).values@ == old(
                tables,
            )@[k].values@,
        src_start + len > old(tables)@[src_idx as int].values@.len() ==> (r matches Err(
            TableError::TableAccessOutOfBounds,
        )),
        dst_start + len > old(tables)@[dst_idx as int].values@.len() ==> (r matches Err(
            TableError::TableAccessOutOfBounds,
        )),
        r is Ok <==> src_start + len <= old(tables)@[src_idx as int].values@.len() && dst_start + len <= old(
            tables,
        )@[dst_idx as int].values@.len(),
        r is Ok ==> final(tables)@[dst_idx as int].values@ == copied(
            old(tables)@[src_idx as int].values@,
            old(tables)@[dst_idx as int].values@,
            src_start as int,
            dst_start as int,
            len as int,
        ),
        r is Err ==> final(tables)@[dst_idx as int].values@ == old(tables)@[dst_idx as int].values@,
{
    if src_start as u64 + len as u64 > tables[src_idx].values.len() as u64 {
        return Err(TableError::TableAccessOutOfBounds);
    }
    if dst_start as u64 + len as u64 > tables[dst_idx].values.len() as u64 {
        return Err(TableError::TableAccessOutOfBounds);
    }
    let ghost src0 = tables@[src_idx as int].values@;
    let ghost dst0 = tables@[dst_idx as int].values@;
    if len == 0 {
        proof {
            assert(dst0 =~= copied(src0, dst0, src_start as int, dst_start as int, 0));
        }
        return Ok(());
    }
    let mut buffer: Vec<TableItem> = Vec::new();
    let mut k: u32 = 0;
    while k < len
        invariant
            k <= len,
            src_start + len <= src0.len(),
            src0.len() <= u32::MAX,
            tables@ == old(tables)@,
            src_idx < tables@.len(),
            tables@[src_idx as int].values@ == src0,
            buffer@ == src0.subrange(src_start as int, src_start + k),
        decreases len - k,
    {
        buffer.push(tables[src_idx].values[(src_start + k) as usize]);
        proof {
            assert(buffer@ =~= src0.subrange(src_start as int, src_start + k + 1));
        }
        k = k + 1;
    }
    let ghost before = tables@;
    let mut dst = tables.remove(dst_idx);
    let ghost ty0 = dst.ty;
    let mut j: u32 = 0;
    while j < len
        invariant
            j <= len,
            dst_start + len <= dst0.len(),
            dst0.len() <= u32::MAX,
            dst.ty == ty0,
            src_start + len <= src0.len(),
            buffer@ == src0.subrange(src_start as int, src_start + len),
            dst.values@ == copied(src0, dst0, src_start as int, dst_start as int, j as int),
        decreases len - j,
    {
        dst.values.set((dst_start + j) as usize, buffer[j as usize]);
        proof {
            assert(dst.values@ =~= copied(src0, dst0, src_start as int, dst_start as int, j + 1));
        }
        j = j + 1;
    }
    let ghost rest = tables@;
    tables.insert(dst_idx, dst);
    proof {
        assert(rest =~= before.remove(dst_idx as int));
        assert(tables@ =~= before.update(dst_idx as int, dst));
    }
    Ok(())
}

/// Drops element segment `elem_idx` of a module with `num_elements` of them; segments are kept,
/// so only the index is checked.
pub fn elem_drop(num_elements: usize, elem_idx: u32) -> (r: Result<(), TableError>)
    ensures
        r is Ok <==> elem_idx < num_elements,
        r is Err ==> (r matches Err(TableError::ElemAccessOutOfBounds)),
{
    if elem_idx as usize >= num_elements {
        return Err(TableError::ElemAccessOutOfBounds);
    }
    Ok(())
}

/// A read of an index that a fill covered gives the filled reference.
pub proof fn law_get_after_fill(
    functions: Seq<Function>,
    values: Seq<TableItem>,
    start: int,
    len: int,
    value: Reference,
    idx: int,
)
    requires
        0 <= start,
        start + len <= values.len(),
        start <= idx < start + len,
    ensures
        reference_of(filled(values, start, len, item_of(functions, value))[idx]) == value,
{
}

/// After a copy, each destination entry in range holds what the source entry held before.
pub proof fn law_copy_moves_entries(
    src: Seq<TableItem>,
    dst: Seq<TableItem>,
    src_start: int,
    dst_start: int,
    len: int,
    k: int,
)
    requires
        0 <= src_start,
        0 <= dst_start,
        src_start + len <= src.len(),
        dst_start + len <= dst.len(),
        0 <= k < len,
    ensures
        copied(src, dst, src_start, dst_start, len)[dst_start + k] == src[src_start + k],
        copied(src, dst, src_start, dst_start, len).len() == dst.len(),
{
}

/// Growing keeps the entries there were and reads the fill value in each new entry.
pub proof fn law_grow_appends(functions: Seq<Function>, values: Seq<TableItem>, size: nat, value: Reference, idx: int)
    requires
        0 <= idx < values.len() + size,
        ref_in_module(functions, value),
    ensures
        ({
            let grown = values + Seq::new(size, |k: int| item_of(functions, value));
            &&& grown.len() == values.len() + size
            &&& idx < values.len() ==> grown[idx] == values[idx]
            &&& idx >= values.len() ==> reference_of(grown[idx]) == value
        }),
{
}

/// The entry that holds value `v`, where `v` is a reference or a function index.
pub open spec fn value_item(functions: Seq<Function>, v: Value) -> Option<TableItem> {
    match v {
        Value::Number(Number::I32(f)) => func_item(functions, f),
        Value::Reference(Reference::Function(f)) => func_item(functions, f),
        Value::Reference(Reference::Extern(p)) => Some(TableItem::ExternReference { func_ptr: extern_ptr(p) }),
        Value::Reference(Reference::Null) => Some(TableItem::Null),
        _ => None,
    }
}

/// The entry that refers to function `f`, if there is one.
pub open spec fn func_item(functions: Seq<Function>, f: FuncIdx) -> Option<TableItem> {
    if f < functions.len() {
        Some(TableItem::FunctionReference { func_idx: f, func_type: functions[f as int].type_idx, func_ptr: None })
    } else {
        None
    }
}

/// The entry for a constant of an element segment, the globals holding `globals`.
pub open spec fn const_item(functions: Seq<Function>, globals: Seq<Value>, c: ConstantValue) -> Option<TableItem> {
    match c {
        ConstantValue::V(v) => value_item(functions, v),
        ConstantValue::Global(g) => if g < globals.len() {
            value_item(functions, globals[g as int])
        } else {
            None
        },
        ConstantValue::FuncPtr(f) => func_item(functions, f),
    }
}

/// The entries that an element segment initializes a table with.
pub open spec fn elem_items(functions: Seq<Function>, globals: Seq<Value>, init: ElementInit) -> Seq<
    Option<TableItem>,
> {
    match init {
        ElementInit::Final(cs) => Seq::new(cs@.len(), |k: int| const_item(functions, globals, cs@[k])),
        ElementInit::Unresolved(fs) => Seq::new(fs@.len(), |k: int| func_item(functions, fs@[k])),
    }
}

/// Whether entries `start .. start + len` of `items` all exist.
pub open spec fn items_resolved(items: Seq<Option<TableItem>>, start: int, len: int) -> bool {
    forall|k: int| start <= k < start + len ==> (#[trigger] items[k]) is Some
}

/// The entries `values` after `len` entries of `items` from `src` on are written from `dst` on.
pub open spec fn initialized(values: Seq<TableItem>, items: Seq<Option<TableItem>>, src: int, dst: int, len: int) -> Seq<
    TableItem,
> {
    Seq::new(values.len(), |k: int| if dst <= k < dst + len { items[src + k - dst]->0 } else { values[k] })
}

impl TableInstance {
    /// Writes `len` entries of element segment `elem` from `src_offset` on into the table from
    /// `dst_offset` on. The globals hold `globals`.
    pub fn init(
        &mut self,
        functions: &[Function],
        globals: &[Value],
        elem: &Element,
        src_offset: u32,
        dst_offset: u32,
        len: u32,
    ) -> (r: Result<(), TableError>)
        requires
            old(self).wf(),
        ensures
            final(self).wf(),
            final(self).ty == old(self).ty,
            ({
                let items = elem_items(functions@, globals@, elem.init);
                let n = old(self).values@.len();
                &&& src_offset + len > items.len() ==> (r matches Err(TableError::ElemAccessOutOfBounds))
                &&& src_offset + len <= items.len() && dst_offset + len > n ==> (r matches Err(
                    TableError::TableAccessOutOfBounds,
                ))
                &&& src_offset + len <= items.len() && dst_offset + len <= n && !items_resolved(
                    items,
                    src_offset as int,
                    len as int,
                ) ==> (r matches Err(TableError::InvalidElementValue))
                &&& r is Ok <==> src_offset + len <= items.len() && dst_offset + len <= n && items_resolved(
                    items,
                    src_offset as int,
                    len as int,
                )
                &&& r is Ok ==> final(self).values@ == initialized(
                    old(self).values@,
                    items,
                    src_offset as int,
                    dst_offset as int,
                    len as int,
                )
                &&& r is Err ==> final(self).values@ == old(self).values@
            }),
    {
        let ghost items = elem_items(functions@, globals@, elem.init);
        let elem_len: usize = match &elem.init {
            ElementInit::Final(values) => values.len(),
            ElementInit::Unresolved(func_idxs) => func_idxs.len(),
        };
        if src_offset as u64 + len as u64 > elem_len as u64 {
            return Err(TableError::ElemAccessOutOfBounds);
        }
        if dst_offset as u64 + len as u64 > self.values.len() as u64 {
            return Err(TableError::TableAccessOutOfBounds);
        }
        let mut buffer: Vec<TableItem> = Vec::new();
        let mut k: u32 = 0;
        while k < len
            invariant
                k <= len,
                src_offset + len <= items.len(),
                items == elem_items(functions@, globals@, elem.init),
                items.len() == elem_len,
                dst_offset + len <= old(self).values@.len(),
                old(self).wf(),
                self.values@ == old(self).values@,
                self.ty == old(self).ty,
                buffer@.len() == k,
                forall|j: int| 0 <= j < k ==> items[src_offset + j] == Some(#[trigger] buffer@[j]),
            decreases len - k,
        {
            let idx: usize = src_offset as usize + k as usize;
            let item = match &elem.init {
                ElementInit::Final(values) => resolve_const(functions, globals, values[idx]),
                ElementInit::Unresolved(func_idxs) => resolve_func(functions, func_idxs[idx]),
            };
            match item {
                Some(it) => buffer.push(it),
                None => {
                    proof {
                        assert(!items_resolved(items, src_offset as int, len as int)) by {
                            assert(items[src_offset + k] is None);
                        }
                    }
                    return Err(TableError::InvalidElementValue);
                },
            }
            k = k + 1;
        }
        let ghost v0 = self.values@;
        let mut j: u32 = 0;
        while j < len
            invariant
                j <= len,
                dst_offset + len <= v0.len(),
                v0.len() <= u32::MAX,
                src_offset + len <= items.len(),
                buffer@.len() == len,
                forall|i: int| 0 <= i < len ==> items[src_offset + i] == Some(#[trigger] buffer@[i]),
                self.ty == old(self).ty,
                self.values@ == initialized(v0, items, src_offset as int, dst_offset as int, j as int),
            decreases len - j,
        {
            self.values.set((dst_offset + j) as usize, buffer[j as usize]);
            proof {
                assert(self.values@ =~= initialized(v0, items, src_offset as int, dst_offset as int, j + 1));
            }
            j = j + 1;
        }
        proof {
            assert forall|i: int| src_offset <= i < src_offset + len implies (#[trigger] items[i]) is Some by {
                assert(items[src_offset + (i - src_offset)] == Some(buffer@[i - src_offset]));
            }
        }
        Ok(())
    }
}

/// The entry for function `f`.
fn resolve_func(functions: &[Function], f: FuncIdx) -> (r: Option<TableItem>)
    ensures
        r == func_item(functions@, f),
{
    if (f as usize) < functions.len() {
        Some(TableItem::FunctionReference { func_idx: f, func_type: functions[f as usize].type_idx, func_ptr: None })
    } else {
        None
    }
}

/// The entry for value `v`.
fn resolve_value(functions: &[Function], v: Value) -> (r: Option<TableItem>)
    ensures
        r == value_item(functions@, v),
{
    match v {
        Value::Number(Number::I32(f)) => resolve_func(functions, f),
        Value::Reference(Reference::Function(f)) => resolve_func(functions, f),
        Value::Reference(Reference::Extern(p)) => Some(TableItem::ExternReference { func_ptr: if p == 0 {
            None
        } else {
            Some(p)
        } }),
        Value::Reference(Reference::Null) => Some(TableItem::Null),
        _ => None,
    }
}

/// The entry for a constant of an element segment.
fn resolve_const(functions: &[Function], globals: &[Value], c: ConstantValue) -> (r: Option<TableItem>)
    ensures
        r == const_item(functions@, globals@, c),
{
    match c {
        ConstantValue::V(v) => resolve_value(functions, v),
        ConstantValue::Global(g) => if (g as usize) < globals.len() {
            resolve_value(functions, globals[g as usize])
        } else {
            None
        },
        ConstantValue::FuncPtr(f) => resolve_func(functions, f),
    }
}

/// An initialized entry holds the reference that the segment gives for it.
pub proof fn law_init_copies_segment(
    values: Seq<TableItem>,
    items: Seq<Option<TableItem>>,
    src: int,
    dst: int,
    len: int,
    k: int,
)
    requires
        0 <= dst,
        dst + len <= values.len(),
        0 <= k < len,
    ensures
        initialized(values, items, src, dst, len)[dst + k] == items[src + k]->0,
        initialized(values, items, src, dst, len).len() == values.len(),
{
}

/// The type of a value.
pub open spec fn value_type(v: Value) -> ValType {
    match v {
        Value::Number(Number::I32(_)) => ValType::Number(NumType::I32),
        Value::Number(Number::I64(_)) => ValType::Number(NumType::I64),
        Value::Number(Number::F32(_)) => ValType::Number(NumType::F32),
        Value::Number(Number::F64(_)) => ValType::Number(NumType::F64),
        Value::Reference(Reference::Extern(_)) => ValType::Reference(RefType::ExternReference),
        Value::Reference(_) => ValType::Reference(RefType::FunctionReference),
    }
}

/// The type of a value.
pub fn type_of_value(v: Value) -> (t: ValType)
    ensures
        t == value_type(v),
{
    match v {
        Value::Number(Number::I32(_)) => ValType::Number(NumType::I32),
        Value::Number(Number::I64(_)) => ValType::Number(NumType::I64),
        Value::Number(Number::F32(_)) => ValType::Number(NumType::F32),
        Value::Number(Number::F64(_)) => ValType::Number(NumType::F64),
        Value::Reference(Reference::Extern(_)) => ValType::Reference(RefType::ExternReference),
        Value::Reference(_) => ValType::Reference(RefType::FunctionReference),
    }
}

/// The table offset at which an active element segment starts: an `i32` constant, or an
/// `i32` global.
pub open spec fn elem_offset(globals: Seq<Value>, c: ConstantValue) -> Result<u32, TableError> {
    match c {
        ConstantValue::V(Value::Number(Number::I32(o))) => Ok(o),
        ConstantValue::V(v) => Err(TableError::InvalidOffsetType(value_type(v))),
        ConstantValue::Global(g) => if g < globals.len() {
            match globals[g as int] {
                Value::Number(Number::I32(o)) => Ok(o),
                v => Err(TableError::InvalidOffsetType(value_type(v))),
            }
        } else {
            Err(TableError::InvalidElementValue)
        },
        ConstantValue::FuncPtr(_) => Err(TableError::InvalidOffsetType(ValType::Reference(RefType::FunctionReference))),
    }
}

/// The offset of an active element segment is the `i32` it names: a constant `i32` is its own
/// offset, and `global.get g` gives the same offset, or the same error, as the value that global
/// `g` holds written as a constant.
pub proof fn law_elem_offset_of_global(globals: Seq<Value>, g: u32, o: u32)
    ensures
        elem_offset(globals, ConstantValue::V(Value::Number(Number::I32(o)))) == Ok::<u32, TableError>(o),
        g < globals.len() ==> elem_offset(globals, ConstantValue::Global(g)) == elem_offset(
            globals,
            ConstantValue::V(globals[g as int]),
        ),
        g < globals.len() && globals[g as int] == Value::Number(Number::I32(o)) ==> elem_offset(
            globals,
            ConstantValue::Global(g),
        ) == Ok::<u32, TableError>(o),
{
}

/// An active segment that applies writes its `k`-th item at its offset plus `k` in its table,
/// the offset being the `i32` constant or the `i32` held by the global it names.
pub proof fn law_active_segment_lands_at_offset(
    tables: Seq<Seq<TableItem>>,
    e: Element,
    functions: Seq<Function>,
    globals: Seq<Value>,
    table: u32,
    offset: ConstantValue,
    o: u32,
    k: int,
)
    requires
        e.mode == (ElemMode::Active { table, offset }),
        offset == ConstantValue::V(Value::Number(Number::I32(o))) || (offset matches ConstantValue::Global(g) && g
            < globals.len() && globals[g as int] == Value::Number(Number::I32(o))),
        apply_elem(tables, e, functions, globals) is Ok,
        0 <= k < elem_items(functions, globals, e.init).len(),
    ensures
        apply_elem(tables, e, functions, globals)->Ok_0[table as int][o + k] == elem_items(
            functions,
            globals,
            e.init,
        )[k]->0,
{
    let items = elem_items(functions, globals, e.init);
    assert(elem_offset(globals, offset) == Ok::<u32, TableError>(o));
    law_init_copies_segment(tables[table as int], items, 0, o as int, items.len() as int, k);
}

/// The entries of the tables after element segment `e` is applied to them: an active segment
/// is written, whole, into its table at its offset.
pub open spec fn apply_elem(
    tables: Seq<Seq<TableItem>>,
    e: Element,
    functions: Seq<Function>,
    globals: Seq<Value>,
) -> Result<Seq<Seq<TableItem>>, TableError> {
    match e.mode {
        ElemMode::Active { table, offset } => if table >= tables.len() {
            Err(TableError::TableIndexOutOfBounds)
        } else {
            match elem_offset(globals, offset) {
                Err(x) => Err(x),
                Ok(o) => {
                    let items = elem_items(functions, globals, e.init);
                    if o + items.len() > tables[table as int].len() {
                        Err(TableError::TableAccessOutOfBounds)
                    } else if !items_resolved(items, 0, items.len() as int) {
                        Err(TableError::InvalidElementValue)
                    } else {
                        Ok(
                            tables.update(
                                table as int,
                                initialized(tables[table as int], items, 0, o as int, items.len() as int),
                            ),
                        )
                    }
                },
            }
        },
        _ => Ok(tables),
    }
}

/// The entries of the tables after the element segments `elems` are applied in order; the
/// first error stops them.
pub open spec fn apply_elems(
    tables: Seq<Seq<TableItem>>,
    elems: Seq<Element>,
    functions: Seq<Function>,
    globals: Seq<Value>,
) -> Result<Seq<Seq<TableItem>>, TableError>
    decreases elems.len(),
{
    if elems.len() == 0 {
        Ok(tables)
    } else {
        match apply_elems(tables, elems.drop_last(), functions, globals) {
            Err(x) => Err(x),
            Ok(ts) => apply_elem(ts, elems.last(), functions, globals),
        }
    }
}

/// The entries of each table.
pub open spec fn table_values(tables: Seq<TableInstance>) -> Seq<Seq<TableItem>> {
    Seq::new(tables.len(), |k: int| tables[k].values@)
}

/// The number of imported tables among the first `n` of `meta`.
pub open spec fn imports_before(meta: Seq<Table>, n: int) -> nat
    decreases n,
{
    if n <= 0 {
        0
    } else {
        imports_before(meta, n - 1) + if meta[n - 1].import {
            1nat
        } else {
            0nat
        }
    }
}

/// Sets up the tables of a module instance: an imported table takes the entries of the next
/// of `imported`, the others are new, at their minimum size, with null entries. Each has the
/// type that `tables_meta` gives.
pub fn create_tables(tables_meta: &[Table], imported: Vec<TableInstance>) -> (r: Result<Vec<TableInstance>, TableError>)
    requires
        forall|k: int| 0 <= k < imported@.len() ==> (#[trigger] imported@[k]).wf(),
    ensures
        imports_before(tables_meta@, tables_meta@.len() as int) > imported@.len() ==> (r matches Err(
            TableError::TableIndexOutOfBounds,
        )),
        r is Ok <==> imports_before(tables_meta@, tables_meta@.len() as int) <= imported@.len(),
        r matches Ok(ts) ==> {
            &&& ts@.len() == tables_meta@.len()
            &&& forall|k: int|
                0 <= k < ts@.len() ==> {
                    &&& (#[trigger] ts@[k]).wf()
                    &&& ts@[k].ty == tables_meta@[k].ty
                    &&& tables_meta@[k].import ==> ts@[k].values@ == imported@[imports_before(
                        tables_meta@,
                        k,
                    ) as int].values@
                    &&& !tables_meta@[k].import ==> ts@[k].values@ == Seq::new(
                        tables_meta@[k].ty.lim.min as nat,
                        |j: int| TableItem::Null,
                    )
                }
        },
{
    let mut pending = imported;
    let ghost imported0 = pending@;
    let mut tables: Vec<TableInstance> = Vec::new();
    let mut k: usize = 0;
    while k < tables_meta.len()
        invariant
            k <= tables_meta@.len(),
            tables@.len() == k,
            imports_before(tables_meta@, k as int) <= imported0.len(),
            imported0 == imported@,
            pending@ == imported0.skip(imports_before(tables_meta@, k as int) as int),
            forall|j: int| 0 <= j < imported0.len() ==> (#[trigger] imported0[j]).wf(),
            forall|j: int|
                0 <= j < k ==> {
                    &&& (#[trigger] tables@[j]).wf()
                    &&& tables@[j].ty == tables_meta@[j].ty
                    &&& tables_meta@[j].import ==> tables@[j].values@ == imported0[imports_before(
                        tables_meta@,
                        j,
                    ) as int].values@
                    &&& !tables_meta@[j].import ==> tables@[j].values@ == Seq::new(
                        tables_meta@[j].ty.lim.min as nat,
                        |i: int| TableItem::Null,
                    )
                },
        decreases tables_meta@.len() - k,
    {
        let meta = tables_meta[k];
        proof {
            lemma_imports_before_mono(tables_meta@, k as int + 1, tables_meta@.len() as int);
        }
        if meta.import {
            if pending.len() == 0 {
                proof {
                    assert(imports_before(tables_meta@, k as int + 1) == imports_before(tables_meta@, k as int) + 1);
                    assert(pending@.len() == imported0.len() - imports_before(tables_meta@, k as int));
                }
                return Err(TableError::TableIndexOutOfBounds);
            }
            let ghost used = imports_before(tables_meta@, k as int);
            let t = pending.remove(0);
            proof {
                assert(t == imported0[used as int]);
                assert(pending@ =~= imported0.skip((used + 1) as int));
            }
            tables.push(TableInstance { values: t.values, ty: meta.ty });
        } else {
            tables.push(TableInstance::new(meta.ty));
        }
        k = k + 1;
    }
    Ok(tables)
}

/// Imports are counted up to a point no more than up to a later one.
proof fn lemma_imports_before_mono(meta: Seq<Table>, a: int, b: int)
    requires
        0 <= a <= b,
    ensures
        imports_before(meta, a) <= imports_before(meta, b),
    decreases b - a,
{
    if a < b {
        lemma_imports_before_mono(meta, a, b - 1);
    }
}

/// Applies the active element segments among `elems`, in order, to the tables. The globals
/// hold `globals`.
pub fn apply_active_elements(
    tables: &mut Vec<TableInstance>,
    elems: &[Element],
    functions: &[Function],
    globals: &[Value],
) -> (r: Result<(), TableError>)
    requires
        forall|k: int| 0 <= k < old(tables)@.len() ==> (#[trigger] old(tables)@[k]).wf(),
        forall|k: int|
            0 <= k < elems@.len() ==> elem_items(functions@, globals@, (#[trigger] elems@[k]).init).len() <= u32::MAX,
    ensures
        final(tables)@.len() == old(tables)@.len(),
        forall|k: int| 0 <= k < final(tables)@.len() ==> (#[trigger] final(tables)@[k]).wf(),
        forall|k: int| 0 <= k < final(tables)@.len() ==> (#[trigger] final(tables)@[k]).ty == old(tables)@[k].ty,
        match apply_elems(table_values(old(tables)@), elems@, functions@, globals@) {
            Ok(ts) => r is Ok && table_values(final(tables)@) == ts,
            Err(e) => r == Err::<(), TableError>(e),
        },
{
    let mut i: usize = 0;
    while i < elems.len()
        invariant
            i <= elems@.len(),
            tables@.len() == old(tables)@.len(),
            forall|k: int| 0 <= k < tables@.len() ==> (#[trigger] tables@[k]).wf(),
            forall|k: int| 0 <= k < tables@.len() ==> (#[trigger] tables@[k]).ty == old(tables)@[k].ty,
            forall|k: int|
                0 <= k < elems@.len() ==> elem_items(functions@, globals@, (#[trigger] elems@[k]).init).len()
                    <= u32::MAX,
            apply_elems(table_values(old(tables)@), elems@.subrange(0, i as int), functions@, globals@) == Ok::<
                Seq<Seq<TableItem>>,
                TableError,
            >(table_values(tables@)),
        decreases elems@.len() - i,
    {
        let ghost before = table_values(tables@);
        proof {
            assert(elems@.subrange(0, i + 1).drop_last() =~= elems@.subrange(0, i as int));
            assert(elems@.subrange(0, i + 1).last() == elems@[i as int]);
        }
        let elem = &elems[i];
        match elem.mode {
            ElemMode::Active { table, offset } => {
                if table as usize >= tables.len() {
                    proof {
                        lemma_apply_elems_err_stays(
                            table_values(old(tables)@),
                            elems@,
                            i as int + 1,
                            functions@,
                            globals@,
                        );
                    }
                    return Err(TableError::TableIndexOutOfBounds);
                }
                let o = match elem_offset_of(globals, offset) {
                    Ok(o) => o,
                    Err(e) => {
                        proof {
                            lemma_apply_elems_err_stays(
                                table_values(old(tables)@),
                                elems@,
                                i as int + 1,
                                functions@,
                                globals@,
                            );
                        }
                        return Err(e);
                    },
                };
                let n: usize = match &elem.init {
                    ElementInit::Final(values) => values.len(),
                    ElementInit::Unresolved(func_idxs) => func_idxs.len(),
                };
                let ghost items = elem_items(functions@, globals@, elem.init);
                let ghost tv0 = tables@;
                let mut t = tables.remove(table as usize);
                let res = t.init(functions, globals, elem, 0, o, n as u32);
                tables.insert(table as usize, t);
                proof {
                    assert(tables@ =~= tv0.update(table as int, t));
                    assert(table_values(tables@) =~= before.update(table as int, t.values@));
                }
                match res {
                    Ok(()) => {},
                    Err(e) => {
                        proof {
                            assert(table_values(tables@) =~= before);
                            lemma_apply_elems_err_stays(
                                table_values(old(tables)@),
                                elems@,
                                i as int + 1,
                                functions@,
                                globals@,
                            );
                        }
                        return Err(e);
                    },
                }
            },
            _ => {},
        }
        i = i + 1;
    }
    proof {
        assert(elems@.subrange(0, elems@.len() as int) =~= elems@);
    }
    Ok(())
}

/// An error of the segments up to `n` is the error of all of them.
proof fn lemma_apply_elems_err_stays(
    tables: Seq<Seq<TableItem>>,
    elems: Seq<Element>,
    n: int,
    functions: Seq<Function>,
    globals: Seq<Value>,
)
    requires
        0 <= n <= elems.len(),
        apply_elems(tables, elems.subrange(0, n), functions, globals) is Err,
    ensures
        apply_elems(tables, elems, functions, globals) == apply_elems(tables, elems.subrange(0, n), functions, globals),
    decreases elems.len() - n,
{
    if n < elems.len() {
        assert(elems.subrange(0, n + 1).drop_last() =~= elems.subrange(0, n));
        lemma_apply_elems_err_stays(tables, elems, n + 1, functions, globals);
    } else {
        assert(elems.subrange(0, n) =~= elems);
    }
}

/// The offset at which an active element segment starts.
fn elem_offset_of(globals: &[Value], c: ConstantValue) -> (r: Result<u32, TableError>)
    ensures
        r == elem_offset(globals@, c),
{
    match c {
        ConstantValue::V(Value::Number(Number::I32(o))) => Ok(o),
        ConstantValue::V(v) => Err(TableError::InvalidOffsetType(type_of_value(v))),
        ConstantValue::Global(g) => if (g as usize) < globals.len() {
            match globals[g as usize] {
                Value::Number(Number::I32(o)) => Ok(o),
                v => Err(TableError::InvalidOffsetType(type_of_value(v))),
            }
        } else {
            Err(TableError::InvalidElementValue)
        },
        ConstantValue::FuncPtr(_) => Err(TableError::InvalidOffsetType(ValType::Reference(RefType::FunctionReference))),
    }
}

/// The entries of the tables that `create_tables` sets up.
pub open spec fn created_values(meta: Seq<Table>, imported: Seq<TableInstance>) -> Seq<Seq<TableItem>> {
    Seq::new(
        meta.len(),
        |k: int|
            if meta[k].import {
                imported[imports_before(meta, k) as int].values@
            } else {
                Seq::new(meta[k].ty.lim.min as nat, |j: int| TableItem::Null)
            },
    )
}

/// Sets up the tables of a module instance and applies its active element segments to them,
/// in order. The globals hold `globals`.
pub fn init_tables(
    tables_meta: &[Table],
    elems: &[Element],
    functions: &[Function],
    imported: Vec<TableInstance>,
    globals: &[Value],
) -> (r: Result<Vec<TableInstance>, TableError>)
    requires
        forall|k: int| 0 <= k < imported@.len() ==> (#[trigger] imported@[k]).wf(),
        forall|k: int|
            0 <= k < elems@.len() ==> elem_items(functions@, globals@, (#[trigger] elems@[k]).init).len() <= u32::MAX,
    ensures
        imports_before(tables_meta@, tables_meta@.len() as int) > imported@.len() ==> (r matches Err(
            TableError::TableIndexOutOfBounds,
        )),
        imports_before(tables_meta@, tables_meta@.len() as int) <= imported@.len() ==> match apply_elems(
            created_values(tables_meta@, imported@),
            elems@,
            functions@,
            globals@,
        ) {
            Ok(ts) => r matches Ok(tables) && table_values(tables@) == ts && tables@.len() == tables_meta@.len()
                && forall|k: int|
                0 <= k < tables@.len() ==> (#[trigger] tables@[k]).wf() && tables@[k].ty == tables_meta@[k].ty,
            Err(e) => r == Err::<Vec<TableInstance>, TableError>(e),
        },
{
    let ghost imported0 = imported@;
    let mut tables = create_tables(tables_meta, imported)?;
    proof {
        assert(table_values(tables@) =~= created_values(tables_meta@, imported0));
    }
    match apply_active_elements(&mut tables, elems, functions, globals) {
        Ok(()) => Ok(tables),
        Err(e) => Err(e),
    }
}

} // verus!
