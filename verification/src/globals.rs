//! The initial values of the globals of a module instance.
use crate::module::{ConstantValue, Global, Reference, Value};
use crate::types::GlobalIdx;
use vstd::prelude::*;

verus! {

/// The slots of `n` globals after the imported values are placed: where imports name the same
/// global, the first of them gives its value; a global that no import names has none yet.
pub open spec fn imported_slots(n: nat, imports: Seq<(GlobalIdx, Value)>) -> Seq<Option<Value>>
    decreases imports.len(),
{
    if imports.len() == 0 {
        Seq::new(n, |k: int| None)
    } else {
        imported_slots(n, imports.drop_first()).update(imports[0].0 as int, Some(imports[0].1))
    }
}

/// The value of an initializer, the globals holding `slots`.
pub open spec fn init_value(slots: Seq<Option<Value>>, init: ConstantValue) -> Option<Value> {
    match init {
        ConstantValue::V(v) => Some(v),
        ConstantValue::Global(g) => slots[g as int],
        ConstantValue::FuncPtr(f) => Some(Value::Reference(Reference::Function(f))),
    }
}

/// The slots after the imports are placed and the first `k` globals that are not imported are
/// initialized, in order.
pub open spec fn global_slots(meta: Seq<Global>, imports: Seq<(GlobalIdx, Value)>, k: nat) -> Seq<Option<Value>>
    decreases k,
{
    if k == 0 {
        imported_slots(meta.len(), imports)
    } else {
        let s = global_slots(meta, imports, (k - 1) as nat);
        if meta[k - 1].import {
            s
        } else {
            s.update(k - 1, init_value(s, meta[k - 1].init))
        }
    }
}

/// Whether the imports and initializers only name globals of the module.
pub open spec fn globals_in_range(meta: Seq<Global>, imports: Seq<(GlobalIdx, Value)>) -> bool {
    &&& forall|j: int| 0 <= j < imports.len() ==> (#[trigger] imports[j]).0 < meta.len()
    &&& forall|k: int|
        0 <= k < meta.len() && !meta[k].import ==> ((#[trigger] meta[k]).init matches ConstantValue::Global(g)
            ==> g < meta.len())
}

proof fn lemma_imported_slots_len(n: nat, imports: Seq<(GlobalIdx, Value)>)
    requires
        forall|j: int| 0 <= j < imports.len() ==> (#[trigger] imports[j]).0 < n,
    ensures
        imported_slots(n, imports).len() == n,
    decreases imports.len(),
{
    if imports.len() > 0 {
        assert forall|j: int| 0 <= j < imports.drop_first().len() implies (#[trigger] imports.drop_first()[j]).0 < n by {
            assert(imports.drop_first()[j] == imports[j + 1]);
        }
        lemma_imported_slots_len(n, imports.drop_first());
    }
}

proof fn lemma_global_slots_len(meta: Seq<Global>, imports: Seq<(GlobalIdx, Value)>, k: nat)
    requires
        globals_in_range(meta, imports),
        k <= meta.len(),
    ensures
        global_slots(meta, imports, k).len() == meta.len(),
    decreases k,
{
    lemma_imported_slots_len(meta.len(), imports);
    if k > 0 {
        lemma_global_slots_len(meta, imports, (k - 1) as nat);
    }
}

/// The initial values of the globals of a module instance: an imported global takes the value
/// of its import, the others the value of their initializer, evaluated in order. A global
/// that gets no value is `None`.
pub fn init_global_values(globals_meta: &[Global], imports: &[(GlobalIdx, Value)]) -> (r: Vec<Option<Value>>)
    requires
        globals_in_range(globals_meta@, imports@),
    ensures
        r@ == global_slots(globals_meta@, imports@, globals_meta@.len()),
{
    let n = globals_meta.len();
    let mut slots: Vec<Option<Value>> = Vec::new();
    let mut k: usize = 0;
    while k < n
        invariant
            k <= n,
            n == globals_meta@.len(),
            slots@ == Seq::new(k as nat, |j: int| None::<Value>),
        decreases n - k,
    {
        slots.push(None);
        proof {
            assert(slots@ =~= Seq::new((k + 1) as nat, |j: int| None::<Value>));
        }
        k = k + 1;
    }
    let mut i: usize = imports.len();
    while i > 0
        invariant
            i <= imports@.len(),
            n == globals_meta@.len(),
            globals_in_range(globals_meta@, imports@),
            slots@ == imported_slots(n as nat, imports@.skip(i as int)),
        decreases i,
    {
        i = i - 1;
        let (idx, v) = imports[i];
        proof {
            assert(imports@.skip(i as int).drop_first() =~= imports@.skip(i + 1));
            lemma_imported_slots_len(n as nat, imports@.skip(i + 1));
            assert(imports@[i as int].0 < n);
        }
        slots.set(idx as usize, Some(v));
    }
    proof {
        assert(imports@.skip(0) =~= imports@);
    }
    let mut k: usize = 0;
    while k < n
        invariant
            k <= n,
            n == globals_meta@.len(),
            globals_in_range(globals_meta@, imports@),
            slots@ == global_slots(globals_meta@, imports@, k as nat),
        decreases n - k,
    {
        proof {
            lemma_global_slots_len(globals_meta@, imports@, k as nat);
        }
        let global = globals_meta[k];
        if !global.import {
            let value = match global.init {
                ConstantValue::V(v) => Some(v),
                ConstantValue::Global(g) => slots[g as usize],
                ConstantValue::FuncPtr(f) => Some(Value::Reference(Reference::Function(f))),
            };
            slots.set(k, value);
        }
        k = k + 1;
    }
    slots
}

/// The import that places a value in slot `idx`: the first import naming `idx` wins.
proof fn lemma_imported_slot(n: nat, imports: Seq<(GlobalIdx, Value)>, idx: int)
    requires
        forall|j: int| 0 <= j < imports.len() ==> (#[trigger] imports[j]).0 < n,
        0 <= idx < n,
    ensures
        (exists|j: int| 0 <= j < imports.len() && imports[j].0 == idx) ==> exists|k: int|
            0 <= k < imports.len() && imports[k].0 == idx && (forall|l: int| 0 <= l < k ==> imports[l].0 != idx)
                && imported_slots(n, imports)[idx] == Some(imports[k].1),
        (forall|j: int| 0 <= j < imports.len() ==> imports[j].0 != idx) ==> imported_slots(n, imports)[idx]
            is None,
    decreases imports.len(),
{
    lemma_imported_slots_len(n, imports);
    if imports.len() > 0 {
        let rest = imports.drop_first();
        assert forall|j: int| 0 <= j < rest.len() implies (#[trigger] rest[j]).0 < n by {
            assert(rest[j] == imports[j + 1]);
        }
        lemma_imported_slot(n, rest, idx);
        lemma_imported_slots_len(n, rest);
        if imports[0].0 == idx {
            assert(imported_slots(n, imports)[idx] == Some(imports[0].1));
        } else {
            if exists|j: int| 0 <= j < imports.len() && imports[j].0 == idx {
                let j = choose|j: int| 0 <= j < imports.len() && imports[j].0 == idx;
                assert(rest[j - 1] == imports[j]);
                let k = choose|k: int|
                    0 <= k < rest.len() && rest[k].0 == idx && (forall|l: int| 0 <= l < k ==> rest[l].0 != idx)
                        && imported_slots(n, rest)[idx] == Some(rest[k].1);
                assert(imports[k + 1] == rest[k]);
                assert forall|l: int| 0 <= l < k + 1 implies imports[l].0 != idx by {
                    if l > 0 {
                        assert(imports[l] == rest[l - 1]);
                    }
                }
            } else {
                assert forall|j: int| 0 <= j < rest.len() implies rest[j].0 != idx by {
                    assert(rest[j] == imports[j + 1]);
                }
            }
        }
    }
}

/// Every imported global takes the value of the first import that names it; an imported
/// global that no import names has no value.
pub proof fn law_imports_placed(meta: Seq<Global>, imports: Seq<(GlobalIdx, Value)>, idx: int)
    requires
        globals_in_range(meta, imports),
        0 <= idx < meta.len(),
        meta[idx].import,
    ensures
        (exists|j: int| 0 <= j < imports.len() && imports[j].0 == idx) ==> exists|k: int|
            0 <= k < imports.len() && imports[k].0 == idx && (forall|l: int| 0 <= l < k ==> imports[l].0 != idx)
                && global_slots(meta, imports, meta.len())[idx] == Some(imports[k].1),
        (forall|j: int| 0 <= j < imports.len() ==> imports[j].0 != idx) ==> global_slots(meta, imports, meta.len())[idx]
            is None,
{
    lemma_imported_slot(meta.len(), imports, idx);
    lemma_import_slot_stays(meta, imports, idx, meta.len());
}

/// Initializers never write the slot of an imported global.
proof fn lemma_import_slot_stays(meta: Seq<Global>, imports: Seq<(GlobalIdx, Value)>, idx: int, k: nat)
    requires
        globals_in_range(meta, imports),
        0 <= idx < meta.len(),
        meta[idx].import,
        k <= meta.len(),
    ensures
        global_slots(meta, imports, k)[idx] == imported_slots(meta.len(), imports)[idx],
    decreases k,
{
    if k > 0 {
        lemma_import_slot_stays(meta, imports, idx, (k - 1) as nat);
        lemma_global_slots_len(meta, imports, (k - 1) as nat);
    }
}

/// A global whose initializer is a constant holds that constant, whatever came before.
pub proof fn law_constant_initializer(meta: Seq<Global>, imports: Seq<(GlobalIdx, Value)>, k: int, v: Value)
    requires
        globals_in_range(meta, imports),
        0 <= k < meta.len(),
        !meta[k].import,
        meta[k].init == ConstantValue::V(v),
    ensures
        global_slots(meta, imports, meta.len())[k] == Some(v),
{
    lemma_slot_stays(meta, imports, k, (k + 1) as nat, meta.len());
    lemma_global_slots_len(meta, imports, k as nat);
}

/// The slot of a global is not changed by the initializers of later globals.
proof fn lemma_slot_stays(meta: Seq<Global>, imports: Seq<(GlobalIdx, Value)>, k: int, a: nat, b: nat)
    requires
        globals_in_range(meta, imports),
        0 <= k < a <= b <= meta.len(),
    ensures
        global_slots(meta, imports, b)[k] == global_slots(meta, imports, a)[k],
    decreases b - a,
{
    if a < b {
        lemma_slot_stays(meta, imports, k, a, (b - 1) as nat);
        lemma_global_slots_len(meta, imports, (b - 1) as nat);
    }
}

} // verus!
