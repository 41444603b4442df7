//! Lookups that a module instance makes in its module's metadata: the start function, exported
//! functions by name, and function types.
use crate::functypes::FuncType;
use crate::module::{find_export, ModuleMetadata};
use crate::module_parser::meta_wf;
use crate::tables::TableError;
use crate::types::FuncIdx;
use vstd::prelude::*;
use vstd::string::StrSliceExecFns;

verus! {

/// An error of setting up or using a module instance.
#[derive(Debug)]
pub enum InstantiationError {
    /// The module names no function to start with.
    NoStartFunction,
    TableError(TableError),
    /// No function is exported under the name.
    FunctionNotFound(String),
}

/// The decimal digit `d`.
pub open spec fn digit_char(d: nat) -> char {
    (48 + d) as char
}

/// The decimal representation of `n`.
pub open spec fn decimal(n: nat) -> Seq<char>
    decreases n,
{
    if n < 10 {
        seq![digit_char(n)]
    } else {
        decimal(n / 10).push(digit_char(n % 10))
    }
}

/// The name under which the entry function `e` is also found: `func_` and `e` in decimal.
pub open spec fn entry_name(e: FuncIdx) -> Seq<char> {
    seq!['f', 'u', 'n', 'c', '_'] + decimal(e as nat)
}

/// Appends the decimal representation of `n`.
fn push_decimal(out: &mut Vec<char>, n: u32)
    ensures
        final(out)@ == old(out)@ + decimal(n as nat),
    decreases n,
{
    if n >= 10 {
        push_decimal(out, n / 10);
    }
    let c = match n % 10 {
        0 => '0',
        1 => '1',
        2 => '2',
        3 => '3',
        4 => '4',
        5 => '5',
        6 => '6',
        7 => '7',
        8 => '8',
        _ => '9',
    };
    proof {
        assert(c == digit_char((n % 10) as nat));
    }
    out.push(c);
    proof {
        if n >= 10 {
            assert(old(out)@ + decimal(n as nat) =~= old(out)@ + decimal((n / 10) as nat) + seq![c]);
        } else {
            assert(old(out)@ + decimal(n as nat) =~= old(out)@ + seq![c]);
        }
    }
}

/// Whether `name` is the name `func_<e>` of entry function `e`.
pub fn is_entry_name(name: &str, e: FuncIdx) -> (r: bool)
    ensures
        r == (name@ == entry_name(e)),
{
    let mut expected: Vec<char> = Vec::new();
    expected.push('f');
    expected.push('u');
    expected.push('n');
    expected.push('c');
    expected.push('_');
    push_decimal(&mut expected, e);
    proof {
        assert(expected@ =~= entry_name(e));
    }
    let n = name.unicode_len();
    if n != expected.len() {
        return false;
    }
    let mut k: usize = 0;
    while k < n
        invariant
            k <= n,
            n == name@.len(),
            expected@ == entry_name(e),
            expected@.len() == n,
            forall|j: int| 0 <= j < k ==> name@[j] == expected@[j],
        decreases n - k,
    {
        if name.get_char(k) != expected[k] {
            return false;
        }
        k = k + 1;
    }
    proof {
        assert(name@ =~= expected@);
    }
    true
}

/// The function exported under `name`; the entry function is also found as `func_<index>`.
pub fn find_exported_func_idx(meta: &ModuleMetadata, name: &str) -> (r: Result<FuncIdx, InstantiationError>)
    ensures
        meta.entry_point is Some && name@ == entry_name(meta.entry_point->0) ==> r == Ok::<
            FuncIdx,
            InstantiationError,
        >(meta.entry_point->0),
        !(meta.entry_point is Some && name@ == entry_name(meta.entry_point->0)) ==> match find_export(
            meta.exports.functions@,
            name@,
        ) {
            Some(idx) => r == Ok::<FuncIdx, InstantiationError>(idx),
            None => r matches Err(InstantiationError::FunctionNotFound(n)) && n@ == name@,
        },
{
    match meta.entry_point {
        Some(entry) => {
            if is_entry_name(name, entry) {
                return Ok(entry);
            }
        },
        None => {},
    }
    match meta.exports.find_function_idx(name) {
        Some(idx) => Ok(idx),
        None => Err(InstantiationError::FunctionNotFound(name.to_string())),
    }
}

/// The function to start with: the module's start function, else the function exported as
/// `_start`, else the one exported as `run`.
pub fn query_start_function(meta: &ModuleMetadata) -> (r: Result<FuncIdx, InstantiationError>)
    ensures
        meta.entry_point matches Some(e) ==> r == Ok::<FuncIdx, InstantiationError>(e),
        meta.entry_point is None ==> match find_export(meta.exports.functions@, "_start"@) {
            Some(idx) => r == Ok::<FuncIdx, InstantiationError>(idx),
            None => match find_export(meta.exports.functions@, "run"@) {
                Some(idx) => r == Ok::<FuncIdx, InstantiationError>(idx),
                None => r matches Err(InstantiationError::NoStartFunction),
            },
        },
{
    if let Some(start_func_idx) = meta.entry_point {
        return Ok(start_func_idx);
    }
    match find_exported_func_idx(meta, "_start") {
        Ok(idx) => Ok(idx),
        Err(_) => match find_exported_func_idx(meta, "run") {
            Ok(idx) => Ok(idx),
            Err(_) => Err(InstantiationError::NoStartFunction),
        },
    }
}

/// The type of function `func_idx`.
pub fn get_function_type_from_func_idx(meta: &ModuleMetadata, func_idx: FuncIdx) -> (t: FuncType)
    requires
        func_idx < meta.functions@.len(),
        meta.functions@[func_idx as int].type_idx < meta.function_types@.len(),
    ensures
        t@ == meta.function_types@[meta.functions@[func_idx as int].type_idx as int]@,
{
    meta.function_types[meta.functions[func_idx as usize].type_idx as usize].clone()
}

/// The type of the function exported under `name`, if there is one.
pub fn get_function_type_from_name(meta: &ModuleMetadata, name: &str) -> (r: Option<FuncType>)
    requires
        meta_wf(meta),
    ensures
        match find_export(meta.exports.functions@, name@) {
            Some(idx) => r matches Some(t) && t@ == meta.function_types@[meta.functions@[idx as int].type_idx as int]@,
            None => r is None,
        },
{
    match meta.exports.find_function_idx(name) {
        Some(idx) => {
            proof {
                lemma_found_export_in_range(meta, name@);
            }
            Some(get_function_type_from_func_idx(meta, idx))
        },
        None => None,
    }
}

/// What `find_export` finds is an entry of the exports.
proof fn lemma_find_export_member(exports: Seq<crate::module::ExportDesc>, name: Seq<char>)
    ensures
        find_export(exports, name) matches Some(idx) ==> exists|k: int| 0 <= k < exports.len() && (#[trigger] exports[k]).idx == idx,
    decreases exports.len(),
{
    if exports.len() > 0 && exports[0].name@ != name {
        lemma_find_export_member(exports.drop_first(), name);
        if let Some(idx) = find_export(exports, name) {
            let k = choose|k: int| 0 <= k < exports.drop_first().len() && (#[trigger] exports.drop_first()[k]).idx == idx;
            assert(exports[k + 1] == exports.drop_first()[k]);
        }
    } else if exports.len() > 0 {
        assert(exports[0].idx == exports[0].idx);
    }
}

/// An exported function of consistent metadata has a type.
proof fn lemma_found_export_in_range(meta: &ModuleMetadata, name: Seq<char>)
    requires
        meta_wf(meta),
    ensures
        find_export(meta.exports.functions@, name) matches Some(idx) ==> idx < meta.functions@.len()
            && meta.functions@[idx as int].type_idx < meta.function_types@.len(),
{
    lemma_find_export_member(meta.exports.functions@, name);
}

} // verus!
