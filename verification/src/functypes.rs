//! Function types packed into a single `u64`.
//!
//! Up to `MAX_NUM_PARAMS` parameter types and `MAX_NUM_RESULTS` result types are stored as an index
//! into the enumeration of all such type lists: a list `s` is stored as
//! `enc(s, k) = 1 + idx(s[0]) * S(k) + enc(s[1..], k - 1)` where `S(k) = 1 + 7 + ... + 7^(k-1)`.
//! Function types with more parameters or results keep their lists in an overflow record.
use crate::types::{valtype_name, NumType, RefType, ValType};
use vstd::arithmetic::div_mod::lemma_fundamental_div_mod_converse;
use vstd::arithmetic::mul::lemma_mul_inequality;
use vstd::prelude::*;
use vstd::string::StringExecFns;

verus! {

pub const MAX_NUM_PARAMS: usize = 20;

pub const MAX_NUM_RESULTS: usize = 2;

pub const PARAM_OFFSET_LOG: u64 = 0;

/// 57 = ceil(log2(largest parameter index))
pub const RESULT_OFFSET_LOG: u64 = 57;

/// 2^57 - 1
pub const PARAM_INDEX_BITS: u64 = 0x01FF_FFFF_FFFF_FFFF;

/// 2^6 - 1
pub const RESULT_INDEX_BITS: u64 = 0x3F;

/// 2^63
pub const OVERFLOW_MARKER: u64 = 0x8000_0000_0000_0000;

// ------------------------------------------------------------------ specification

/// `S(k) = 1 + 7 + ... + 7^(k-1)`, the number of type lists of length below `k`.
pub open spec fn geo(k: nat) -> nat
    decreases k,
{
    if k == 0 {
        0
    } else {
        1 + 7 * geo((k - 1) as nat)
    }
}

/// Position of a value type in the enumeration of the seven value types.
pub open spec fn valtype_idx(t: ValType) -> nat {
    match t {
        ValType::Number(NumType::I32) => 0,
        ValType::Number(NumType::I64) => 1,
        ValType::Number(NumType::F32) => 2,
        ValType::Number(NumType::F64) => 3,
        ValType::Reference(RefType::FunctionReference) => 4,
        ValType::Reference(RefType::ExternReference) => 5,
        ValType::VecType => 6,
    }
}

/// The value type at position `i` of the enumeration (`i < 7`).
pub open spec fn valtype_at(i: nat) -> ValType {
    if i == 0 {
        ValType::Number(NumType::I32)
    } else if i == 1 {
        ValType::Number(NumType::I64)
    } else if i == 2 {
        ValType::Number(NumType::F32)
    } else if i == 3 {
        ValType::Number(NumType::F64)
    } else if i == 4 {
        ValType::Reference(RefType::FunctionReference)
    } else if i == 5 {
        ValType::Reference(RefType::ExternReference)
    } else {
        ValType::VecType
    }
}

/// Index of the type list `s` among the lists of at most `k` types.
pub open spec fn enc(s: Seq<ValType>, k: nat) -> nat
    decreases s.len(),
{
    if s.len() == 0 {
        0
    } else {
        1 + valtype_idx(s[0]) * geo(k) + enc(s.drop_first(), (k - 1) as nat)
    }
}

/// The type list of at most `k` types with index `x`.
pub open spec fn dec(x: nat, k: nat) -> Seq<ValType>
    decreases k,
{
    if x == 0 || k == 0 {
        Seq::empty()
    } else {
        seq![valtype_at(((x - 1) as nat) / geo(k))] + dec(((x - 1) as nat) % geo(k), (k - 1) as nat)
    }
}

/// `x` is the index of a list of at most `k` types.
pub open spec fn canonical(x: nat, k: nat) -> bool {
    dec(x, k).len() <= k && enc(dec(x, k), k) == x
}

pub open spec fn param_bits(packed: u64) -> u64 {
    (packed >> PARAM_OFFSET_LOG) & PARAM_INDEX_BITS
}

pub open spec fn result_bits(packed: u64) -> u64 {
    (packed >> RESULT_OFFSET_LOG) & RESULT_INDEX_BITS
}

pub open spec fn pack(p: u64, r: u64) -> u64 {
    (r << RESULT_OFFSET_LOG) | (p << PARAM_OFFSET_LOG)
}

/// The parameter and result lists that a function type of `params` and `results` is made of.
pub open spec fn functype_of(params: Seq<ValType>, results: Seq<ValType>) -> (
    Seq<ValType>,
    Seq<ValType>,
) {
    (params, results)
}

// ------------------------------------------------------------------ lemmas

pub proof fn lemma_geo_values()
    ensures
        geo(1) == 1,
        geo(2) == 8,
        geo(3) == 57,
        geo(4) == 400,
        geo(5) == 2801,
        geo(6) == 19608,
        geo(7) == 137257,
        geo(8) == 960800,
        geo(9) == 6725601,
        geo(10) == 47079208,
        geo(11) == 329554457,
        geo(12) == 2306881200,
        geo(13) == 16148168401,
        geo(14) == 113037178808,
        geo(15) == 791260251657,
        geo(16) == 5538821761600,
        geo(17) == 38771752331201,
        geo(18) == 271402266318408,
        geo(19) == 1899815864228857,
        geo(20) == 13298711049602000,
        geo(21) == 93090977347214001,
{
    reveal_with_fuel(geo, 22);
}

proof fn lemma_valtype_idx_roundtrip(t: ValType)
    ensures
        valtype_idx(t) < 7,
        valtype_at(valtype_idx(t)) == t,
{
}

proof fn lemma_geo_pos(k: nat)
    requires
        k >= 1,
    ensures
        geo(k) >= 1,
    decreases k,
{
}

/// The index of a list of at most `k` types is below `S(k + 1) = 7 * S(k) + 1`.
pub proof fn lemma_enc_bound(s: Seq<ValType>, k: nat)
    requires
        s.len() <= k,
    ensures
        enc(s, k) <= 7 * geo(k),
        s.len() > 0 ==> enc(s, k) >= 1,
    decreases s.len(),
{
    if s.len() > 0 {
        let k1 = (k - 1) as nat;
        lemma_enc_bound(s.drop_first(), k1);
        lemma_valtype_idx_roundtrip(s[0]);
        lemma_mul_inequality(valtype_idx(s[0]) as int, 6, geo(k) as int);
        assert(geo(k) == 1 + 7 * geo(k1));
    }
}

/// Decoding the index of a list gives back the list.
pub proof fn lemma_dec_enc(s: Seq<ValType>, k: nat)
    requires
        s.len() <= k,
    ensures
        dec(enc(s, k), k) == s,
    decreases s.len(),
{
    if s.len() > 0 {
        let k1 = (k - 1) as nat;
        let t = s.drop_first();
        lemma_enc_bound(s, k);
        lemma_enc_bound(t, k1);
        lemma_dec_enc(t, k1);
        lemma_valtype_idx_roundtrip(s[0]);
        lemma_geo_pos(k);
        let x = enc(s, k);
        let i = (x - 1) as nat;
        assert(i == valtype_idx(s[0]) * geo(k) + enc(t, k1));
        assert(enc(t, k1) < geo(k));
        lemma_fundamental_div_mod_converse(
            i as int,
            geo(k) as int,
            valtype_idx(s[0]) as int,
            enc(t, k1) as int,
        );
        assert(dec(x, k) == seq![s[0]] + t);
        assert(seq![s[0]] + t =~= s);
    }
}

/// Every index of a list is canonical.
pub proof fn lemma_enc_canonical(s: Seq<ValType>, k: nat)
    requires
        s.len() <= k,
    ensures
        canonical(enc(s, k), k),
{
    lemma_dec_enc(s, k);
}

/// Appending a type to a list adds `1 + idx(t) * S(k - len)` to its index.
pub proof fn lemma_enc_push(s: Seq<ValType>, t: ValType, k: nat)
    requires
        s.len() < k,
    ensures
        enc(s.push(t), k) == enc(s, k) + 1 + valtype_idx(t) * geo((k - s.len()) as nat),
    decreases s.len(),
{
    if s.len() > 0 {
        let k1 = (k - 1) as nat;
        assert(s.push(t).drop_first() =~= s.drop_first().push(t));
        assert(s.push(t)[0] == s[0]);
        lemma_enc_push(s.drop_first(), t, k1);
        assert(enc(s.push(t), k) == 1 + valtype_idx(s[0]) * geo(k) + enc(s.drop_first().push(t), k1));
        assert((k1 - s.drop_first().len()) as nat == (k - s.len()) as nat);
    } else {
        assert(s.push(t).drop_first() =~= Seq::<ValType>::empty());
        assert(s.push(t)[0] == t);
        assert(enc(s.push(t), k) == 1 + valtype_idx(t) * geo(k) + enc(Seq::<ValType>::empty(), (k - 1) as nat));
    }
}

/// Splitting off the first type of a nonempty list: the quotient and remainder that decoding takes.
proof fn lemma_enc_step(s: Seq<ValType>, k: nat)
    requires
        s.len() <= k,
        s.len() > 0,
    ensures
        k >= 1,
        geo(k) >= 1,
        enc(s, k) >= 1,
        ((enc(s, k) - 1) as nat) / geo(k) == valtype_idx(s[0]),
        ((enc(s, k) - 1) as nat) % geo(k) == enc(s.drop_first(), (k - 1) as nat),
        valtype_idx(s[0]) * geo(k) + enc(s.drop_first(), (k - 1) as nat) == enc(s, k) - 1,
        valtype_idx(s[0]) < 7,
{
    let k1 = (k - 1) as nat;
    let t = s.drop_first();
    lemma_enc_bound(s, k);
    lemma_enc_bound(t, k1);
    lemma_valtype_idx_roundtrip(s[0]);
    lemma_geo_pos(k);
    lemma_fundamental_div_mod_converse(
        (enc(s, k) - 1) as int,
        geo(k) as int,
        valtype_idx(s[0]) as int,
        enc(t, k1) as int,
    );
}

/// Packing two indices that fit their bit fields keeps both and leaves the overflow bit clear.
pub proof fn lemma_pack_zero()
    ensures
        pack(0, 0) == 0,
        param_bits(0) == 0,
        result_bits(0) == 0,
{
    assert(((0u64 << 57u64) | (0u64 << 0u64)) == 0u64) by (bit_vector);
    assert(((0u64 >> 0u64) & 0x01FF_FFFF_FFFF_FFFFu64) == 0u64) by (bit_vector);
    assert(((0u64 >> 57u64) & 0x3Fu64) == 0u64) by (bit_vector);
}

pub proof fn lemma_pack(p: u64, r: u64)
    requires
        p <= PARAM_INDEX_BITS,
        r <= RESULT_INDEX_BITS,
    ensures
        param_bits(pack(p, r)) == p,
        result_bits(pack(p, r)) == r,
        pack(p, r) & OVERFLOW_MARKER == 0,
{
    assert(((((r << 57u64) | (p << 0u64)) >> 0u64) & 0x01FF_FFFF_FFFF_FFFFu64) == p) by (bit_vector)
        requires
            p <= 0x01FF_FFFF_FFFF_FFFFu64,
            r <= 0x3Fu64,
    ;
    assert(((((r << 57u64) | (p << 0u64)) >> 57u64) & 0x3Fu64) == r) by (bit_vector)
        requires
            p <= 0x01FF_FFFF_FFFF_FFFFu64,
            r <= 0x3Fu64,
    ;
    assert((((r << 57u64) | (p << 0u64)) & 0x8000_0000_0000_0000u64) == 0) by (bit_vector)
        requires
            p <= 0x01FF_FFFF_FFFF_FFFFu64,
            r <= 0x3Fu64,
    ;
}

/// The bit operations of the builder replace one index of a packed pair.
proof fn lemma_replace_param(p: u64, r: u64, np: u64)
    requires
        p <= PARAM_INDEX_BITS,
        r <= RESULT_INDEX_BITS,
        np <= PARAM_INDEX_BITS,
    ensures
        (pack(p, r) ^ (p << PARAM_OFFSET_LOG)) | (np << PARAM_OFFSET_LOG) == pack(np, r),
{
    assert(((((r << 57u64) | (p << 0u64)) ^ (p << 0u64)) | (np << 0u64)) == ((r << 57u64) | (np
        << 0u64))) by (bit_vector)
        requires
            p <= 0x01FF_FFFF_FFFF_FFFFu64,
            r <= 0x3Fu64,
            np <= 0x01FF_FFFF_FFFF_FFFFu64,
    ;
}

proof fn lemma_replace_result(p: u64, r: u64, nr: u64)
    requires
        p <= PARAM_INDEX_BITS,
        r <= RESULT_INDEX_BITS,
        nr <= RESULT_INDEX_BITS,
    ensures
        (pack(p, r) ^ (r << RESULT_OFFSET_LOG)) | (nr << RESULT_OFFSET_LOG) == pack(p, nr),
{
    assert(((((r << 57u64) | (p << 0u64)) ^ (r << 57u64)) | (nr << 57u64)) == ((nr << 57u64) | (p
        << 0u64))) by (bit_vector)
        requires
            p <= 0x01FF_FFFF_FFFF_FFFFu64,
            r <= 0x3Fu64,
            nr <= 0x3Fu64,
    ;
}

/// The extracted bit fields are within their ranges.
proof fn lemma_bits_bounded(x: u64)
    ensures
        param_bits(x) <= PARAM_INDEX_BITS,
        result_bits(x) <= RESULT_INDEX_BITS,
{
    assert(((x >> 0u64) & 0x01FF_FFFF_FFFF_FFFFu64) <= 0x01FF_FFFF_FFFF_FFFFu64) by (bit_vector);
    assert(((x >> 57u64) & 0x3Fu64) <= 0x3Fu64) by (bit_vector);
}

/// Indices of lists within the capacity fit their bit fields.
proof fn lemma_fits(s: Seq<ValType>, k: nat)
    requires
        s.len() <= k,
        k == 20 || k == 2,
    ensures
        k == 20 ==> enc(s, k) <= PARAM_INDEX_BITS,
        k == 2 ==> enc(s, k) <= RESULT_INDEX_BITS,
{
    lemma_enc_bound(s, k);
    lemma_geo_values();
}

// ------------------------------------------------------------------ executable helpers

/// `S(k)` for `1 <= k <= 20`.
fn geometric_partial_sum(k: usize) -> (r: u64)
    requires
        1 <= k <= 20,
    ensures
        r == geo(k as nat),
{
    proof {
        lemma_geo_values();
    }
    match k {
        1 => 1,
        2 => 8,
        3 => 57,
        4 => 400,
        5 => 2801,
        6 => 19608,
        7 => 137257,
        8 => 960800,
        9 => 6725601,
        10 => 47079208,
        11 => 329554457,
        12 => 2306881200,
        13 => 16148168401,
        14 => 113037178808,
        15 => 791260251657,
        16 => 5538821761600,
        17 => 38771752331201,
        18 => 271402266318408,
        19 => 1899815864228857,
        _ => 13298711049602000,
    }
}

fn idx_of_valtype(ty: ValType) -> (r: u64)
    ensures
        r == valtype_idx(ty),
        r < 7,
{
    match ty {
        ValType::Number(NumType::I32) => 0,
        ValType::Number(NumType::I64) => 1,
        ValType::Number(NumType::F32) => 2,
        ValType::Number(NumType::F64) => 3,
        ValType::Reference(RefType::FunctionReference) => 4,
        ValType::Reference(RefType::ExternReference) => 5,
        ValType::VecType => 6,
    }
}

fn valtype_of_idx(idx: u64) -> (r: ValType)
    requires
        idx < 7,
    ensures
        r == valtype_at(idx as nat),
{
    match idx {
        0 => ValType::i32(),
        1 => ValType::i64(),
        2 => ValType::float32(),
        3 => ValType::float64(),
        4 => ValType::funcref(),
        5 => ValType::externref(),
        _ => ValType::vec(),
    }
}

// ------------------------------------------------------------------ FuncType

/// A function type (https://webassembly.github.io/spec/core/syntax/types.html#function-types).
#[derive(Debug)]
pub struct FuncType {
    packed: u64,
    overflow: Option<(Vec<ValType>, Vec<ValType>)>,
}

impl FuncType {
    #[verifier::type_invariant]
    spec fn wf(self) -> bool {
        match self.overflow {
            None => {
                &&& self.packed == pack(param_bits(self.packed), result_bits(self.packed))
                &&& canonical(param_bits(self.packed) as nat, 20)
                &&& canonical(result_bits(self.packed) as nat, 2)
            },
            Some((p, r)) => {
                &&& self.packed == OVERFLOW_MARKER
                &&& (p.len() > 20 || r.len() > 2)
            },
        }
    }

    /// The parameter types of this function type.
    pub closed spec fn params_spec(self) -> Seq<ValType> {
        match self.overflow {
            None => dec(param_bits(self.packed) as nat, 20),
            Some((p, _)) => p@,
        }
    }

    /// The result types of this function type.
    pub closed spec fn results_spec(self) -> Seq<ValType> {
        match self.overflow {
            None => dec(result_bits(self.packed) as nat, 2),
            Some((_, r)) => r@,
        }
    }

    /// Iterator over the parameter types.
    pub fn params_iter(&self) -> (it: FuncTypeIter)
        ensures
            it@ == self@.0,
    {
        proof {
            use_type_invariant(self);
        }
        match &self.overflow {
            Some((p, _)) => FuncTypeIter::from_overflow(copy_types(p)),
            None => {
                let idx = (self.packed >> PARAM_OFFSET_LOG) & PARAM_INDEX_BITS;
                FuncTypeIter::from_packed(idx, FuncTypeIterKind::Param)
            },
        }
    }

    /// Iterator over the result types.
    pub fn results_iter(&self) -> (it: FuncTypeIter)
        ensures
            it@ == self@.1,
    {
        proof {
            use_type_invariant(self);
        }
        match &self.overflow {
            Some((_, r)) => FuncTypeIter::from_overflow(copy_types(r)),
            None => {
                let idx = (self.packed >> RESULT_OFFSET_LOG) & RESULT_INDEX_BITS;
                FuncTypeIter::from_packed(idx, FuncTypeIterKind::Result)
            },
        }
    }

    /// Number of types in the list with index `idx` among lists of at most `max_num` types.
    fn count(idx: u64, max_num: usize) -> (cnt: usize)
        requires
            max_num == 20 || max_num == 2,
            canonical(idx as nat, max_num as nat),
        ensures
            cnt == dec(idx as nat, max_num as nat).len(),
    {
        let ghost full = dec(idx as nat, max_num as nat);
        let mut idx = idx;
        let mut cnt: usize = 0;
        proof {
            lemma_dec_enc(full, max_num as nat);
            assert(full.skip(0) =~= full);
        }
        while idx != 0
            invariant
                max_num == 20 || max_num == 2,
                full.len() <= max_num,
                cnt <= full.len(),
                idx == enc(full.skip(cnt as int), (max_num - cnt) as nat),
                full.skip(cnt as int).len() <= max_num - cnt,
            decreases full.len() - cnt,
        {
            let ghost rest = full.skip(cnt as int);
            proof {
                if rest.len() == 0 {
                    assert(false);
                }
                lemma_enc_step(rest, (max_num - cnt) as nat);
            }
            idx = idx - 1;
            let s = geometric_partial_sum(max_num - cnt);
            let valtype_idx = idx / s;
            idx = idx - valtype_idx * s;
            proof {
                assert(rest.drop_first() =~= full.skip(cnt + 1));
            }
            cnt = cnt + 1;
        }
        proof {
            if full.skip(cnt as int).len() > 0 {
                lemma_enc_bound(full.skip(cnt as int), (max_num - cnt) as nat);
            }
        }
        cnt
    }

    /// Number of parameter types.
    pub fn num_params(&self) -> (n: usize)
        ensures
            n == self@.0.len(),
    {
        proof {
            use_type_invariant(self);
        }
        match &self.overflow {
            Some((p, _)) => p.len(),
            None => Self::count((self.packed >> PARAM_OFFSET_LOG) & PARAM_INDEX_BITS, 20),
        }
    }

    /// Number of result types.
    pub fn num_results(&self) -> (n: usize)
        ensures
            n == self@.1.len(),
    {
        proof {
            use_type_invariant(self);
        }
        match &self.overflow {
            Some((_, r)) => r.len(),
            None => Self::count((self.packed >> RESULT_OFFSET_LOG) & RESULT_INDEX_BITS, 2),
        }
    }

    /// Iterators over the parameter and the result types.
    pub fn type_iter(&self) -> (r: (FuncTypeIter, FuncTypeIter))
        ensures
            r.0@ == self@.0,
            r.1@ == self@.1,
    {
        (self.params_iter(), self.results_iter())
    }

    /// The text of the type: `[params] -> [results]`, each list separated by `, `.
    pub fn to_text(&self) -> (s: String)
        ensures
            s@ == functype_text(self@.0, self@.1),
    {
        let params = self.params();
        let results = self.results();
        let mut s = String::from_str("[");
        append_types(&mut s, &params);
        s.append("] -> [");
        append_types(&mut s, &results);
        s.append("]");
        proof {
            reveal_strlit("[");
            reveal_strlit("] -> [");
            reveal_strlit("]");
        }
        s
    }

    /// The parameter types.
    pub fn params(&self) -> (v: Vec<ValType>)
        ensures
            v@ == self@.0,
    {
        proof {
            use_type_invariant(self);
        }
        match &self.overflow {
            Some((p, _)) => copy_types(p),
            None => self.params_iter().collect_vec(),
        }
    }

    /// The result types.
    pub fn results(&self) -> (v: Vec<ValType>)
        ensures
            v@ == self@.1,
    {
        proof {
            use_type_invariant(self);
        }
        match &self.overflow {
            Some((_, r)) => copy_types(r),
            None => self.results_iter().collect_vec(),
        }
    }

    /// The parameter and the result types.
    pub fn types(&self) -> (t: (Vec<ValType>, Vec<ValType>))
        ensures
            t.0@ == self@.0,
            t.1@ == self@.1,
    {
        (self.params(), self.results())
    }

    /// Whether two function types have the same parameters and results.
    pub fn same_as(&self, other: &FuncType) -> (r: bool)
        ensures
            r == (self@ == other@),
    {
        proof {
            use_type_invariant(self);
            use_type_invariant(other);
        }
        match (&self.overflow, &other.overflow) {
            (None, None) => {
                proof {
                    let a = self.packed;
                    let b = other.packed;
                    if self@ == other@ {
                        assert(param_bits(a) == param_bits(b));
                        assert(result_bits(a) == result_bits(b));
                    }
                }
                self.packed == other.packed
            },
            (Some((p1, r1)), Some((p2, r2))) => vec_eq(p1, p2) && vec_eq(r1, r2),
            (None, Some((p2, r2))) => {
                proof {
                    if self@ == other@ {
                        assert(dec(param_bits(self.packed) as nat, 20).len() <= 20);
                    }
                }
                false
            },
            (Some((p1, r1)), None) => {
                proof {
                    if self@ == other@ {
                        assert(dec(param_bits(other.packed) as nat, 20).len() <= 20);
                    }
                }
                false
            },
        }
    }
}

impl View for FuncType {
    type V = (Seq<ValType>, Seq<ValType>);

    open spec fn view(&self) -> (Seq<ValType>, Seq<ValType>) {
        (self.params_spec(), self.results_spec())
    }
}

impl PartialEq for FuncType {
    fn eq(&self, other: &Self) -> (r: bool) {
        self.same_as(other)
    }
}

impl vstd::std_specs::cmp::PartialEqSpecImpl for FuncType {
    open spec fn obeys_eq_spec() -> bool {
        true
    }

    open spec fn eq_spec(&self, other: &FuncType) -> bool {
        self@ == other@
    }
}

impl Default for FuncType {
    fn default() -> (r: Self)
        ensures
            r@.0 == Seq::<ValType>::empty(),
            r@.1 == Seq::<ValType>::empty(),
    {
        proof {
            lemma_pack_zero();
            assert(dec(0, 20) == Seq::<ValType>::empty());
            assert(dec(0, 2) == Seq::<ValType>::empty());
        }
        FuncType { packed: 0, overflow: None }
    }
}

/// A copy of a list of value types.
/// The names of `ts`, separated by `, `.
pub open spec fn types_text(ts: Seq<ValType>) -> Seq<char>
    decreases ts.len(),
{
    if ts.len() == 0 {
        Seq::empty()
    } else if ts.len() == 1 {
        valtype_name(ts[0])@
    } else {
        types_text(ts.drop_last()) + seq![',', ' '] + valtype_name(ts.last())@
    }
}

/// The text of a function type with parameters `p` and results `r`.
pub open spec fn functype_text(p: Seq<ValType>, r: Seq<ValType>) -> Seq<char> {
    seq!['['] + types_text(p) + seq![']', ' ', '-', '>', ' ', '['] + types_text(r) + seq![']']
}

/// Appends the names of `ts`, separated by `, `.
fn append_types(s: &mut String, ts: &Vec<ValType>)
    ensures
        final(s)@ == old(s)@ + types_text(ts@),
{
    let mut k: usize = 0;
    while k < ts.len()
        invariant
            k <= ts@.len(),
            s@ == old(s)@ + types_text(ts@.subrange(0, k as int)),
        decreases ts@.len() - k,
    {
        let ghost before = s@;
        if k > 0 {
            s.append(", ");
            proof {
                reveal_strlit(", ");
            }
        }
        s.append(ts[k].name());
        proof {
            let sub = ts@.subrange(0, k + 1);
            assert(sub.drop_last() =~= ts@.subrange(0, k as int));
            assert(sub.last() == ts@[k as int]);
            if k == 0 {
                assert(types_text(sub) == valtype_name(ts@[0])@);
                assert(ts@.subrange(0, 0).len() == 0);
            }
            assert(s@ =~= old(s)@ + types_text(sub));
        }
        k = k + 1;
    }
    proof {
        assert(ts@.subrange(0, ts@.len() as int) =~= ts@);
    }
}

pub fn copy_types(v: &Vec<ValType>) -> (r: Vec<ValType>)
    ensures
        r@ == v@,
{
    let r = v.clone();
    assert(r@ =~= v@);
    r
}

impl Clone for FuncType {
    fn clone(&self) -> (r: Self)
        ensures
            r@ == self@,
    {
        proof {
            use_type_invariant(self);
        }
        match &self.overflow {
            Some((p, r)) => FuncType { packed: self.packed, overflow: Some((copy_types(p), copy_types(r))) },
            None => FuncType { packed: self.packed, overflow: None },
        }
    }
}

/// Element-wise equality of two lists of value types.
fn vec_eq(a: &Vec<ValType>, b: &Vec<ValType>) -> (r: bool)
    ensures
        r == (a@ == b@),
{
    if a.len() != b.len() {
        return false;
    }
    let mut i: usize = 0;
    while i < a.len()
        invariant
            a.len() == b.len(),
            i <= a.len(),
            forall|j: int| 0 <= j < i ==> a@[j] == b@[j],
        decreases a.len() - i,
    {
        if a[i] != b[i] {
            return false;
        }
        i = i + 1;
    }
    assert(a@ =~= b@);
    true
}

// ------------------------------------------------------------------ FuncTypeIter

#[derive(Debug, Clone, Copy, PartialEq, Eq, Structural)]
pub enum FuncTypeIterKind {
    Param,
    Result,
}

pub open spec fn kind_capacity(kind: FuncTypeIterKind) -> nat {
    match kind {
        FuncTypeIterKind::Param => 20,
        FuncTypeIterKind::Result => 2,
    }
}

/// Yields the parameter or the result types of a function type, in order.
#[derive(Debug)]
pub struct FuncTypeIter {
    idx: u64,
    cnt: usize,
    kind: FuncTypeIterKind,
    overflow: Option<Vec<ValType>>,
}

impl FuncTypeIter {
    #[verifier::type_invariant]
    spec fn wf(self) -> bool {
        match self.overflow {
            None => {
                &&& self.cnt <= kind_capacity(self.kind)
                &&& canonical(self.idx as nat, (kind_capacity(self.kind) - self.cnt) as nat)
            },
            Some(v) => self.cnt <= v.len(),
        }
    }

    /// The types that the iterator has still to yield.
    pub closed spec fn remaining(self) -> Seq<ValType> {
        match self.overflow {
            None => dec(self.idx as nat, (kind_capacity(self.kind) - self.cnt) as nat),
            Some(v) => v@.skip(self.cnt as int),
        }
    }

    fn from_overflow(v: Vec<ValType>) -> (it: Self)
        ensures
            it@ == v@,
    {
        let it = FuncTypeIter { idx: OVERFLOW_MARKER, cnt: 0, kind: FuncTypeIterKind::Param, overflow: Some(v) };
        assert(it.remaining() =~= v@);
        it
    }

    fn from_packed(idx: u64, kind: FuncTypeIterKind) -> (it: Self)
        requires
            canonical(idx as nat, kind_capacity(kind)),
        ensures
            it@ == dec(idx as nat, kind_capacity(kind)),
    {
        FuncTypeIter { idx, cnt: 0, kind, overflow: None }
    }

    /// The next type, or `None` once every type was yielded.
    pub fn next(&mut self) -> (r: Option<ValType>)
        ensures
            old(self)@.len() == 0 ==> r.is_none() && final(self)@ == old(self)@,
            old(self)@.len() > 0 ==> r == Some(old(self)@[0]) && final(self)@ == old(self)@.drop_first(),
    {
        proof {
            use_type_invariant(&*self);
        }
        match &self.overflow {
            Some(v) => {
                if self.cnt < v.len() {
                    let t = v[self.cnt];
                    let ghost old_rem = self.remaining();
                    let nv = copy_types(v);
                    *self = FuncTypeIter { idx: self.idx, cnt: self.cnt + 1, kind: self.kind, overflow: Some(nv) };
                    assert(self.remaining() =~= old_rem.drop_first());
                    Some(t)
                } else {
                    None
                }
            },
            None => {
                if self.idx == 0 {
                    return None;
                }
                let ghost rem = self.remaining();
                let max_num: usize = match self.kind {
                    FuncTypeIterKind::Param => MAX_NUM_PARAMS,
                    FuncTypeIterKind::Result => MAX_NUM_RESULTS,
                };
                let ghost k = (max_num - self.cnt) as nat;
                proof {
                    lemma_dec_enc(rem, k);
                    if rem.len() == 0 {
                        assert(false);
                    }
                    lemma_enc_step(rem, k);
                }
                let mut idx = self.idx - 1;
                let s = geometric_partial_sum(max_num - self.cnt);
                let valtype_idx = idx / s;
                let res = valtype_of_idx(valtype_idx);
                idx = idx - valtype_idx * s;
                proof {
                    lemma_valtype_idx_roundtrip(rem[0]);
                    lemma_enc_canonical(rem.drop_first(), (k - 1) as nat);
                    lemma_dec_enc(rem.drop_first(), (k - 1) as nat);
                }
                *self = FuncTypeIter { idx, cnt: self.cnt + 1, kind: self.kind, overflow: None };
                Some(res)
            },
        }
    }

    /// All remaining types, in order.
    pub fn collect_vec(self) -> (v: Vec<ValType>)
        ensures
            v@ == self@,
    {
        let ghost all = self@;
        let mut it = self;
        let mut out: Vec<ValType> = Vec::new();
        loop
            invariant
                out@ + it@ == all,
                all == self@,
            decreases it@.len(),
        {
            match it.next() {
                Some(t) => {
                    out.push(t);
                },
                None => {
                    assert(it@ =~= Seq::<ValType>::empty());
                    assert(out@ + it@ =~= out@);
                    assert(out@ == all);
                    return out;
                },
            }
            assert(out@ + it@ =~= all);
        }
    }
}

impl View for FuncTypeIter {
    type V = Seq<ValType>;

    open spec fn view(&self) -> Seq<ValType> {
        self.remaining()
    }
}

// ------------------------------------------------------------------ FuncTypeBuilder

/// Builds a function type parameter by parameter and result by result.
#[derive(Debug)]
pub struct FuncTypeBuilder {
    tmp_func_type: u64,
    cnt_in: usize,
    cnt_out: usize,
    overflow: Option<(Vec<ValType>, Vec<ValType>)>,
}

impl FuncTypeBuilder {
    #[verifier::type_invariant]
    spec fn wf(self) -> bool {
        match self.overflow {
            None => {
                let p = param_bits(self.tmp_func_type);
                let r = result_bits(self.tmp_func_type);
                &&& self.tmp_func_type == pack(p, r)
                &&& canonical(p as nat, 20)
                &&& canonical(r as nat, 2)
                &&& self.cnt_in == dec(p as nat, 20).len()
                &&& self.cnt_out == dec(r as nat, 2).len()
            },
            Some((p, r)) => p.len() > 20 || r.len() > 2,
        }
    }

    /// Parameter types added so far.
    pub closed spec fn params_spec(self) -> Seq<ValType> {
        match self.overflow {
            None => dec(param_bits(self.tmp_func_type) as nat, 20),
            Some((p, _)) => p@,
        }
    }

    /// Result types added so far.
    pub closed spec fn results_spec(self) -> Seq<ValType> {
        match self.overflow {
            None => dec(result_bits(self.tmp_func_type) as nat, 2),
            Some((_, r)) => r@,
        }
    }

    pub fn new() -> (b: Self)
        ensures
            b@.0 == Seq::<ValType>::empty(),
            b@.1 == Seq::<ValType>::empty(),
    {
        proof {
            lemma_pack_zero();
            assert(dec(0, 20) == Seq::<ValType>::empty());
            assert(dec(0, 2) == Seq::<ValType>::empty());
        }
        FuncTypeBuilder { tmp_func_type: 0, cnt_in: 0, cnt_out: 0, overflow: None }
    }

    /// Shorthand for `FuncTypeBuilder::new().with_params(params).with_results(results).finish()`.
    pub fn create(params: &[ValType], results: &[ValType]) -> (t: FuncType)
        ensures
            t@ == functype_of(params@, results@),
    {
        let b = FuncTypeBuilder::new();
        let b = b.with_params(params);
        let b = b.with_results(results);
        assert(Seq::<ValType>::empty() + params@ =~= params@);
        assert(Seq::<ValType>::empty() + results@ =~= results@);
        b.finish()
    }

    pub fn with_params(self, params: &[ValType]) -> (b: Self)
        ensures
            b@.0 == self@.0 + params@,
            b@.1 == self@.1,
    {
        let ghost start = self@;
        let mut b = self;
        let mut i: usize = 0;
        while i < params.len()
            invariant
                i <= params.len(),
                b@.0 == start.0 + params@.take(i as int),
                b@.1 == start.1,
            decreases params.len() - i,
        {
            b = b.add_param(params[i]);
            assert(start.0 + params@.take(i + 1) =~= start.0 + params@.take(i as int) + seq![params@[i as int]]);
            i = i + 1;
        }
        assert(params@.take(i as int) =~= params@);
        b
    }

    pub fn add_param(self, val_type: ValType) -> (b: Self)
        ensures
            b@.0 == self@.0.push(val_type),
            b@.1 == self@.1,
    {
        proof {
            use_type_invariant(&self);
        }
        let FuncTypeBuilder { tmp_func_type, cnt_in, cnt_out, overflow } = self;
        match overflow {
            Some((p, r)) => {
                let mut p = p;
                p.push(val_type);
                FuncTypeBuilder { tmp_func_type, cnt_in, cnt_out, overflow: Some((p, r)) }
            },
            None => {
                if cnt_in >= MAX_NUM_PARAMS {
                    let partial = FuncType { packed: tmp_func_type, overflow: None };
                    let (mut p, r) = partial.types();
                    p.push(val_type);
                    FuncTypeBuilder { tmp_func_type, cnt_in, cnt_out, overflow: Some((p, r)) }
                } else {
                    let ghost ps = dec(param_bits(tmp_func_type) as nat, 20);
                    let ghost rb = result_bits(tmp_func_type);
                    let old_idx = (tmp_func_type >> PARAM_OFFSET_LOG) & PARAM_INDEX_BITS;
                    proof {
                        lemma_bits_bounded(tmp_func_type);
                        lemma_enc_push(ps, val_type, 20);
                        lemma_fits(ps.push(val_type), 20);
                        lemma_mul_inequality(valtype_idx(val_type) as int, 6, geo((20 - ps.len()) as nat) as int);
                        lemma_geo_values();
                    }
                    let new_idx = old_idx + idx_of_valtype(val_type) * geometric_partial_sum(
                        MAX_NUM_PARAMS - cnt_in,
                    ) + 1;
                    let mut tmp = tmp_func_type;
                    tmp = tmp ^ (old_idx << PARAM_OFFSET_LOG);
                    tmp = tmp | (new_idx << PARAM_OFFSET_LOG);
                    proof {
                        lemma_replace_param(old_idx, rb, new_idx);
                        lemma_pack(new_idx, rb);
                        lemma_enc_canonical(ps.push(val_type), 20);
                        lemma_dec_enc(ps.push(val_type), 20);
                    }
                    FuncTypeBuilder { tmp_func_type: tmp, cnt_in: cnt_in + 1, cnt_out, overflow: None }
                }
            },
        }
    }

    pub fn with_results(self, results: &[ValType]) -> (b: Self)
        ensures
            b@.0 == self@.0,
            b@.1 == self@.1 + results@,
    {
        let ghost start = self@;
        let mut b = self;
        let mut i: usize = 0;
        while i < results.len()
            invariant
                i <= results.len(),
                b@.0 == start.0,
                b@.1 == start.1 + results@.take(i as int),
            decreases results.len() - i,
        {
            b = b.add_result(results[i]);
            assert(start.1 + results@.take(i + 1) =~= start.1 + results@.take(i as int) + seq![results@[i as int]]);
            i = i + 1;
        }
        assert(results@.take(i as int) =~= results@);
        b
    }

    pub fn add_result(self, val_type: ValType) -> (b: Self)
        ensures
            b@.0 == self@.0,
            b@.1 == self@.1.push(val_type),
    {
        proof {
            use_type_invariant(&self);
        }
        let FuncTypeBuilder { tmp_func_type, cnt_in, cnt_out, overflow } = self;
        match overflow {
            Some((p, r)) => {
                let mut r = r;
                r.push(val_type);
                FuncTypeBuilder { tmp_func_type, cnt_in, cnt_out, overflow: Some((p, r)) }
            },
            None => {
                if cnt_out >= MAX_NUM_RESULTS {
                    let partial = FuncType { packed: tmp_func_type, overflow: None };
                    let (p, mut r) = partial.types();
                    r.push(val_type);
                    FuncTypeBuilder { tmp_func_type, cnt_in, cnt_out, overflow: Some((p, r)) }
                } else {
                    let ghost rs = dec(result_bits(tmp_func_type) as nat, 2);
                    let ghost pb = param_bits(tmp_func_type);
                    let old_idx = (tmp_func_type >> RESULT_OFFSET_LOG) & RESULT_INDEX_BITS;
                    proof {
                        lemma_bits_bounded(tmp_func_type);
                        lemma_enc_push(rs, val_type, 2);
                        lemma_fits(rs.push(val_type), 2);
                        lemma_mul_inequality(valtype_idx(val_type) as int, 6, geo((2 - rs.len()) as nat) as int);
                        lemma_geo_values();
                    }
                    let new_idx = old_idx + idx_of_valtype(val_type) * geometric_partial_sum(
                        MAX_NUM_RESULTS - cnt_out,
                    ) + 1;
                    let mut tmp = tmp_func_type;
                    tmp = tmp ^ (old_idx << RESULT_OFFSET_LOG);
                    tmp = tmp | (new_idx << RESULT_OFFSET_LOG);
                    proof {
                        lemma_replace_result(pb, old_idx, new_idx);
                        lemma_pack(pb, new_idx);
                        lemma_enc_canonical(rs.push(val_type), 2);
                        lemma_dec_enc(rs.push(val_type), 2);
                    }
                    FuncTypeBuilder { tmp_func_type: tmp, cnt_in, cnt_out: cnt_out + 1, overflow: None }
                }
            },
        }
    }

    /// The function type of the parameters and results added.
    pub fn finish(self) -> (t: FuncType)
        ensures
            t@ == self@,
    {
        proof {
            use_type_invariant(&self);
        }
        match self.overflow {
            Some(overflow) => FuncType { packed: OVERFLOW_MARKER, overflow: Some(overflow) },
            None => FuncType { packed: self.tmp_func_type, overflow: None },
        }
    }
}

impl View for FuncTypeBuilder {
    type V = (Seq<ValType>, Seq<ValType>);

    open spec fn view(&self) -> (Seq<ValType>, Seq<ValType>) {
        (self.params_spec(), self.results_spec())
    }
}

impl Default for FuncTypeBuilder {
    fn default() -> (b: Self)
        ensures
            b@.0 == Seq::<ValType>::empty(),
            b@.1 == Seq::<ValType>::empty(),
    {
        FuncTypeBuilder::new()
    }
}

} // verus!
