//! Decoders of the immediates and small structures of the binary format.
use crate::error::ParserError;
use crate::functypes::{FuncType, FuncTypeBuilder};
use crate::ir::MemArg;
use crate::module::ModuleMetadata;
use crate::reader::{LEB_EOF, LEB_OK, WasmBinaryReader, leb, leb_bits, rest, sign_extend};
use crate::types::{
    BlockType, GlobalType, Limits, NumType, RefType, TableType, ValType, valtype_byte,
};
use vstd::prelude::*;

verus! {

/// `(outcome, value, bytes read)` of an unsigned 32-bit LEB128 immediate.
pub open spec fn u32_dec(s: Seq<u8>) -> (nat, u32, nat) {
    let t = leb(s, 32, false);
    (t.0, t.1 as u32, t.2)
}

/// The error that a failed LEB128 decoding reports.
pub open spec fn leb_err(status: nat) -> ParserError {
    if status == LEB_EOF() {
        ParserError::UnexpectedEOF
    } else {
        ParserError::InvalidLEB128Encoding
    }
}

/// `(outcome, memarg, bytes read)`: alignment, then offset.
pub open spec fn memarg_dec(s: Seq<u8>) -> (nat, MemArg, nat) {
    let a = u32_dec(s);
    if a.0 != LEB_OK() {
        (a.0, MemArg { align: 0, offset: 0 }, a.2)
    } else {
        let b = u32_dec(rest(s, a.2 as int));
        (b.0, MemArg { align: a.1, offset: b.1 }, a.2 + b.2)
    }
}

/// `(outcome, first, second, bytes read)` of two unsigned 32-bit LEB128 immediates in a row.
pub open spec fn u32_pair_dec(s: Seq<u8>) -> (nat, u32, u32, nat) {
    let a = u32_dec(s);
    if a.0 != LEB_OK() {
        (a.0, 0, 0, a.2)
    } else {
        let b = u32_dec(rest(s, a.2 as int));
        (b.0, a.1, b.1, a.2 + b.2)
    }
}

/// The value type that a byte encodes.
pub open spec fn valtype_of_byte(b: u8) -> Option<ValType> {
    if b == 0x7F {
        Some(ValType::Number(NumType::I32))
    } else if b == 0x7E {
        Some(ValType::Number(NumType::I64))
    } else if b == 0x7D {
        Some(ValType::Number(NumType::F32))
    } else if b == 0x7C {
        Some(ValType::Number(NumType::F64))
    } else if b == 0x7B {
        Some(ValType::VecType)
    } else if b == 0x70 {
        Some(ValType::Reference(RefType::FunctionReference))
    } else if b == 0x6F {
        Some(ValType::Reference(RefType::ExternReference))
    } else {
        None
    }
}

/// The reference type that a byte encodes.
pub open spec fn reftype_of_byte(b: u8) -> Option<RefType> {
    if b == 0x70 {
        Some(RefType::FunctionReference)
    } else if b == 0x6F {
        Some(RefType::ExternReference)
    } else {
        None
    }
}

/// Every value type is read back from the byte that encodes it.
pub proof fn law_valtype_byte_roundtrip(t: ValType)
    ensures
        valtype_of_byte(valtype_byte(t)) == Some(t),
{
}

/// The reader moved on by `n` bytes over the same source.
pub open spec fn advanced(i0: WasmBinaryReader, i1: WasmBinaryReader, n: nat) -> bool {
    &&& i1.source() == i0.source()
    &&& i1.position() == i0.position() + n
}

/// Reads an unsigned 32-bit LEB128 immediate.
pub fn read_u32_imm(i: &mut WasmBinaryReader) -> (r: Result<u32, ParserError>)
    ensures
        ({
            let d = u32_dec(old(i).remaining());
            &&& advanced(*old(i), *final(i), d.2)
            &&& d.0 == LEB_OK() ==> r == Ok::<u32, ParserError>(d.1)
            &&& d.0 != LEB_OK() ==> r == Err::<u32, ParserError>(leb_err(d.0))
        }),
{
    proof {
        crate::reader::lemma_leb_status(old(i).remaining(), 32, false);
    }
    i.read_leb128_u32()
}

/// Reads a memory immediate: alignment exponent, then offset.
pub fn read_memarg(i: &mut WasmBinaryReader) -> (r: Result<MemArg, ParserError>)
    ensures
        ({
            let d = memarg_dec(old(i).remaining());
            &&& advanced(*old(i), *final(i), d.2)
            &&& d.0 == LEB_OK() ==> r == Ok::<MemArg, ParserError>(d.1)
            &&& d.0 != LEB_OK() ==> r == Err::<MemArg, ParserError>(leb_err(d.0))
        }),
{
    let ghost s = i.remaining();
    let align = read_u32_imm(i)?;
    proof {
        lemma_rest_advance(old(i).source(), old(i).position(), u32_dec(s).2);
    }
    let offset = read_u32_imm(i)?;
    Ok(MemArg { align, offset })
}

/// Reads two unsigned 32-bit LEB128 immediates in a row.
pub fn read_u32_pair(i: &mut WasmBinaryReader) -> (r: Result<(u32, u32), ParserError>)
    ensures
        ({
            let d = u32_pair_dec(old(i).remaining());
            &&& advanced(*old(i), *final(i), d.3)
            &&& d.0 == LEB_OK() ==> r == Ok::<(u32, u32), ParserError>((d.1, d.2))
            &&& d.0 != LEB_OK() ==> r == Err::<(u32, u32), ParserError>(leb_err(d.0))
        }),
{
    let ghost s = i.remaining();
    let a = read_u32_imm(i)?;
    proof {
        lemma_rest_advance(old(i).source(), old(i).position(), u32_dec(s).2);
    }
    let b = read_u32_imm(i)?;
    Ok((a, b))
}

/// Skipping `n` bytes of what is left from `pos` leaves what is left from `pos + n`.
pub proof fn lemma_rest_advance(src: Seq<u8>, pos: int, n: nat)
    requires
        0 <= pos,
    ensures
        rest(rest(src, pos), n as int) == rest(src, pos + n) || pos + n > src.len(),
{
    if pos <= src.len() && pos + n <= src.len() {
        assert(rest(rest(src, pos), n as int) =~= rest(src, pos + n));
    }
}

/// Reads a value type.
pub fn read_valtype(i: &mut WasmBinaryReader) -> (r: Result<ValType, ParserError>)
    ensures
        final(i).source() == old(i).source(),
        old(i).remaining().len() == 0 ==> r == Err::<ValType, ParserError>(
            ParserError::UnexpectedEOF,
        ) && final(i).position() == old(i).position(),
        old(i).remaining().len() > 0 ==> {
            let b = old(i).remaining()[0];
            &&& final(i).position() == old(i).position() + 1
            &&& valtype_of_byte(b) matches Some(t) ==> r == Ok::<ValType, ParserError>(t)
            &&& valtype_of_byte(b) is None ==> r == Err::<ValType, ParserError>(
                ParserError::InvalidEncoding,
            )
        },
{
    proof {
        old(i).lemma_position();
    }
    let b = i.read_byte()?;
    match b {
        0x7F => Ok(ValType::i32()),
        0x7E => Ok(ValType::i64()),
        0x7D => Ok(ValType::float32()),
        0x7C => Ok(ValType::float64()),
        0x7B => Ok(ValType::vec()),
        0x70 => Ok(ValType::funcref()),
        0x6F => Ok(ValType::externref()),
        _ => Err(ParserError::InvalidEncoding),
    }
}

/// Reads a reference type.
pub fn read_reftype(i: &mut WasmBinaryReader) -> (r: Result<RefType, ParserError>)
    ensures
        final(i).source() == old(i).source(),
        old(i).remaining().len() == 0 ==> r == Err::<RefType, ParserError>(
            ParserError::UnexpectedEOF,
        ) && final(i).position() == old(i).position(),
        old(i).remaining().len() > 0 ==> {
            let b = old(i).remaining()[0];
            &&& final(i).position() == old(i).position() + 1
            &&& reftype_of_byte(b) matches Some(t) ==> r == Ok::<RefType, ParserError>(t)
            &&& reftype_of_byte(b) is None ==> r == Err::<RefType, ParserError>(
                ParserError::InvalidEncoding,
            )
        },
{
    proof {
        old(i).lemma_position();
    }
    let b = i.read_byte()?;
    match b {
        0x70 => Ok(RefType::FunctionReference),
        0x6F => Ok(RefType::ExternReference),
        _ => Err(ParserError::InvalidEncoding),
    }
}

/// The outcome of a block type whose type index is out of range.
pub open spec fn BT_BAD_INDEX() -> nat {
    3
}

/// `(outcome, block type, bytes read)` of a block type, for a module with `ntypes` function
/// types: `0x40` for none, a value type for a single result, or the index of a function type as
/// a signed LEB128 number.
pub open spec fn blocktype_dec(s: Seq<u8>, ntypes: nat) -> (nat, BlockType, nat) {
    if s.len() == 0 {
        (LEB_EOF(), BlockType::Empty, 0)
    } else if s[0] == 0x40 {
        (LEB_OK(), BlockType::Empty, 1)
    } else if valtype_of_byte(s[0]) is Some {
        (LEB_OK(), BlockType::ShorthandFunc(valtype_of_byte(s[0])->0), 1)
    } else {
        let t = leb(s, 64, true);
        let v = sign_extend(t.1, leb_bits(t.2, 64));
        if t.0 != LEB_OK() {
            (t.0, BlockType::Empty, t.2)
        } else if v < 0 || v >= ntypes {
            (BT_BAD_INDEX(), BlockType::Empty, t.2)
        } else {
            (LEB_OK(), BlockType::FunctionSig(v as u32), t.2)
        }
    }
}

/// The result that reading a block type gives for an outcome.
pub open spec fn blocktype_result(d: (nat, BlockType, nat), r: Result<BlockType, ParserError>) -> bool {
    &&& d.0 == LEB_OK() ==> r == Ok::<BlockType, ParserError>(d.1)
    &&& r is Ok ==> d.0 == LEB_OK()
    &&& d.0 == LEB_EOF() || d.0 == crate::reader::LEB_INVALID() ==> r == Err::<BlockType, ParserError>(leb_err(d.0))
    &&& d.0 == BT_BAD_INDEX() ==> (r matches Err(ParserError::Msg(_)))
}

/// Reads a block type (see `blocktype_dec`).
pub fn read_blocktype(i: &mut WasmBinaryReader, module: &ModuleMetadata) -> (r: Result<
    BlockType,
    ParserError,
>)
    ensures
        ({
            let d = blocktype_dec(old(i).remaining(), module.function_types@.len());
            &&& advanced(*old(i), *final(i), d.2)
            &&& blocktype_result(d, r)
        }),
        r matches Ok(BlockType::FunctionSig(idx)) ==> idx < module.function_types@.len(),
{
    proof {
        old(i).lemma_position();
        crate::reader::lemma_leb_status(old(i).remaining(), 64, true);
    }
    let b = i.peek_byte()?;
    if b == 0x40 {
        let _ = i.read_byte();
        return Ok(BlockType::Empty);
    }
    if ValType::is_valtype_byte(b) {
        let t = read_valtype(i)?;
        return Ok(BlockType::ShorthandFunc(t));
    }
    let v = i.read_leb128_i64()?;
    if v < 0 || v as u64 >= module.function_types.len() as u64 {
        return Err(ParserError::msg("invalid block type"));
    }
    Ok(BlockType::FunctionSig(v as u32))
}

/// The outcome of a byte that encodes no admissible value.
pub open spec fn ENC_INVALID() -> nat {
    4
}

/// The outcome of limits whose minimum lies above their maximum.
pub open spec fn MIN_GT_MAX() -> nat {
    5
}

/// The outcome of a malformed structure that is reported with a message.
pub open spec fn MALFORMED() -> nat {
    6
}

/// The error that a failed decoding reports.
pub open spec fn dec_err(status: nat) -> ParserError {
    if status == ENC_INVALID() {
        ParserError::InvalidEncoding
    } else if status == MIN_GT_MAX() {
        ParserError::LimitsMinimumGreaterThanMaximum
    } else {
        leb_err(status)
    }
}

/// What a decoder returns for an outcome: the value, the error of the outcome, or an error with
/// a message.
pub open spec fn dec_result<T>(status: nat, value: T, r: Result<T, ParserError>) -> bool {
    &&& status == LEB_OK() ==> r == Ok::<T, ParserError>(value)
    &&& (status == LEB_EOF() || status == crate::reader::LEB_INVALID() || status == ENC_INVALID()
        || status == MIN_GT_MAX()) ==> r == Err::<T, ParserError>(dec_err(status))
    &&& (status == BT_BAD_INDEX() || status == MALFORMED()) ==> (r matches Err(ParserError::Msg(_)))
    &&& r is Ok ==> status == LEB_OK()
}

/// `(outcome, value type, bytes read)` of one value type byte.
pub open spec fn valtype_dec(s: Seq<u8>) -> (nat, ValType, nat) {
    if s.len() == 0 {
        (LEB_EOF(), ValType::VecType, 0)
    } else if valtype_of_byte(s[0]) is Some {
        (LEB_OK(), valtype_of_byte(s[0])->0, 1)
    } else {
        (ENC_INVALID(), ValType::VecType, 1)
    }
}

/// `(outcome, limits, bytes read)`: a flag byte, the minimum and, if the flag is `1`, the maximum.
pub open spec fn limits_dec(s: Seq<u8>) -> (nat, Limits, nat) {
    let none = Limits { min: 0, max: None };
    if s.len() == 0 {
        (LEB_EOF(), none, 0)
    } else if s[0] == 0 {
        let a = u32_dec(rest(s, 1));
        if a.0 != LEB_OK() {
            (a.0, none, 1 + a.2)
        } else {
            (LEB_OK(), Limits { min: a.1, max: None }, 1 + a.2)
        }
    } else if s[0] == 1 {
        let a = u32_dec(rest(s, 1));
        if a.0 != LEB_OK() {
            (a.0, none, 1 + a.2)
        } else {
            let b = u32_dec(rest(s, (1 + a.2) as int));
            if b.0 != LEB_OK() {
                (b.0, none, 1 + a.2 + b.2)
            } else if a.1 > b.1 {
                (MIN_GT_MAX(), none, 1 + a.2 + b.2)
            } else {
                (LEB_OK(), Limits { min: a.1, max: Some(b.1) }, 1 + a.2 + b.2)
            }
        }
    } else {
        (ENC_INVALID(), none, 1)
    }
}

/// Reads size limits (see `limits_dec`).
pub fn read_limits(i: &mut WasmBinaryReader) -> (r: Result<Limits, ParserError>)
    ensures
        ({
            let d = limits_dec(old(i).remaining());
            &&& advanced(*old(i), *final(i), d.2)
            &&& dec_result(d.0, d.1, r)
        }),
        r matches Ok(l) ==> (l.max matches Some(m) ==> l.min <= m),
{
    let ghost s = old(i).remaining();
    let ghost p = old(i).position();
    proof {
        old(i).lemma_position();
        crate::reader::lemma_leb_status(rest(s, 1), 32, false);
    }
    let flag = i.read_byte()?;
    proof {
        lemma_rest_advance(i.source(), p, 1);
    }
    match flag {
        0x00 => {
            let min = read_u32_imm(i)?;
            Ok(Limits { min, max: None })
        },
        0x01 => {
            let min = read_u32_imm(i)?;
            proof {
                let a = u32_dec(rest(s, 1));
                lemma_rest_advance(i.source(), p, 1 + a.2);
                lemma_rest_advance(s, 1, a.2);
                crate::reader::lemma_leb_status(rest(s, (1 + a.2) as int), 32, false);
                crate::reader::lemma_leb_status(rest(s, 1), 32, false);
            }
            let max = read_u32_imm(i)?;
            if min > max {
                return Err(ParserError::LimitsMinimumGreaterThanMaximum);
            }
            Ok(Limits { min, max: Some(max) })
        },
        _ => Err(ParserError::InvalidEncoding),
    }
}

/// `(outcome, table type, bytes read)`: a reference type byte, then limits.
pub open spec fn tabletype_dec(s: Seq<u8>) -> (nat, TableType, nat) {
    let none = TableType { ref_type: RefType::FunctionReference, lim: Limits { min: 0, max: None } };
    if s.len() == 0 {
        (LEB_EOF(), none, 0)
    } else if reftype_of_byte(s[0]) is None {
        (ENC_INVALID(), none, 1)
    } else {
        let l = limits_dec(rest(s, 1));
        (l.0, TableType { ref_type: reftype_of_byte(s[0])->0, lim: l.1 }, 1 + l.2)
    }
}

/// Limits and table types fail only with an end of input, a bad LEB128 number, a bad
/// reference type byte or a minimum above the maximum.
pub proof fn lemma_limits_status(s: Seq<u8>)
    ensures
        limits_dec(s).0 <= MIN_GT_MAX(),
        tabletype_dec(s).0 <= MIN_GT_MAX(),
{
    if s.len() > 0 {
        crate::reader::lemma_leb_status(rest(s, 1), 32, false);
        let a = u32_dec(rest(s, 1));
        crate::reader::lemma_leb_status(rest(s, (1 + a.2) as int), 32, false);
        let s1 = rest(s, 1);
        if s1.len() > 0 {
            crate::reader::lemma_leb_status(rest(s1, 1), 32, false);
            let b = u32_dec(rest(s1, 1));
            crate::reader::lemma_leb_status(rest(s1, (1 + b.2) as int), 32, false);
        }
    }
}

/// Reads a table type (see `tabletype_dec`).
pub fn read_tabletype(i: &mut WasmBinaryReader) -> (r: Result<TableType, ParserError>)
    ensures
        ({
            let d = tabletype_dec(old(i).remaining());
            &&& advanced(*old(i), *final(i), d.2)
            &&& r is Ok ==> r == Ok::<TableType, ParserError>(d.1)
            &&& d.0 != LEB_OK() ==> dec_result(d.0, d.1, r)
            &&& d.0 == LEB_OK() ==> r is Ok
        }),
{
    let ghost s = old(i).remaining();
    let ghost p = old(i).position();
    proof {
        old(i).lemma_position();
    }
    let ref_type = read_reftype(i)?;
    proof {
        lemma_rest_advance(i.source(), p, 1);
    }
    let lim = read_limits(i)?;
    Ok(TableType { ref_type, lim })
}

/// `(outcome, global type, bytes read)`: a value type byte, then `0` (constant) or `1` (mutable).
pub open spec fn globaltype_dec(s: Seq<u8>) -> (nat, GlobalType, nat) {
    let none = GlobalType::Const(ValType::VecType);
    let t = valtype_dec(s);
    if t.0 != LEB_OK() {
        (t.0, none, t.2)
    } else if s.len() < 2 {
        (LEB_EOF(), none, 1)
    } else if s[1] == 0 {
        (LEB_OK(), GlobalType::Const(t.1), 2)
    } else if s[1] == 1 {
        (LEB_OK(), GlobalType::Mut(t.1), 2)
    } else {
        (ENC_INVALID(), none, 2)
    }
}

/// Reads a global type (see `globaltype_dec`).
pub fn read_globaltype(i: &mut WasmBinaryReader) -> (r: Result<GlobalType, ParserError>)
    ensures
        ({
            let d = globaltype_dec(old(i).remaining());
            &&& advanced(*old(i), *final(i), d.2)
            &&& dec_result(d.0, d.1, r)
        }),
{
    proof {
        old(i).lemma_position();
    }
    let t = read_valtype(i)?;
    proof {
        i.lemma_position();
    }
    let m = i.read_byte()?;
    match m {
        0x00 => Ok(GlobalType::Const(t)),
        0x01 => Ok(GlobalType::Mut(t)),
        _ => Err(ParserError::InvalidEncoding),
    }
}

/// `(outcome, types, bytes read)` of `n` value type bytes; decoding stops at the first bad one.
pub open spec fn valtype_seq_dec(s: Seq<u8>, n: nat) -> (nat, Seq<ValType>, nat)
    decreases n,
{
    if n == 0 {
        (LEB_OK(), Seq::empty(), 0)
    } else {
        let a = valtype_dec(s);
        if a.0 != LEB_OK() {
            (a.0, Seq::empty(), a.2)
        } else {
            let b = valtype_seq_dec(rest(s, 1), (n - 1) as nat);
            (b.0, seq![a.1] + b.1, 1 + b.2)
        }
    }
}

/// `(outcome, types, bytes read)` of a vector of value types: a count, then the types.
pub open spec fn valtypes_dec(s: Seq<u8>) -> (nat, Seq<ValType>, nat) {
    let c = u32_dec(s);
    if c.0 != LEB_OK() {
        (c.0, Seq::empty(), c.2)
    } else {
        let d = valtype_seq_dec(rest(s, c.2 as int), c.1 as nat);
        (d.0, d.1, c.2 + d.2)
    }
}

/// Reads a vector of value types (see `valtypes_dec`).
pub fn read_valtypes(i: &mut WasmBinaryReader) -> (r: Result<Vec<ValType>, ParserError>)
    ensures
        ({
            let d = valtypes_dec(old(i).remaining());
            &&& advanced(*old(i), *final(i), d.2)
            &&& d.0 == LEB_OK() ==> (r matches Ok(v) && v@ == d.1)
            &&& d.0 != LEB_OK() ==> r == Err::<Vec<ValType>, ParserError>(dec_err(d.0))
        }),
{
    let ghost s0 = old(i).remaining();
    let ghost p0 = old(i).position();
    proof {
        old(i).lemma_position();
        crate::reader::lemma_leb_status(s0, 32, false);
    }
    let n = read_u32_imm(i)?;
    proof {
        lemma_rest_advance(i.source(), p0, u32_dec(s0).2);
    }
    let ghost s1 = i.remaining();
    let ghost p1 = i.position();
    let mut v: Vec<ValType> = Vec::new();
    let mut k: u32 = 0;
    while k < n
        invariant
            k <= n,
            i.source() == old(i).source(),
            p0 == old(i).position(),
            s0 == old(i).remaining(),
            u32_dec(s0).0 == LEB_OK(),
            n == u32_dec(s0).1,
            p1 == p0 + u32_dec(s0).2,
            s1 == rest(s0, u32_dec(s0).2 as int),
            i.position() == p1 + k,
            ({
                let t = valtype_seq_dec(i.remaining(), (n - k) as nat);
                valtype_seq_dec(s1, n as nat) == (t.0, v@ + t.1, (k + t.2) as nat)
            }),
        decreases n - k,
    {
        let ghost cur = i.remaining();
        let ghost pos = i.position();
        proof {
            i.lemma_position();
            lemma_rest_advance(i.source(), pos, 1);
        }
        let t = match read_valtype(i) {
            Ok(t) => t,
            Err(e) => {
                proof {
                    assert(v@ + Seq::<ValType>::empty() =~= v@);
                }
                return Err(e);
            },
        };
        proof {
            let b = valtype_seq_dec(i.remaining(), (n - k - 1) as nat);
            assert(v@.push(t) + b.1 =~= v@ + (seq![t] + b.1));
        }
        v.push(t);
        k = k + 1;
    }
    proof {
        assert(v@ + Seq::<ValType>::empty() =~= v@);
    }
    Ok(v)
}

/// `(outcome, (parameters, results), bytes read)` of a function type: `0x60`, the parameter
/// types, then the result types.
pub open spec fn functype_dec(s: Seq<u8>) -> (nat, (Seq<ValType>, Seq<ValType>), nat) {
    let none = (Seq::<ValType>::empty(), Seq::<ValType>::empty());
    if s.len() == 0 {
        (LEB_EOF(), none, 0)
    } else if s[0] != 0x60 {
        (MALFORMED(), none, 1)
    } else {
        let p = valtypes_dec(rest(s, 1));
        if p.0 != LEB_OK() {
            (p.0, none, 1 + p.2)
        } else {
            let q = valtypes_dec(rest(s, (1 + p.2) as int));
            (q.0, (p.1, q.1), 1 + p.2 + q.2)
        }
    }
}

/// Reads a function type (see `functype_dec`).
pub fn read_functype(i: &mut WasmBinaryReader) -> (r: Result<FuncType, ParserError>)
    ensures
        ({
            let d = functype_dec(old(i).remaining());
            &&& advanced(*old(i), *final(i), d.2)
            &&& d.0 == LEB_OK() ==> (r matches Ok(ft) && ft@ == d.1)
            &&& d.0 == MALFORMED() ==> (r matches Err(ParserError::Msg(_)))
            &&& d.0 != LEB_OK() && d.0 != MALFORMED() ==> r == Err::<FuncType, ParserError>(dec_err(d.0))
        }),
{
    let ghost s = old(i).remaining();
    let ghost p = old(i).position();
    proof {
        old(i).lemma_position();
    }
    let tag = i.read_byte()?;
    if tag != 0x60 {
        return Err(ParserError::msg("invalid function type"));
    }
    proof {
        lemma_rest_advance(i.source(), p, 1);
        assert(i.remaining() == rest(s, 1));
    }
    proof {
        lemma_valtypes_dec_len(rest(s, 1));
    }
    let params = read_valtypes(i)?;
    proof {
        let a = valtypes_dec(rest(s, 1));
        lemma_valtypes_dec_len(rest(s, 1));
        lemma_rest_advance(i.source(), p, 1 + a.2);
        lemma_rest_advance(s, 1, a.2);
        assert(i.position() == p + 1 + a.2);
        assert(p + 1 + a.2 <= i.source().len());
        assert(i.remaining() == rest(s, (1 + a.2) as int));
    }
    proof {
        lemma_valtypes_dec_len(i.remaining());
    }
    let results = read_valtypes(i)?;
    let ft = FuncTypeBuilder::create(params.as_slice(), results.as_slice());
    proof {
        assert(ft@ == functype_dec(s).1);
    }
    Ok(ft)
}

proof fn lemma_valtype_seq_dec_len(s: Seq<u8>, n: nat)
    ensures
        valtype_seq_dec(s, n).2 <= s.len(),
        valtype_seq_dec(s, n).0 == LEB_OK() || valtype_seq_dec(s, n).0 == LEB_EOF()
            || valtype_seq_dec(s, n).0 == ENC_INVALID(),
    decreases n,
{
    if n > 0 && s.len() > 0 && valtype_of_byte(s[0]) is Some {
        lemma_valtype_seq_dec_len(rest(s, 1), (n - 1) as nat);
    }
}

proof fn lemma_valtypes_dec_len(s: Seq<u8>)
    ensures
        valtypes_dec(s).2 <= s.len(),
        valtypes_dec(s).0 != MALFORMED(),
{
    crate::reader::lemma_leb_status(s, 32, false);
    let c = u32_dec(s);
    if c.0 == LEB_OK() {
        lemma_valtype_seq_dec_len(rest(s, c.2 as int), c.1 as nat);
    }
}

/// `(outcome, bytes, bytes read)` of a byte vector: a count, then that many bytes.
pub open spec fn bytes_dec(s: Seq<u8>) -> (nat, Seq<u8>, nat) {
    let d = u32_dec(s);
    if d.0 != LEB_OK() {
        (d.0, Seq::empty(), d.2)
    } else if d.2 + d.1 > s.len() {
        (LEB_EOF(), Seq::empty(), d.2)
    } else {
        (LEB_OK(), s.subrange(d.2 as int, d.2 + d.1), (d.2 + d.1) as nat)
    }
}

/// `(outcome, name, bytes read)` of a name: a byte vector that must be UTF-8.
pub open spec fn name_dec(s: Seq<u8>) -> (nat, Seq<char>, nat) {
    let b = bytes_dec(s);
    if b.0 != LEB_OK() {
        (b.0, Seq::empty(), b.2)
    } else if !vstd::utf8::valid_utf8(b.1) {
        (MALFORMED(), Seq::empty(), b.2)
    } else {
        (LEB_OK(), vstd::utf8::decode_utf8(b.1), b.2)
    }
}

/// The outcome of a constant expression that is malformed or not supported.
pub open spec fn CONST_BAD() -> nat {
    7
}

/// The error that a decoding that failed with outcome `status` returns.
pub open spec fn dec_failed<T>(status: nat, r: Result<T, ParserError>) -> bool {
    &&& r is Err
    &&& status == CONST_BAD() ==> (r matches Err(ParserError::ConstantExpressionError(_)))
    &&& (status == LEB_EOF() || status == crate::reader::LEB_INVALID() || status == ENC_INVALID()
        || status == MIN_GT_MAX()) ==> r == Err::<T, ParserError>(dec_err(status))
    &&& (status == BT_BAD_INDEX() || status == MALFORMED()) ==> (r matches Err(ParserError::Msg(_)))
}

/// Reads a name: a byte count, then that many bytes, which must be UTF-8.
pub fn read_name(i: &mut WasmBinaryReader) -> (r: Result<String, ParserError>)
    ensures
        final(i).source() == old(i).source(),
        final(i).position() >= old(i).position(),
        ({
            let d = u32_dec(old(i).remaining());
            let bytes = rest(old(i).source(), old(i).position() + d.2).take(d.1 as int);
            &&& d.0 != LEB_OK() ==> r == Err::<String, ParserError>(leb_err(d.0))
            &&& r is Ok ==> d.0 == LEB_OK() && final(i).position() == old(i).position() + d.2 + d.1
                && vstd::utf8::valid_utf8(bytes)
            &&& r matches Ok(s) ==> s@ == vstd::utf8::decode_utf8(bytes)
            &&& d.0 == LEB_OK() && old(i).position() + d.2 + d.1 <= old(i).source().len()
                && !vstd::utf8::valid_utf8(bytes) ==> (r matches Err(ParserError::Msg(_)))
            &&& d.0 == LEB_OK() && old(i).position() + d.2 + d.1 > old(i).source().len() ==> r
                == Err::<String, ParserError>(ParserError::UnexpectedEOF)
        }),
        ({
            let n = name_dec(old(i).remaining());
            &&& n.0 == LEB_OK() ==> (r matches Ok(st) && st@ == n.1) && final(i).position() == old(i).position() + n.2
            &&& n.0 != LEB_OK() ==> dec_failed(n.0, r)
        }),
{
    proof {
        old(i).lemma_position();
        crate::reader::lemma_leb_status(old(i).remaining(), 32, false);
        let d = u32_dec(old(i).remaining());
        if d.0 == LEB_OK() && old(i).position() + d.2 + d.1 <= old(i).source().len() {
            assert(rest(old(i).source(), old(i).position() + d.2).take(d.1 as int) =~= old(i).remaining().subrange(
                d.2 as int,
                d.2 + d.1,
            ));
        }
    }
    let bytes = read_bytes(i)?;
    match string_from_utf8(bytes) {
        Some(s) => Ok(s),
        None => Err(ParserError::msg("malformed UTF-8 encoding")),
    }
}

/// Reads a vector of bytes: a count, then that many bytes.
pub fn read_bytes(i: &mut WasmBinaryReader) -> (r: Result<Vec<u8>, ParserError>)
    ensures
        final(i).source() == old(i).source(),
        final(i).position() >= old(i).position(),
        ({
            let d = u32_dec(old(i).remaining());
            &&& d.0 != LEB_OK() ==> r == Err::<Vec<u8>, ParserError>(leb_err(d.0))
            &&& d.0 == LEB_OK() && old(i).position() + d.2 + d.1 > old(i).source().len() ==> r
                == Err::<Vec<u8>, ParserError>(ParserError::UnexpectedEOF)
            &&& d.0 == LEB_OK() && old(i).position() + d.2 + d.1 <= old(i).source().len() ==> r is Ok
        }),
        r matches Ok(v) ==> {
            let d = u32_dec(old(i).remaining());
            &&& d.0 == LEB_OK()
            &&& v@.len() == d.1
            &&& v@ == rest(old(i).source(), old(i).position() + d.2).take(d.1 as int)
            &&& final(i).position() == old(i).position() + d.2 + d.1
        },
{
    proof {
        old(i).lemma_position();
        crate::reader::lemma_leb_status(old(i).remaining(), 32, false);
    }
    let n = read_u32_imm(i)?;
    let ghost start = i.position();
    let mut v: Vec<u8> = Vec::new();
    let mut k: u32 = 0;
    proof {
        i.lemma_position();
        assert(v@ =~= rest(i.source(), start).take(0));
    }
    while k < n
        invariant
            i.source() == old(i).source(),
            start == i.position() - k,
            start >= old(i).position(),
            start >= 0,
            k <= n,
            v@.len() == k,
            k > 0 ==> start + k <= i.source().len(),
            v@ == rest(i.source(), start).take(k as int),
            u32_dec(old(i).remaining()).0 == LEB_OK(),
            n == u32_dec(old(i).remaining()).1,
            start == old(i).position() + u32_dec(old(i).remaining()).2,
        decreases n - k,
    {
        proof {
            i.lemma_position();
        }
        let b = i.read_byte()?;
        v.push(b);
        proof {
            assert(v@ =~= rest(i.source(), start).take(k + 1));
        }
        k = k + 1;
    }
    Ok(v)
}

/// `String::from_utf8`: the string of the bytes when they are valid UTF-8.
#[verifier::external_body]
fn string_from_utf8(bytes: Vec<u8>) -> (r: Option<String>)
    ensures
        r is Some <==> vstd::utf8::valid_utf8(bytes@),
        r matches Some(s) ==> s@ == vstd::utf8::decode_utf8(bytes@),
{
    String::from_utf8(bytes).ok()
}

} // verus!
