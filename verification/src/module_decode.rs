//! Decoders of the entries of module sections: imports, exports, tables, memories, globals,
//! constant expressions and element segments.
use crate::decode::{
    CONST_BAD, ENC_INVALID, MALFORMED, advanced, dec_failed, name_dec, dec_err, dec_result, globaltype_dec, leb_err, limits_dec, lemma_rest_advance,
    read_globaltype, read_limits, read_name, read_reftype, read_tabletype, read_u32_imm,
    reftype_of_byte, bytes_dec, read_bytes, tabletype_dec, lemma_limits_status, u32_dec,
};
use crate::error::{ConstantExpressionError, ParserError};
use crate::module::{
    ConstantValue, Data, DataMode, ElemMode, Element, ElementInit, Export, ExportDesc, Global, Import,
    Memory, ModuleMetadata, Number, Reference, Table, Value,
};
use crate::reader::{LEB_EOF, LEB_OK, WasmBinaryReader, le_u32, le_u64, leb, leb_bits, rest, sign_extend};
use crate::types::{FuncIdx, GlobalType, ImportDesc, RefType, Section, section_of_id};
use vstd::prelude::*;

verus! {

/// The reader went on over the same source.
pub open spec fn progressed(i0: WasmBinaryReader, i1: WasmBinaryReader) -> bool {
    &&& i1.source() == i0.source()
    &&& i1.position() >= i0.position()
}

/// Reads a section id.
pub fn read_section(i: &mut WasmBinaryReader) -> (r: Result<Section, ParserError>)
    ensures
        final(i).source() == old(i).source(),
        old(i).remaining().len() == 0 ==> r == Err::<Section, ParserError>(ParserError::UnexpectedEOF)
            && final(i).position() == old(i).position(),
        old(i).remaining().len() > 0 ==> final(i).position() == old(i).position() + 1 && (
        section_of_id(old(i).remaining()[0]) matches Some(s) ==> r == Ok::<Section, ParserError>(s))
            && (section_of_id(old(i).remaining()[0]) is None ==> r == Err::<Section, ParserError>(
            ParserError::InvalidEncoding,
        )),
{
    proof {
        old(i).lemma_position();
    }
    let id = i.read_byte()?;
    match Section::from_id(id) {
        Some(s) => Ok(s),
        None => Err(ParserError::InvalidEncoding),
    }
}

/// `(outcome, (module name, name, descriptor), bytes read)` of an import: module name, name,
/// then a kind byte and a descriptor (`0` function type index, `1` table type, `2` memory
/// limits, `3` global type, whose index the module parser assigns later).
pub open spec fn import_dec(s: Seq<u8>) -> (nat, (Seq<char>, Seq<char>, ImportDesc), nat) {
    let none = (Seq::<char>::empty(), Seq::<char>::empty(), ImportDesc::Func(0));
    let m = name_dec(s);
    if m.0 != LEB_OK() {
        (m.0, none, m.2)
    } else {
        let n = name_dec(rest(s, m.2 as int));
        let o = m.2 + n.2;
        if n.0 != LEB_OK() {
            (n.0, none, o)
        } else if o >= s.len() {
            (LEB_EOF(), none, o)
        } else {
            let kind = s[o as int];
            let s2 = rest(s, (o + 1) as int);
            if kind == 0 {
                let d = u32_dec(s2);
                (d.0, (m.1, n.1, ImportDesc::Func(d.1)), o + 1 + d.2)
            } else if kind == 1 {
                let d = tabletype_dec(s2);
                (d.0, (m.1, n.1, ImportDesc::Table(d.1)), o + 1 + d.2)
            } else if kind == 2 {
                let d = limits_dec(s2);
                (d.0, (m.1, n.1, ImportDesc::Mem(d.1)), o + 1 + d.2)
            } else if kind == 3 {
                let d = globaltype_dec(s2);
                (d.0, (m.1, n.1, ImportDesc::Global((d.1, 0u32))), o + 1 + d.2)
            } else {
                (ENC_INVALID(), none, o + 1)
            }
        }
    }
}

/// Reads an import: module name, name, then a descriptor (`0` function type index, `1` table
/// type, `2` memory limits, `3` global type). A global gets index `0` here; the module parser
/// assigns it.
pub fn read_import(i: &mut WasmBinaryReader) -> (r: Result<Import, ParserError>)
    ensures
        progressed(*old(i), *final(i)),
        ({
            let d = import_dec(old(i).remaining());
            &&& d.0 == LEB_OK() ==> (r matches Ok(imp) && imp.module@ == d.1.0 && imp.name@ == d.1.1
                && imp.desc == d.1.2) && final(i).position() == old(i).position() + d.2
            &&& d.0 != LEB_OK() ==> dec_failed(d.0, r)
        }),
{
    let ghost s = old(i).remaining();
    let ghost p = old(i).position();
    proof {
        old(i).lemma_position();
    }
    let module = read_name(i)?;
    let ghost m = name_dec(s);
    proof {
        i.lemma_position();
        lemma_rest_advance(i.source(), p, m.2);
        assert(i.remaining() == rest(s, m.2 as int));
    }
    let name = read_name(i)?;
    let ghost n = name_dec(rest(s, m.2 as int));
    let ghost o = m.2 + n.2;
    proof {
        i.lemma_position();
        lemma_rest_advance(i.source(), p, o);
        assert(i.remaining() == rest(s, o as int));
    }
    let kind = i.read_byte()?;
    proof {
        i.lemma_position();
        assert(o < s.len());
        assert(kind == s[o as int]);
        lemma_rest_advance(i.source(), p, o + 1);
        assert(i.remaining() == rest(s, (o + 1) as int));
    }
    let desc = match kind {
        0x00 => {
            proof {
                crate::reader::lemma_leb_status(rest(s, (o + 1) as int), 32, false);
            }
            ImportDesc::Func(read_u32_imm(i)?)
        },
        0x01 => {
            let t = match read_tabletype(i) {
                Ok(t) => t,
                Err(e) => {
                    proof {
                        lemma_limits_status(rest(s, (o + 1) as int));
                        assert(import_dec(s).0 == tabletype_dec(rest(s, (o + 1) as int)).0);
                    }
                    return Err(e);
                },
            };
            ImportDesc::Table(t)
        },
        0x02 => {
            let l = match read_limits(i) {
                Ok(l) => l,
                Err(e) => {
                    proof {
                        lemma_limits_status(rest(s, (o + 1) as int));
                        assert(import_dec(s).0 == limits_dec(rest(s, (o + 1) as int)).0);
                    }
                    return Err(e);
                },
            };
            ImportDesc::Mem(l)
        },
        0x03 => ImportDesc::Global((read_globaltype(i)?, 0)),
        _ => {
            return Err(ParserError::InvalidEncoding);
        },
    };
    Ok(Import { module, name, desc })
}

/// The kind byte, name and index of an export.
pub open spec fn export_view(e: Export) -> (u8, Seq<char>, u32) {
    match e {
        Export::Func(d) => (0u8, d.name@, d.idx),
        Export::Table(d) => (1u8, d.name@, d.idx),
        Export::Mem(d) => (2u8, d.name@, d.idx),
        Export::Global(d) => (3u8, d.name@, d.idx),
    }
}

/// `(outcome, (kind, name, index), bytes read)` of an export.
pub open spec fn export_dec(s: Seq<u8>) -> (nat, (u8, Seq<char>, u32), nat) {
    let n = name_dec(s);
    if n.0 != LEB_OK() {
        (n.0, (0u8, Seq::empty(), 0u32), n.2)
    } else if n.2 >= s.len() {
        (LEB_EOF(), (0u8, Seq::empty(), 0u32), n.2)
    } else {
        let kind = s[n.2 as int];
        let d = u32_dec(rest(s, (n.2 + 1) as int));
        if d.0 != LEB_OK() {
            (d.0, (0u8, Seq::empty(), 0u32), n.2 + 1 + d.2)
        } else if kind > 3 {
            (ENC_INVALID(), (0u8, Seq::empty(), 0u32), n.2 + 1 + d.2)
        } else {
            (LEB_OK(), (kind, n.1, d.1), n.2 + 1 + d.2)
        }
    }
}

/// Reads an export: name, kind byte (`0` function, `1` table, `2` memory, `3` global), index.
pub fn read_export(i: &mut WasmBinaryReader) -> (r: Result<Export, ParserError>)
    ensures
        progressed(*old(i), *final(i)),
        ({
            let d = export_dec(old(i).remaining());
            &&& d.0 == LEB_OK() ==> (r matches Ok(e) && export_view(e) == d.1) && final(i).position()
                == old(i).position() + d.2
            &&& d.0 != LEB_OK() ==> dec_failed(d.0, r)
        }),
{
    let ghost s = old(i).remaining();
    let ghost p = old(i).position();
    proof {
        old(i).lemma_position();
    }
    let name = read_name(i)?;
    let ghost n = name_dec(s);
    proof {
        i.lemma_position();
        lemma_rest_advance(i.source(), p, n.2);
        if p + n.2 <= i.source().len() {
            assert(i.remaining() == rest(s, n.2 as int));
        }
    }
    let kind = i.read_byte()?;
    proof {
        i.lemma_position();
        assert(n.0 == LEB_OK());
        assert(n.2 < s.len());
        assert(kind == s[n.2 as int]);
        lemma_rest_advance(i.source(), p, n.2 + 1);
        assert(i.remaining() == rest(s, (n.2 + 1) as int));
    }
    let idx = match read_u32_imm(i) {
        Ok(v) => v,
        Err(e) => {
            proof {
                let d = u32_dec(rest(s, (n.2 + 1) as int));
                crate::reader::lemma_leb_status(rest(s, (n.2 + 1) as int), 32, false);
                assert(d.0 != LEB_OK());
                assert(export_dec(s).0 == d.0);
                assert(e == leb_err(d.0));
                assert(leb_err(d.0) == dec_err(d.0));
            }
            return Err(e);
        },
    };
    let desc = ExportDesc { name, idx };
    match kind {
        0x00 => Ok(Export::Func(desc)),
        0x01 => Ok(Export::Table(desc)),
        0x02 => Ok(Export::Mem(desc)),
        0x03 => Ok(Export::Global(desc)),
        _ => Err(ParserError::InvalidEncoding),
    }
}

/// Reads a table of the module itself.
pub fn read_table(i: &mut WasmBinaryReader) -> (r: Result<Table, ParserError>)
    ensures
        ({
            let d = tabletype_dec(old(i).remaining());
            &&& advanced(*old(i), *final(i), d.2)
            &&& d.0 == LEB_OK() ==> r == Ok::<Table, ParserError>(Table { ty: d.1, import: false })
            &&& d.0 != LEB_OK() ==> r is Err
        }),
{
    let ty = read_tabletype(i)?;
    Ok(Table { ty, import: false })
}

/// Reads a memory of the module itself.
pub fn read_memory(i: &mut WasmBinaryReader) -> (r: Result<Memory, ParserError>)
    ensures
        ({
            let d = limits_dec(old(i).remaining());
            &&& advanced(*old(i), *final(i), d.2)
            &&& dec_result(d.0, Memory { limits: d.1, import: false }, r)
        }),
{
    let limits = read_limits(i)?;
    Ok(Memory { limits, import: false })
}

/// An error of a constant expression.
pub open spec fn is_const_expr_err(r: Result<ConstantValue, ParserError>) -> bool {
    r matches Err(ParserError::ConstantExpressionError(_))
}

/// `(outcome, value, bytes read)` of the constant that follows the opcode `op` of a constant
/// expression, in a module with `nglobals` globals.
pub open spec fn const_value_dec(op: u8, s: Seq<u8>, nglobals: nat) -> (nat, ConstantValue, nat) {
    let none = ConstantValue::FuncPtr(0);
    if op == 0x41 {
        let t = leb(s, 32, true);
        (t.0, ConstantValue::V(Value::Number(Number::I32((sign_extend(t.1, leb_bits(t.2, 32)) as i32) as u32))), t.2)
    } else if op == 0x42 {
        let t = leb(s, 64, true);
        (t.0, ConstantValue::V(Value::Number(Number::I64((sign_extend(t.1, leb_bits(t.2, 64)) as i64) as u64))), t.2)
    } else if op == 0x43 {
        if s.len() < 4 {
            (LEB_EOF(), none, 0)
        } else {
            (LEB_OK(), ConstantValue::V(Value::Number(Number::F32(le_u32(s[0], s[1], s[2], s[3]) as u32))), 4)
        }
    } else if op == 0x44 {
        if s.len() < 8 {
            (LEB_EOF(), none, 0)
        } else {
            (LEB_OK(), ConstantValue::V(Value::Number(Number::F64(le_u64(s.subrange(0, 8)) as u64))), 8)
        }
    } else if op == 0xD0 {
        if s.len() == 0 {
            (LEB_EOF(), none, 0)
        } else if reftype_of_byte(s[0]) is None {
            (ENC_INVALID(), none, 1)
        } else {
            (LEB_OK(), ConstantValue::V(Value::Reference(Reference::Null)), 1)
        }
    } else if op == 0xD2 {
        let d = u32_dec(s);
        (d.0, ConstantValue::FuncPtr(d.1), d.2)
    } else if op == 0x23 {
        let d = u32_dec(s);
        if d.0 != LEB_OK() {
            (d.0, none, d.2)
        } else if d.1 >= nglobals {
            (CONST_BAD(), none, d.2)
        } else {
            (LEB_OK(), ConstantValue::Global(d.1), d.2)
        }
    } else {
        (CONST_BAD(), none, 0)
    }
}

/// `(outcome, value, bytes read)` of a constant expression: an opcode, its constant, then
/// `end`.
pub open spec fn const_expr_dec(s: Seq<u8>, nglobals: nat) -> (nat, ConstantValue, nat) {
    let none = ConstantValue::FuncPtr(0);
    if s.len() == 0 {
        (LEB_EOF(), none, 0)
    } else {
        let v = const_value_dec(s[0], rest(s, 1), nglobals);
        let e: int = (1 + v.2) as int;
        if v.0 != LEB_OK() {
            (v.0, none, e as nat)
        } else if e >= s.len() {
            (LEB_EOF(), none, e as nat)
        } else if s[e] != 0x0B {
            (CONST_BAD(), none, (e + 1) as nat)
        } else {
            (LEB_OK(), v.1, (e + 1) as nat)
        }
    }
}

/// Reads a constant expression and evaluates it: one constant (`i32.const`, `i64.const`,
/// `f32.const`, `f64.const`, `ref.null`, `ref.func` or `global.get` of a known global), then
/// `end`.
pub fn read_constant_expression(i: &mut WasmBinaryReader, module: &ModuleMetadata) -> (r: Result<
    ConstantValue,
    ParserError,
>)
    ensures
        progressed(*old(i), *final(i)),
        old(i).remaining().len() == 0 ==> r == Err::<ConstantValue, ParserError>(ParserError::UnexpectedEOF),
        old(i).remaining().len() > 0 ==> {
            let op = old(i).remaining()[0];
            &&& !(op == 0x41 || op == 0x42 || op == 0x43 || op == 0x44 || op == 0xD0 || op == 0xD2
                || op == 0x23) ==> is_const_expr_err(r)
            &&& (r matches Ok(ConstantValue::Global(g)) ==> op == 0x23 && g < module.globals@.len())
            &&& (r matches Ok(ConstantValue::FuncPtr(_)) ==> op == 0xD2)
        },
        ({
            let d = const_expr_dec(old(i).remaining(), module.globals@.len());
            &&& d.0 == LEB_OK() ==> r == Ok::<ConstantValue, ParserError>(d.1) && final(i).position()
                == old(i).position() + d.2
            &&& d.0 != LEB_OK() ==> dec_failed(d.0, r)
        }),
{
    let ghost s = old(i).remaining();
    let ghost p = old(i).position();
    let ghost ng = module.globals@.len();
    proof {
        old(i).lemma_position();
    }
    let op = i.read_byte()?;
    let ghost s1 = rest(s, 1);
    proof {
        i.lemma_position();
        lemma_rest_advance(i.source(), p, 1);
        assert(i.remaining() == s1);
        assert(op == s[0]);
        crate::reader::lemma_leb_status(s1, 32, true);
        crate::reader::lemma_leb_status(s1, 64, true);
        crate::reader::lemma_leb_status(s1, 32, false);
    }
    let ghost v = const_value_dec(op, s1, ng);
    let value = match op {
        0x41 => ConstantValue::V(Value::Number(Number::I32(i.read_leb128_i32()? as u32))),
        0x42 => ConstantValue::V(Value::Number(Number::I64(i.read_leb128_i64()? as u64))),
        0x43 => {
            proof {
                if s1.len() >= 4 {
                    assert(s1[0] == i.source()[p + 1] && s1[1] == i.source()[p + 2] && s1[2] == i.source()[p + 3]
                        && s1[3] == i.source()[p + 4]);
                }
            }
            ConstantValue::V(Value::Number(Number::F32(i.read_f32_bits()?)))
        },
        0x44 => {
            proof {
                if s1.len() >= 8 {
                    assert(s1.subrange(0, 8) =~= i.source().subrange(p + 1, p + 9));
                }
            }
            ConstantValue::V(Value::Number(Number::F64(i.read_f64_bits()?)))
        },
        0xD0 => {
            let _ = read_reftype(i)?;
            ConstantValue::V(Value::Reference(Reference::Null))
        },
        0xD2 => ConstantValue::FuncPtr(read_u32_imm(i)?),
        0x23 => {
            let idx = read_u32_imm(i)?;
            if idx as usize >= module.globals.len() {
                return Err(
                    ParserError::ConstantExpressionError(
                        ConstantExpressionError::Msg(String::from_str("unknown global in constant expression")),
                    ),
                );
            }
            ConstantValue::Global(idx)
        },
        _ => {
            return Err(
                ParserError::ConstantExpressionError(
                    ConstantExpressionError::Msg(String::from_str("unsupported constant expression")),
                ),
            );
        },
    };
    proof {
        assert(v.0 == LEB_OK());
        assert(value == v.1);
        i.lemma_position();
        assert(i.position() == p + 1 + v.2);
        lemma_rest_advance(i.source(), p, 1 + v.2);
        assert(i.remaining() == rest(s, (1 + v.2) as int));
    }
    let end = i.read_byte()?;
    proof {
        assert(end == s[(1 + v.2) as int]);
    }
    if end != 0x0B {
        return Err(
            ParserError::ConstantExpressionError(
                ConstantExpressionError::Msg(String::from_str("constant expression without end")),
            ),
        );
    }
    Ok(value)
}

/// `(outcome, global, bytes read)` of a global of the module itself: its type, then its
/// initializer.
pub open spec fn global_dec(s: Seq<u8>, nglobals: nat) -> (nat, Global, nat) {
    let t = globaltype_dec(s);
    if t.0 != LEB_OK() {
        (t.0, Global { ty: t.1, import: false, init: ConstantValue::FuncPtr(0) }, t.2)
    } else {
        let c = const_expr_dec(rest(s, t.2 as int), nglobals);
        (c.0, Global { ty: t.1, import: false, init: c.1 }, t.2 + c.2)
    }
}

/// Reads a global of the module itself: its type, then its initializer.
pub fn read_global(i: &mut WasmBinaryReader, module: &ModuleMetadata) -> (r: Result<Global, ParserError>)
    ensures
        progressed(*old(i), *final(i)),
        ({
            let d = global_dec(old(i).remaining(), module.globals@.len());
            &&& d.0 == LEB_OK() ==> r == Ok::<Global, ParserError>(d.1) && final(i).position()
                == old(i).position() + d.2
            &&& d.0 != LEB_OK() ==> dec_failed(d.0, r)
        }),
{
    let ghost s = old(i).remaining();
    let ghost p = old(i).position();
    proof {
        old(i).lemma_position();
    }
    let ty = read_globaltype(i)?;
    let ghost t = globaltype_dec(s);
    proof {
        i.lemma_position();
        lemma_rest_advance(i.source(), p, t.2);
        assert(i.remaining() == rest(s, t.2 as int));
    }
    let init = read_constant_expression(i, module)?;
    Ok(Global { ty, import: false, init })
}

/// `(outcome, items, bytes read)` of the first `k` unsigned LEB128 numbers of `s`; decoding
/// stops at the first that fails.
pub open spec fn u32s_dec(s: Seq<u8>, k: nat) -> (nat, Seq<u32>, nat)
    decreases k,
{
    if k == 0 {
        (LEB_OK(), Seq::empty(), 0)
    } else {
        let p = u32s_dec(s, (k - 1) as nat);
        if p.0 != LEB_OK() {
            p
        } else {
            let a = u32_dec(rest(s, p.2 as int));
            if a.0 != LEB_OK() {
                (a.0, p.1, p.2 + a.2)
            } else {
                (LEB_OK(), p.1.push(a.1), p.2 + a.2)
            }
        }
    }
}

/// Once the decoding of a prefix of items fails, decoding more items fails the same way.
proof fn lemma_u32s_failed(s: Seq<u8>, k: nat, m: nat)
    requires
        k <= m,
        u32s_dec(s, k).0 != LEB_OK(),
    ensures
        u32s_dec(s, m) == u32s_dec(s, k),
    decreases m - k,
{
    if k < m {
        lemma_u32s_failed(s, k, (m - 1) as nat);
    }
}

/// `(outcome, indices, bytes read)` of a vector of function indices: a count, then that many
/// unsigned LEB128 numbers.
pub open spec fn funcidx_vec_dec(s: Seq<u8>) -> (nat, Seq<u32>, nat) {
    let c = u32_dec(s);
    if c.0 != LEB_OK() {
        (c.0, Seq::empty(), c.2)
    } else {
        let v = u32s_dec(rest(s, c.2 as int), c.1 as nat);
        (v.0, v.1, c.2 + v.2)
    }
}

/// Reads a vector of function indices.
pub fn read_funcidx_vec(i: &mut WasmBinaryReader) -> (r: Result<Vec<FuncIdx>, ParserError>)
    ensures
        progressed(*old(i), *final(i)),
        ({
            let d = funcidx_vec_dec(old(i).remaining());
            &&& d.0 == LEB_OK() ==> (r matches Ok(v) && v@ == d.1) && final(i).position()
                == old(i).position() + d.2
            &&& d.0 != LEB_OK() ==> r == Err::<Vec<FuncIdx>, ParserError>(leb_err(d.0))
        }),
{
    let ghost s = old(i).remaining();
    let ghost p = old(i).position();
    proof {
        old(i).lemma_position();
    }
    let n = read_u32_imm(i)?;
    let ghost c = u32_dec(s);
    let ghost s1 = rest(s, c.2 as int);
    let ghost p1 = p + c.2;
    proof {
        i.lemma_position();
        lemma_rest_advance(i.source(), p, c.2);
        assert(i.remaining() == s1);
    }
    let mut v: Vec<FuncIdx> = Vec::new();
    let mut k: u32 = 0;
    while k < n
        invariant
            progressed(*old(i), *i),
            k <= n,
            s == old(i).remaining(),
            p == old(i).position(),
            s1 == rest(s, c.2 as int),
            p1 == p + c.2,
            c == u32_dec(s),
            c.0 == LEB_OK(),
            c.1 == n,
            u32s_dec(s1, k as nat).0 == LEB_OK(),
            u32s_dec(s1, k as nat).1 == v@,
            i.position() == p1 + u32s_dec(s1, k as nat).2,
            i.source() == old(i).source(),
        decreases n - k,
    {
        let ghost q = u32s_dec(s1, k as nat);
        proof {
            i.lemma_position();
            old(i).lemma_position();
            lemma_rest_advance(old(i).source(), p, c.2);
            lemma_rest_advance(old(i).source(), p1, q.2);
            assert(i.remaining() == rest(s1, q.2 as int));
        }
        let x = match read_u32_imm(i) {
            Ok(x) => x,
            Err(e) => {
                proof {
                    lemma_u32s_failed(s1, (k + 1) as nat, n as nat);
                }
                return Err(e);
            },
        };
        v.push(x);
        k = k + 1;
    }
    Ok(v)
}

/// `(outcome, values, bytes read)` of the first `k` constant expressions of `s`; decoding
/// stops at the first that fails.
pub open spec fn const_exprs_dec(s: Seq<u8>, k: nat, nglobals: nat) -> (nat, Seq<ConstantValue>, nat)
    decreases k,
{
    if k == 0 {
        (LEB_OK(), Seq::empty(), 0)
    } else {
        let p = const_exprs_dec(s, (k - 1) as nat, nglobals);
        if p.0 != LEB_OK() {
            p
        } else {
            let a = const_expr_dec(rest(s, p.2 as int), nglobals);
            if a.0 != LEB_OK() {
                (a.0, p.1, p.2 + a.2)
            } else {
                (LEB_OK(), p.1.push(a.1), p.2 + a.2)
            }
        }
    }
}

/// Once the decoding of a prefix of constant expressions fails, decoding more fails the same
/// way.
proof fn lemma_const_exprs_failed(s: Seq<u8>, k: nat, m: nat, nglobals: nat)
    requires
        k <= m,
        const_exprs_dec(s, k, nglobals).0 != LEB_OK(),
    ensures
        const_exprs_dec(s, m, nglobals) == const_exprs_dec(s, k, nglobals),
    decreases m - k,
{
    if k < m {
        lemma_const_exprs_failed(s, k, (m - 1) as nat, nglobals);
    }
}

/// `(outcome, values, bytes read)` of a vector of constant expressions: a count, then that
/// many expressions.
pub open spec fn expr_vec_dec(s: Seq<u8>, nglobals: nat) -> (nat, Seq<ConstantValue>, nat) {
    let c = u32_dec(s);
    if c.0 != LEB_OK() {
        (c.0, Seq::empty(), c.2)
    } else {
        let v = const_exprs_dec(rest(s, c.2 as int), c.1 as nat, nglobals);
        (v.0, v.1, c.2 + v.2)
    }
}

/// Reads a vector of constant expressions.
pub fn read_expr_vec(i: &mut WasmBinaryReader, module: &ModuleMetadata) -> (r: Result<
    Vec<ConstantValue>,
    ParserError,
>)
    ensures
        progressed(*old(i), *final(i)),
        ({
            let d = expr_vec_dec(old(i).remaining(), module.globals@.len());
            &&& d.0 == LEB_OK() ==> (r matches Ok(v) && v@ == d.1) && final(i).position()
                == old(i).position() + d.2
            &&& d.0 != LEB_OK() ==> dec_failed(d.0, r)
        }),
{
    let ghost s = old(i).remaining();
    let ghost p = old(i).position();
    let ghost ng = module.globals@.len();
    proof {
        old(i).lemma_position();
    }
    let n = match read_u32_imm(i) {
        Ok(n) => n,
        Err(e) => {
            proof {
                crate::reader::lemma_leb_status(s, 32, false);
                assert(leb_err(u32_dec(s).0) == dec_err(u32_dec(s).0));
            }
            return Err(e);
        },
    };
    let ghost c = u32_dec(s);
    let ghost s1 = rest(s, c.2 as int);
    let ghost p1 = p + c.2;
    proof {
        i.lemma_position();
        lemma_rest_advance(i.source(), p, c.2);
        assert(i.remaining() == s1);
    }
    let mut v: Vec<ConstantValue> = Vec::new();
    let mut k: u32 = 0;
    while k < n
        invariant
            progressed(*old(i), *i),
            k <= n,
            s == old(i).remaining(),
            p == old(i).position(),
            ng == module.globals@.len(),
            s1 == rest(s, c.2 as int),
            p1 == p + c.2,
            c == u32_dec(s),
            c.0 == LEB_OK(),
            c.1 == n,
            const_exprs_dec(s1, k as nat, ng).0 == LEB_OK(),
            const_exprs_dec(s1, k as nat, ng).1 == v@,
            i.position() == p1 + const_exprs_dec(s1, k as nat, ng).2,
            i.source() == old(i).source(),
        decreases n - k,
    {
        let ghost q = const_exprs_dec(s1, k as nat, ng);
        proof {
            i.lemma_position();
            old(i).lemma_position();
            lemma_rest_advance(old(i).source(), p, c.2);
            lemma_rest_advance(old(i).source(), p1, q.2);
            assert(i.remaining() == rest(s1, q.2 as int));
        }
        let x = match read_constant_expression(i, module) {
            Ok(x) => x,
            Err(e) => {
                proof {
                    lemma_const_exprs_failed(s1, (k + 1) as nat, n as nat, ng);
                }
                return Err(e);
            },
        };
        v.push(x);
        k = k + 1;
    }
    Ok(v)
}

/// Decoding a prefix of unsigned LEB128 numbers fails only with an end of input or a bad
/// number.
proof fn lemma_u32s_status(s: Seq<u8>, k: nat)
    ensures
        u32s_dec(s, k).0 <= crate::reader::LEB_INVALID(),
    decreases k,
{
    if k > 0 {
        lemma_u32s_status(s, (k - 1) as nat);
        let p = u32s_dec(s, (k - 1) as nat);
        crate::reader::lemma_leb_status(rest(s, p.2 as int), 32, false);
    }
}

/// `(outcome, element type, bytes read)` of the element kind byte, which must be `0x00`
/// (function references).
pub open spec fn elemkind_dec(s: Seq<u8>) -> (nat, RefType, nat) {
    if s.len() == 0 {
        (LEB_EOF(), RefType::FunctionReference, 0)
    } else if s[0] != 0 {
        (MALFORMED(), RefType::FunctionReference, 1)
    } else {
        (LEB_OK(), RefType::FunctionReference, 1)
    }
}

/// Reads the element kind byte, which must be `0x00` (function references).
fn read_elemkind(i: &mut WasmBinaryReader) -> (r: Result<RefType, ParserError>)
    ensures
        ({
            let d = elemkind_dec(old(i).remaining());
            &&& advanced(*old(i), *final(i), d.2)
            &&& dec_result(d.0, d.1, r)
        }),
{
    proof {
        old(i).lemma_position();
    }
    let kind = i.read_byte()?;
    if kind != 0x00 {
        return Err(ParserError::msg("invalid element kind"));
    }
    Ok(RefType::FunctionReference)
}

/// `(outcome, reference type, bytes read)` of a reference type byte.
pub open spec fn reftype_dec(s: Seq<u8>) -> (nat, RefType, nat) {
    if s.len() == 0 {
        (LEB_EOF(), RefType::FunctionReference, 0)
    } else if reftype_of_byte(s[0]) is None {
        (ENC_INVALID(), RefType::FunctionReference, 1)
    } else {
        (LEB_OK(), reftype_of_byte(s[0])->0, 1)
    }
}

/// What an element segment holds: its type, whether its items are constant expressions, its
/// function indices, its constant expressions, and its mode.
pub open spec fn element_matches(e: Element, v: (RefType, bool, Seq<u32>, Seq<ConstantValue>, ElemMode)) -> bool {
    &&& e.type_ == v.0
    &&& e.mode == v.4
    &&& match e.init {
        ElementInit::Unresolved(f) => !v.1 && f@ == v.2,
        ElementInit::Final(x) => v.1 && x@ == v.3,
    }
}

/// `(outcome, element segment, bytes read)` of an element segment. Its flags (`0` to `7`) say
/// whether it is active (even flags; with an explicit table for `2` and `6`, else table `0`),
/// passive (`1`, `5`) or declarative (`3`, `7`), and whether it lists function indices (up
/// to `3`, with an element kind byte unless `0`) or constant expressions (from `4`, with a
/// reference type unless `4`). The parts come in the order table, offset, type, items.
pub open spec fn element_dec(s: Seq<u8>, nglobals: nat) -> (
    nat,
    (RefType, bool, Seq<u32>, Seq<ConstantValue>, ElemMode),
    nat,
) {
    let none = (RefType::FunctionReference, false, Seq::<u32>::empty(), Seq::<ConstantValue>::empty(), ElemMode::Passive);
    let f = u32_dec(s);
    let fl = f.1;
    if f.0 != LEB_OK() {
        (f.0, none, f.2)
    } else if fl > 7 {
        (MALFORMED(), none, f.2)
    } else {
        let t = if fl == 2 || fl == 6 {
            u32_dec(rest(s, f.2 as int))
        } else {
            (LEB_OK(), 0u32, 0nat)
        };
        let o1 = f.2 + t.2;
        if t.0 != LEB_OK() {
            (t.0, none, o1)
        } else {
            let active = fl % 2 == 0;
            let off = if active {
                const_expr_dec(rest(s, o1 as int), nglobals)
            } else {
                (LEB_OK(), ConstantValue::FuncPtr(0), 0nat)
            };
            let o2 = o1 + off.2;
            if off.0 != LEB_OK() {
                (off.0, none, o2)
            } else {
                let k = if fl == 0 || fl == 4 {
                    (LEB_OK(), RefType::FunctionReference, 0nat)
                } else if fl <= 3 {
                    elemkind_dec(rest(s, o2 as int))
                } else {
                    reftype_dec(rest(s, o2 as int))
                };
                let o3 = o2 + k.2;
                let mode = if active {
                    ElemMode::Active { table: t.1, offset: off.1 }
                } else if fl == 1 || fl == 5 {
                    ElemMode::Passive
                } else {
                    ElemMode::Declarative
                };
                if k.0 != LEB_OK() {
                    (k.0, none, o3)
                } else if fl <= 3 {
                    let v = funcidx_vec_dec(rest(s, o3 as int));
                    (v.0, (k.1, false, v.1, Seq::empty(), mode), o3 + v.2)
                } else {
                    let v = expr_vec_dec(rest(s, o3 as int), nglobals);
                    (v.0, (k.1, true, Seq::empty(), v.1, mode), o3 + v.2)
                }
            }
        }
    }
}

/// Reads an element segment (see `element_dec`).
#[verifier::rlimit(60)]
#[verifier::spinoff_prover]
pub fn read_element(i: &mut WasmBinaryReader, module: &ModuleMetadata) -> (r: Result<Element, ParserError>)
    ensures
        progressed(*old(i), *final(i)),
        ({
            let d = element_dec(old(i).remaining(), module.globals@.len());
            &&& d.0 == LEB_OK() ==> (r matches Ok(e) && element_matches(e, d.1)) && final(i).position()
                == old(i).position() + d.2
            &&& d.0 != LEB_OK() ==> dec_failed(d.0, r)
        }),
{
    let ghost s = old(i).remaining();
    let ghost p = old(i).position();
    let ghost ng = module.globals@.len();
    proof {
        old(i).lemma_position();
        crate::reader::lemma_leb_status(s, 32, false);
    }
    let ghost f = u32_dec(s);
    let flags = match read_u32_imm(i) {
        Ok(x) => x,
        Err(e) => {
            proof {
                assert(leb_err(f.0) == dec_err(f.0));
            }
            return Err(e);
        },
    };
    if flags > 7 {
        return Err(ParserError::msg("invalid element segment flags"));
    }
    proof {
        i.lemma_position();
        lemma_rest_advance(i.source(), p, f.2);
        assert(i.remaining() == rest(s, f.2 as int));
        crate::reader::lemma_leb_status(rest(s, f.2 as int), 32, false);
    }
    let table: u32 = if flags == 2 || flags == 6 {
        match read_u32_imm(i) {
            Ok(x) => x,
            Err(e) => {
                proof {
                    let t = u32_dec(rest(s, f.2 as int));
                    assert(leb_err(t.0) == dec_err(t.0));
                }
                return Err(e);
            },
        }
    } else {
        0
    };
    let ghost t = if flags == 2 || flags == 6 {
        u32_dec(rest(s, f.2 as int))
    } else {
        (LEB_OK(), 0u32, 0nat)
    };
    let ghost o1 = f.2 + t.2;
    proof {
        i.lemma_position();
        lemma_rest_advance(i.source(), p, o1);
        assert(i.remaining() == rest(s, o1 as int));
    }
    let offset: Option<ConstantValue> = if flags % 2 == 0 {
        Some(read_constant_expression(i, module)?)
    } else {
        None
    };
    let ghost off = if flags % 2 == 0 {
        const_expr_dec(rest(s, o1 as int), ng)
    } else {
        (LEB_OK(), ConstantValue::FuncPtr(0), 0nat)
    };
    let ghost o2 = o1 + off.2;
    proof {
        i.lemma_position();
        lemma_rest_advance(i.source(), p, o2);
        assert(i.remaining() == rest(s, o2 as int));
    }
    let type_: RefType = if flags == 0 || flags == 4 {
        RefType::FunctionReference
    } else if flags <= 3 {
        read_elemkind(i)?
    } else {
        read_reftype(i)?
    };
    let ghost k = if flags == 0 || flags == 4 {
        (LEB_OK(), RefType::FunctionReference, 0nat)
    } else if flags <= 3 {
        elemkind_dec(rest(s, o2 as int))
    } else {
        reftype_dec(rest(s, o2 as int))
    };
    let ghost o3 = o2 + k.2;
    proof {
        i.lemma_position();
        lemma_rest_advance(i.source(), p, o3);
        assert(i.remaining() == rest(s, o3 as int));
    }
    let mode = match offset {
        Some(offset) => ElemMode::Active { table, offset },
        None => if flags == 1 || flags == 5 {
            ElemMode::Passive
        } else {
            ElemMode::Declarative
        },
    };
    let init = if flags <= 3 {
        let funcs = match read_funcidx_vec(i) {
            Ok(v) => v,
            Err(e) => {
                proof {
                    let rs = rest(s, o3 as int);
                    crate::reader::lemma_leb_status(rs, 32, false);
                    let c = u32_dec(rs);
                    lemma_u32s_status(rest(rs, c.2 as int), c.1 as nat);
                    let d = funcidx_vec_dec(rs);
                    assert(leb_err(d.0) == dec_err(d.0));
                }
                return Err(e);
            },
        };
        ElementInit::Unresolved(funcs)
    } else {
        ElementInit::Final(read_expr_vec(i, module)?)
    };
    Ok(Element { type_, init, mode })
}

/// What a data segment holds: its mode and bytes.
pub open spec fn data_view(d: Data) -> (DataMode, Seq<u8>) {
    (d.mode, d.init@)
}

/// `(outcome, (mode, bytes), bytes read)` of a data segment: flags `0` (active in memory `0`,
/// with an offset), `1` (passive) or `2` (active in a given memory, with an offset), then the
/// bytes.
pub open spec fn data_dec(s: Seq<u8>, nglobals: nat) -> (nat, (DataMode, Seq<u8>), nat) {
    let none = (DataMode::Passive, Seq::<u8>::empty());
    let f = u32_dec(s);
    if f.0 != LEB_OK() {
        (f.0, none, f.2)
    } else if f.1 > 2 {
        (MALFORMED(), none, f.2)
    } else {
        let mem = if f.1 == 2 {
            u32_dec(rest(s, f.2 as int))
        } else {
            (LEB_OK(), 0u32, 0nat)
        };
        let o1 = f.2 + mem.2;
        if mem.0 != LEB_OK() {
            (mem.0, none, o1)
        } else {
            let off = if f.1 != 1 {
                const_expr_dec(rest(s, o1 as int), nglobals)
            } else {
                (LEB_OK(), ConstantValue::FuncPtr(0), 0nat)
            };
            let o2 = o1 + off.2;
            if off.0 != LEB_OK() {
                (off.0, none, o2)
            } else {
                let b = bytes_dec(rest(s, o2 as int));
                let mode = if f.1 == 1 {
                    DataMode::Passive
                } else {
                    DataMode::Active { memory: mem.1, offset: off.1 }
                };
                (b.0, (mode, b.1), o2 + b.2)
            }
        }
    }
}

/// Reads a data segment (see `data_dec`).
pub fn read_data_segment(i: &mut WasmBinaryReader, module: &ModuleMetadata) -> (r: Result<Data, ParserError>)
    ensures
        progressed(*old(i), *final(i)),
        r matches Ok(d) ==> {
            let e = data_dec(old(i).remaining(), module.globals@.len());
            &&& e.0 == LEB_OK()
            &&& data_view(d) == e.1
            &&& final(i).position() == old(i).position() + e.2
        },
        u32_dec(old(i).remaining()).0 == LEB_OK() && u32_dec(old(i).remaining()).1 > 2 ==> (r matches Err(
            ParserError::Msg(_),
        )),
        data_dec(old(i).remaining(), module.globals@.len()).0 == LEB_OK() ==> r is Ok,
{
    let ghost s = old(i).remaining();
    let ghost p = old(i).position();
    let ghost ng = module.globals@.len();
    proof {
        old(i).lemma_position();
    }
    let flag = read_u32_imm(i)?;
    let ghost f = u32_dec(s);
    if flag > 2 {
        return Err(ParserError::msg("invalid data segment binary prefix"));
    }
    proof {
        i.lemma_position();
        lemma_rest_advance(i.source(), p, f.2);
    }
    let memory: u32 = if flag == 2 {
        read_u32_imm(i)?
    } else {
        0
    };
    let ghost mem = if flag == 2 {
        u32_dec(rest(s, f.2 as int))
    } else {
        (LEB_OK(), 0u32, 0nat)
    };
    let ghost o1 = f.2 + mem.2;
    proof {
        i.lemma_position();
        lemma_rest_advance(i.source(), p, o1);
    }
    let offset: Option<ConstantValue> = if flag != 1 {
        Some(read_constant_expression(i, module)?)
    } else {
        None
    };
    let ghost off = if flag != 1 {
        const_expr_dec(rest(s, o1 as int), ng)
    } else {
        (LEB_OK(), ConstantValue::FuncPtr(0), 0nat)
    };
    let ghost o2 = o1 + off.2;
    proof {
        i.lemma_position();
        lemma_rest_advance(i.source(), p, o2);
        assert(i.remaining() == rest(s, o2 as int));
    }
    let ghost pb = i.position();
    proof {
        i.lemma_position();
    }
    let init = read_bytes(i)?;
    proof {
        let rs = rest(s, o2 as int);
        let d = u32_dec(rs);
        i.lemma_position();
        lemma_rest_advance(i.source(), pb, d.2);
        assert(init@ =~= rs.subrange(d.2 as int, d.2 + d.1));
    }
    let mode = match offset {
        Some(offset) => DataMode::Active { memory, offset },
        None => DataMode::Passive,
    };
    Ok(Data { mode, init })
}

} // verus!
