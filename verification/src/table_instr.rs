//! Table instructions. An unknown table or element segment, or an operand of the wrong reference
//! type, poisons the context; only a malformed immediate is an error.
use crate::context::{Context, CtxModel, m_create, m_poison, m_pop, m_pop_typed, m_push, poison_if};
use crate::decode::{advanced, leb_err, read_u32_imm, read_u32_pair, u32_dec, u32_pair_dec};
use crate::error::{ParserError, ValidationError, id_text};
use crate::instructions::{ParseResult, appended, enc_same, pop3_i32_effect};
use crate::ir::{Instruction, InstructionEncoder};
use crate::module::{Element, Table};
use crate::reader::{LEB_OK, WasmBinaryReader};
use crate::types::{NumType, RefType, ValType, ref_type_text, val_type_text};
use vstd::prelude::*;

verus! {

/// The reference type of table `idx`, or the default reference type if there is no such table.
pub open spec fn table_type_or_default(tables: Seq<Table>, idx: u32) -> RefType {
    if idx < tables.len() {
        tables[idx as int].ty.ref_type
    } else {
        RefType::FunctionReference
    }
}

/// The reference type of element segment `idx`, or the default reference type if there is none.
pub open spec fn elem_type_or_default(elements: Seq<Element>, idx: u32) -> RefType {
    if idx < elements.len() {
        elements[idx as int].type_
    } else {
        RefType::FunctionReference
    }
}

/// The reference type of a value type, or the default reference type for a non-reference.
pub open spec fn ref_type_or_default(t: ValType) -> RefType {
    match t {
        ValType::Reference(rt) => rt,
        _ => RefType::FunctionReference,
    }
}

fn table_type_of(tables: &Vec<Table>, idx: u32) -> (r: Option<RefType>)
    ensures
        idx < tables@.len() ==> r == Some(tables@[idx as int].ty.ref_type),
        idx >= tables@.len() ==> r is None,
{
    if (idx as usize) < tables.len() {
        Some(tables[idx as usize].ty.ref_type)
    } else {
        None
    }
}

/// `table.set`
pub fn table_set(ctxt: &mut Context, i: &mut WasmBinaryReader, o: &mut InstructionEncoder) -> (r: ParseResult)
    requires
        old(ctxt).wf(),
    ensures
        old(ctxt).frame(&*final(ctxt)),
        table_set_post(*old(i), *final(i), &*old(ctxt), &*final(ctxt), *old(o), *final(o), r),
{
    let table_idx = read_u32_imm(i)?;
    let rt = match table_type_of(&ctxt.module.tables, table_idx) {
        Some(rt) => rt,
        None => {
            ctxt.poison(ValidationError::Msg(id_text("table with id ", table_idx, " not found")));
            return Ok(());
        },
    };
    let value_to_set = ctxt.pop_var();
    if value_to_set.type_ != ValType::Reference(rt) {
        ctxt.poison_msg("table value to set must be of reference type");
    }
    let idx = ctxt.pop_var_with_type(ValType::i32());
    o.write(Instruction::TableSet { table_idx, in1: value_to_set.id, idx: idx.id, input_type: value_to_set.type_ });
    Ok(())
}

/// `table.get`
pub fn table_get(ctxt: &mut Context, i: &mut WasmBinaryReader, o: &mut InstructionEncoder) -> (r: ParseResult)
    requires
        old(ctxt).wf(),
    ensures
        old(ctxt).frame(&*final(ctxt)),
        table_get_post(*old(i), *final(i), &*old(ctxt), &*final(ctxt), *old(o), *final(o), r),
{
    let table_idx = read_u32_imm(i)?;
    let rt = match table_type_of(&ctxt.module.tables, table_idx) {
        Some(rt) => rt,
        None => {
            ctxt.poison(ValidationError::Msg(id_text("table with id ", table_idx, " not found")));
            return Ok(());
        },
    };
    let idx = ctxt.pop_var_with_type(ValType::i32());
    let out = ctxt.create_var(ValType::Reference(rt));
    o.write(Instruction::TableGet { table_idx, out1: out.id, idx: idx.id });
    ctxt.push_var(out);
    Ok(())
}

/// `table.grow`: the fill value is popped with the table's reference type.
pub fn table_grow(ctxt: &mut Context, i: &mut WasmBinaryReader, o: &mut InstructionEncoder) -> (r: ParseResult)
    requires
        old(ctxt).wf(),
    ensures
        old(ctxt).frame(&*final(ctxt)),
        table_grow_post(*old(i), *final(i), &*old(ctxt), &*final(ctxt), *old(o), *final(o), r),
{
    let table_idx = read_u32_imm(i)?;
    let rt = match table_type_of(&ctxt.module.tables, table_idx) {
        Some(rt) => rt,
        None => {
            ctxt.poison(ValidationError::Msg(id_text("table with id ", table_idx, " not found")));
            return Ok(());
        },
    };
    let table_type = ValType::Reference(rt);
    let size = ctxt.pop_var_with_type(ValType::i32());
    let value_to_fill = ctxt.pop_var_with_type(table_type);
    match value_to_fill.type_ {
        ValType::Reference(_) => {},
        _ => {
            let mut m = String::from_str("type ");
            m.append(val_type_text(&value_to_fill.type_).as_str());
            m.append(" of value supplied to table.grow instruction does not match table type ");
            m.append(val_type_text(&table_type).as_str());
            m.append(".");
            ctxt.poison(ValidationError::Msg(m));
        },
    }
    let out = ctxt.create_var(ValType::i32());
    o.write(Instruction::TableGrow { table_idx, size: size.id, value_to_fill: value_to_fill.id, out1: out.id });
    ctxt.push_var(out);
    Ok(())
}

/// `table.size`: only an index above the number of tables poisons the context; an index equal to
/// it is let through.
pub fn table_size(ctxt: &mut Context, i: &mut WasmBinaryReader, o: &mut InstructionEncoder) -> (r: ParseResult)
    requires
        old(ctxt).wf(),
    ensures
        old(ctxt).frame(&*final(ctxt)),
        table_size_post(*old(i), *final(i), &*old(ctxt), &*final(ctxt), *old(o), *final(o), r),
{
    let table_idx = read_u32_imm(i)?;
    if table_idx as usize > ctxt.module.tables.len() {
        ctxt.poison(ValidationError::Msg(id_text("table with id ", table_idx, " not found")));
    }
    let out = ctxt.create_var(ValType::i32());
    o.write(Instruction::TableSize { table_idx, out1: out.id });
    ctxt.push_var(out);
    Ok(())
}

/// `table.fill`
pub fn table_fill(ctxt: &mut Context, i: &mut WasmBinaryReader, o: &mut InstructionEncoder) -> (r: ParseResult)
    requires
        old(ctxt).wf(),
    ensures
        old(ctxt).frame(&*final(ctxt)),
        table_fill_post(*old(i), *final(i), &*old(ctxt), &*final(ctxt), *old(o), *final(o), r),
{
    let table_idx = read_u32_imm(i)?;
    let n = ctxt.pop_var_with_type(ValType::i32());
    let ref_value = ctxt.pop_var();
    let iv = ctxt.pop_var_with_type(ValType::i32());
    let ref_value_type = match ref_value.type_ {
        ValType::Reference(rt) => rt,
        _ => {
            let mut m = String::from_str("table value to set must be of reference type, but got ");
            m.append(val_type_text(&ref_value.type_).as_str());
            ctxt.poison(ValidationError::Msg(m));
            RefType::FunctionReference
        },
    };
    match table_type_of(&ctxt.module.tables, table_idx) {
        Some(table_type) => {
            if ref_value_type != table_type {
                let mut m = String::from_str("table value to set must be of reference type ");
                m.append(ref_type_text(&table_type).as_str());
                m.append(", but got ");
                m.append(ref_type_text(&ref_value_type).as_str());
                ctxt.poison(ValidationError::Msg(m));
            }
        },
        None => ctxt.poison(ValidationError::Msg(id_text("table with id ", table_idx, " does not exist"))),
    }
    o.write(Instruction::TableFill { table_idx, i: iv.id, n: n.id, ref_value: ref_value.id });
    Ok(())
}

/// `table.copy`: destination table, then source table.
pub fn table_copy(ctxt: &mut Context, i: &mut WasmBinaryReader, o: &mut InstructionEncoder) -> (r: ParseResult)
    requires
        old(ctxt).wf(),
    ensures
        old(ctxt).frame(&*final(ctxt)),
        table_copy_post(*old(i), *final(i), &*old(ctxt), &*final(ctxt), *old(o), *final(o), r),
{
    let (table_idx_x, table_idx_y) = read_u32_pair(i)?;
    let n = ctxt.pop_var_with_type(ValType::i32());
    let s = ctxt.pop_var_with_type(ValType::i32());
    let d = ctxt.pop_var_with_type(ValType::i32());
    let table_type_x = match table_type_of(&ctxt.module.tables, table_idx_x) {
        Some(t) => t,
        None => {
            ctxt.poison(ValidationError::Msg(id_text("table with id ", table_idx_x, " does not exist")));
            RefType::FunctionReference
        },
    };
    let table_type_y = match table_type_of(&ctxt.module.tables, table_idx_y) {
        Some(t) => t,
        None => {
            ctxt.poison(ValidationError::Msg(id_text("table with id ", table_idx_y, " does not exist")));
            RefType::FunctionReference
        },
    };
    if table_type_x != table_type_y {
        let mut m = String::from_str("table types must match, but got ");
        m.append(ref_type_text(&table_type_x).as_str());
        m.append(" and ");
        m.append(ref_type_text(&table_type_y).as_str());
        ctxt.poison(ValidationError::Msg(m));
    }
    o.write(Instruction::TableCopy { table_idx_x, table_idx_y, n: n.id, s: s.id, d: d.id });
    Ok(())
}

/// `table.init`: element segment, then table.
pub fn table_init(ctxt: &mut Context, i: &mut WasmBinaryReader, o: &mut InstructionEncoder) -> (r: ParseResult)
    requires
        old(ctxt).wf(),
    ensures
        old(ctxt).frame(&*final(ctxt)),
        table_init_post(*old(i), *final(i), &*old(ctxt), &*final(ctxt), *old(o), *final(o), r),
{
    let (elem_idx, table_idx) = read_u32_pair(i)?;
    let n = ctxt.pop_var_with_type(ValType::i32());
    let s = ctxt.pop_var_with_type(ValType::i32());
    let d = ctxt.pop_var_with_type(ValType::i32());
    let table_type = match table_type_of(&ctxt.module.tables, table_idx) {
        Some(t) => t,
        None => {
            ctxt.poison(ValidationError::Msg(id_text("table with id ", table_idx, " does not exist")));
            RefType::FunctionReference
        },
    };
    let elem_type = if (elem_idx as usize) < ctxt.module.elements.len() {
        ctxt.module.elements[elem_idx as usize].type_
    } else {
        ctxt.poison(ValidationError::Msg(id_text("elem with id ", elem_idx, " does not exist")));
        RefType::FunctionReference
    };
    if table_type != elem_type {
        let mut m = String::from_str("table type ");
        m.append(ref_type_text(&table_type).as_str());
        m.append(" must match elem type ");
        m.append(ref_type_text(&elem_type).as_str());
        ctxt.poison(ValidationError::Msg(m));
    }
    o.write(Instruction::TableInit { table_idx, elem_idx, n: n.id, s: s.id, d: d.id });
    Ok(())
}

/// `elem.drop`
pub fn elem_drop(ctxt: &mut Context, i: &mut WasmBinaryReader, o: &mut InstructionEncoder) -> (r: ParseResult)
    requires
        old(ctxt).wf(),
    ensures
        old(ctxt).frame(&*final(ctxt)),
        elem_drop_post(*old(i), *final(i), &*old(ctxt), &*final(ctxt), *old(o), *final(o), r),
{
    let elem_idx = read_u32_imm(i)?;
    if elem_idx as usize >= ctxt.module.elements.len() {
        ctxt.poison(ValidationError::Msg(id_text("elem with idx ", elem_idx, " does not exist")));
    }
    o.write(Instruction::ElemDrop { elem_idx });
    Ok(())
}

/// What `table_set` does.
pub open spec fn table_set_post(
    i0: WasmBinaryReader,
    i1: WasmBinaryReader,
    x0: &Context,
    x1: &Context,
    o0: InstructionEncoder,
    o1: InstructionEncoder,
    r: ParseResult,
) -> bool {
    &&& ({
                let d = u32_dec(i0.remaining());
                let tables = x0.module.tables@;
                &&& advanced(i0, i1, d.2)
                &&& d.0 != LEB_OK() ==> r == Err::<(), ParserError>(leb_err(d.0)) && x1.model()
                    == x0.model() && enc_same(o0, o1)
                &&& d.0 == LEB_OK() ==> r is Ok
                &&& d.0 == LEB_OK() && d.1 >= tables.len() ==> x1.model() == m_poison(
                    x0.model(),
                ) && enc_same(o0, o1)
                &&& d.0 == LEB_OK() && d.1 < tables.len() ==> {
                    let rt = tables[d.1 as int].ty.ref_type;
                    let (m1, v) = m_pop(x0.model());
                    let (m2, idx) = m_pop_typed(
                        poison_if(m1, v.type_ != ValType::Reference(rt)),
                        ValType::Number(NumType::I32),
                    );
                    &&& x1.model() == m2
                    &&& appended(
                        o0,
                        o1,
                        Instruction::TableSet { table_idx: d.1, in1: v.id, idx: idx.id, input_type: v.type_ },
                    )
                }
            })
}

/// What `table_get` does.
pub open spec fn table_get_post(
    i0: WasmBinaryReader,
    i1: WasmBinaryReader,
    x0: &Context,
    x1: &Context,
    o0: InstructionEncoder,
    o1: InstructionEncoder,
    r: ParseResult,
) -> bool {
    &&& ({
                let d = u32_dec(i0.remaining());
                let tables = x0.module.tables@;
                &&& advanced(i0, i1, d.2)
                &&& d.0 != LEB_OK() ==> r == Err::<(), ParserError>(leb_err(d.0)) && x1.model()
                    == x0.model() && enc_same(o0, o1)
                &&& d.0 == LEB_OK() ==> r is Ok
                &&& d.0 == LEB_OK() && d.1 >= tables.len() ==> x1.model() == m_poison(
                    x0.model(),
                ) && enc_same(o0, o1)
                &&& d.0 == LEB_OK() && d.1 < tables.len() ==> {
                    let rt = tables[d.1 as int].ty.ref_type;
                    let (m1, idx) = m_pop_typed(x0.model(), ValType::Number(NumType::I32));
                    let (m2, out) = m_create(m1, ValType::Reference(rt));
                    &&& x1.model() == m_push(m2, out)
                    &&& appended(
                        o0,
                        o1,
                        Instruction::TableGet { table_idx: d.1, out1: out.id, idx: idx.id },
                    )
                }
            })
}

/// What `table_grow` does.
pub open spec fn table_grow_post(
    i0: WasmBinaryReader,
    i1: WasmBinaryReader,
    x0: &Context,
    x1: &Context,
    o0: InstructionEncoder,
    o1: InstructionEncoder,
    r: ParseResult,
) -> bool {
    &&& ({
                let d = u32_dec(i0.remaining());
                let tables = x0.module.tables@;
                &&& advanced(i0, i1, d.2)
                &&& d.0 != LEB_OK() ==> r == Err::<(), ParserError>(leb_err(d.0)) && x1.model()
                    == x0.model() && enc_same(o0, o1)
                &&& d.0 == LEB_OK() ==> r is Ok
                &&& d.0 == LEB_OK() && d.1 >= tables.len() ==> x1.model() == m_poison(
                    x0.model(),
                ) && enc_same(o0, o1)
                &&& d.0 == LEB_OK() && d.1 < tables.len() ==> {
                    let rt = tables[d.1 as int].ty.ref_type;
                    let (m1, size) = m_pop_typed(x0.model(), ValType::Number(NumType::I32));
                    let (m2, fill) = m_pop_typed(m1, ValType::Reference(rt));
                    let (m3, out) = m_create(m2, ValType::Number(NumType::I32));
                    &&& x1.model() == m_push(m3, out)
                    &&& appended(
                        o0,
                        o1,
                        Instruction::TableGrow {
                            table_idx: d.1,
                            size: size.id,
                            value_to_fill: fill.id,
                            out1: out.id,
                        },
                    )
                }
            })
}

/// What `table_size` does.
pub open spec fn table_size_post(
    i0: WasmBinaryReader,
    i1: WasmBinaryReader,
    x0: &Context,
    x1: &Context,
    o0: InstructionEncoder,
    o1: InstructionEncoder,
    r: ParseResult,
) -> bool {
    &&& ({
                let d = u32_dec(i0.remaining());
                let tables = x0.module.tables@;
                &&& advanced(i0, i1, d.2)
                &&& d.0 != LEB_OK() ==> r == Err::<(), ParserError>(leb_err(d.0)) && x1.model()
                    == x0.model() && enc_same(o0, o1)
                &&& d.0 == LEB_OK() ==> {
                    let (m1, out) = m_create(
                        poison_if(x0.model(), d.1 > tables.len()),
                        ValType::Number(NumType::I32),
                    );
                    &&& r is Ok
                    &&& x1.model() == m_push(m1, out)
                    &&& appended(o0, o1, Instruction::TableSize { table_idx: d.1, out1: out.id })
                }
            })
}

/// What `table_fill` does.
pub open spec fn table_fill_post(
    i0: WasmBinaryReader,
    i1: WasmBinaryReader,
    x0: &Context,
    x1: &Context,
    o0: InstructionEncoder,
    o1: InstructionEncoder,
    r: ParseResult,
) -> bool {
    &&& ({
                let d = u32_dec(i0.remaining());
                let tables = x0.module.tables@;
                &&& advanced(i0, i1, d.2)
                &&& d.0 != LEB_OK() ==> r == Err::<(), ParserError>(leb_err(d.0)) && x1.model()
                    == x0.model() && enc_same(o0, o1)
                &&& d.0 == LEB_OK() ==> {
                    let (m1, n) = m_pop_typed(x0.model(), ValType::Number(NumType::I32));
                    let (m2, rv) = m_pop(m1);
                    let (m3, iv) = m_pop_typed(m2, ValType::Number(NumType::I32));
                    let bad = !(rv.type_ is Reference) || d.1 >= tables.len()
                        || tables[d.1 as int].ty.ref_type != ref_type_or_default(rv.type_);
                    &&& r is Ok
                    &&& x1.model() == poison_if(m3, bad)
                    &&& appended(
                        o0,
                        o1,
                        Instruction::TableFill { table_idx: d.1, i: iv.id, n: n.id, ref_value: rv.id },
                    )
                }
            })
}

/// What `table_copy` does.
pub open spec fn table_copy_post(
    i0: WasmBinaryReader,
    i1: WasmBinaryReader,
    x0: &Context,
    x1: &Context,
    o0: InstructionEncoder,
    o1: InstructionEncoder,
    r: ParseResult,
) -> bool {
    &&& ({
                let d = u32_pair_dec(i0.remaining());
                let tables = x0.module.tables@;
                &&& advanced(i0, i1, d.3)
                &&& d.0 != LEB_OK() ==> r == Err::<(), ParserError>(leb_err(d.0)) && x1.model()
                    == x0.model() && enc_same(o0, o1)
                &&& d.0 == LEB_OK() ==> {
                    let (m, n, s, dd) = pop3_i32_effect(x0.model());
                    let bad = d.1 >= tables.len() || d.2 >= tables.len() || table_type_or_default(
                        tables,
                        d.1,
                    ) != table_type_or_default(tables, d.2);
                    &&& r is Ok
                    &&& x1.model() == poison_if(m, bad)
                    &&& appended(
                        o0,
                        o1,
                        Instruction::TableCopy {
                            table_idx_x: d.1,
                            table_idx_y: d.2,
                            n: n.id,
                            s: s.id,
                            d: dd.id,
                        },
                    )
                }
            })
}

/// What `table_init` does.
pub open spec fn table_init_post(
    i0: WasmBinaryReader,
    i1: WasmBinaryReader,
    x0: &Context,
    x1: &Context,
    o0: InstructionEncoder,
    o1: InstructionEncoder,
    r: ParseResult,
) -> bool {
    &&& ({
                let d = u32_pair_dec(i0.remaining());
                let tables = x0.module.tables@;
                let elements = x0.module.elements@;
                &&& advanced(i0, i1, d.3)
                &&& d.0 != LEB_OK() ==> r == Err::<(), ParserError>(leb_err(d.0)) && x1.model()
                    == x0.model() && enc_same(o0, o1)
                &&& d.0 == LEB_OK() ==> {
                    let (m, n, s, dd) = pop3_i32_effect(x0.model());
                    let bad = d.2 >= tables.len() || d.1 >= elements.len() || table_type_or_default(
                        tables,
                        d.2,
                    ) != elem_type_or_default(elements, d.1);
                    &&& r is Ok
                    &&& x1.model() == poison_if(m, bad)
                    &&& appended(
                        o0,
                        o1,
                        Instruction::TableInit { table_idx: d.2, elem_idx: d.1, n: n.id, s: s.id, d: dd.id },
                    )
                }
            })
}

/// What `elem_drop` does.
pub open spec fn elem_drop_post(
    i0: WasmBinaryReader,
    i1: WasmBinaryReader,
    x0: &Context,
    x1: &Context,
    o0: InstructionEncoder,
    o1: InstructionEncoder,
    r: ParseResult,
) -> bool {
    &&& ({
                let d = u32_dec(i0.remaining());
                &&& advanced(i0, i1, d.2)
                &&& d.0 != LEB_OK() ==> r == Err::<(), ParserError>(leb_err(d.0)) && x1.model()
                    == x0.model() && enc_same(o0, o1)
                &&& d.0 == LEB_OK() ==> r is Ok && x1.model() == poison_if(
                    x0.model(),
                    d.1 >= x0.module.elements@.len(),
                ) && appended(o0, o1, Instruction::ElemDrop { elem_idx: d.1 })
            })
}

} // verus!
