//! Variable instructions: reading and writing locals and globals.
use crate::context::{Context, m_create, m_poison, m_pop_typed, m_push};
use crate::decode::{advanced, leb_err, read_u32_imm, u32_dec};
use crate::error::{ParserError, ValidationError, id_text};
use crate::instructions::{ParseResult, appended, enc_same};
use crate::ir::{Instruction, InstructionEncoder};
use crate::reader::{LEB_OK, WasmBinaryReader};
use crate::types::{GlobalType, global_val_type, val_type_text};
use vstd::prelude::*;

verus! {

/// `local.get`: an unknown local is an error.
pub fn local_get(ctxt: &mut Context, i: &mut WasmBinaryReader, o: &mut InstructionEncoder) -> (r: ParseResult)
    requires
        old(ctxt).wf(),
    ensures
        old(ctxt).frame(&*final(ctxt)),
        local_get_post(*old(i), *final(i), &*old(ctxt), &*final(ctxt), *old(o), *final(o), r),
{
    let local_idx = read_u32_imm(i)?;
    if local_idx as usize >= ctxt.locals.len() {
        return Err(ParserError::ValidationError(ValidationError::Msg(id_text("local variable with index ", local_idx, " not found"))));
    }
    let local_ty = ctxt.locals[local_idx as usize];
    let out = ctxt.create_var(local_ty);
    o.write(Instruction::LocalGet { out1: out.id, local_idx });
    ctxt.push_var(out);
    Ok(())
}

/// `global.get`
pub fn global_get(ctxt: &mut Context, i: &mut WasmBinaryReader, o: &mut InstructionEncoder) -> (r: ParseResult)
    requires
        old(ctxt).wf(),
    ensures
        old(ctxt).frame(&*final(ctxt)),
        global_get_post(*old(i), *final(i), &*old(ctxt), &*final(ctxt), *old(o), *final(o), r),
{
    let global_idx = read_u32_imm(i)?;
    if global_idx as usize >= ctxt.module.globals.len() {
        ctxt.poison(ValidationError::Msg(id_text("global variable with index ", global_idx, " not found")));
        return Ok(());
    }
    let global_type = ctxt.module.globals[global_idx as usize].ty.val_type();
    let out = ctxt.create_var(global_type);
    o.write(Instruction::GlobalGet { out1: out.id, global_idx });
    ctxt.push_var(out);
    Ok(())
}

/// `local.set`
pub fn local_set(ctxt: &mut Context, i: &mut WasmBinaryReader, o: &mut InstructionEncoder) -> (r: ParseResult)
    requires
        old(ctxt).wf(),
    ensures
        old(ctxt).frame(&*final(ctxt)),
        local_set_post(*old(i), *final(i), &*old(ctxt), &*final(ctxt), *old(o), *final(o), r),
{
    let local_idx = read_u32_imm(i)?;
    if local_idx as usize >= ctxt.locals.len() {
        ctxt.poison(ValidationError::Msg(id_text("local variable with index ", local_idx, " not found")));
        return Ok(());
    }
    let local_ty = ctxt.locals[local_idx as usize];
    let value = ctxt.pop_var_with_type(local_ty);
    if value.type_ != local_ty {
        let mut m = id_text("stack value type does not match local ", local_idx, " type: ");
        m.append(val_type_text(&value.type_).as_str());
        m.append(" vs ");
        m.append(val_type_text(&local_ty).as_str());
        ctxt.poison(ValidationError::Msg(m));
    } else {
        o.write(Instruction::LocalSet { local_idx, in1: value.id });
    }
    Ok(())
}

/// `global.set`: setting an immutable global poisons the context.
pub fn global_set(ctxt: &mut Context, i: &mut WasmBinaryReader, o: &mut InstructionEncoder) -> (r: ParseResult)
    requires
        old(ctxt).wf(),
    ensures
        old(ctxt).frame(&*final(ctxt)),
        global_set_post(*old(i), *final(i), &*old(ctxt), &*final(ctxt), *old(o), *final(o), r),
{
    let global_idx = read_u32_imm(i)?;
    if global_idx as usize >= ctxt.module.globals.len() {
        ctxt.poison(ValidationError::Msg(id_text("global variable with index ", global_idx, " not found")));
        return Ok(());
    }
    let global_type = match ctxt.module.globals[global_idx as usize].ty {
        GlobalType::Const(_) => {
            ctxt.poison(ValidationError::Msg(id_text("cannot set const global ", global_idx, "")));
            return Ok(());
        },
        GlobalType::Mut(t) => t,
    };
    let value = ctxt.pop_var_with_type(global_type);
    if value.type_ != global_type {
        let mut m = id_text("stack value type does not match global ", global_idx, " type: ");
        m.append(val_type_text(&value.type_).as_str());
        m.append(" vs ");
        m.append(val_type_text(&global_type).as_str());
        ctxt.poison(ValidationError::Msg(m));
    }
    o.write(Instruction::GlobalSet { global_idx, in1: value.id });
    Ok(())
}

/// `local.tee`
pub fn local_tee(ctxt: &mut Context, i: &mut WasmBinaryReader, o: &mut InstructionEncoder) -> (r: ParseResult)
    requires
        old(ctxt).wf(),
    ensures
        old(ctxt).frame(&*final(ctxt)),
        local_tee_post(*old(i), *final(i), &*old(ctxt), &*final(ctxt), *old(o), *final(o), r),
{
    let local_idx = read_u32_imm(i)?;
    if local_idx as usize >= ctxt.locals.len() {
        ctxt.poison(ValidationError::Msg(id_text("local variable with index ", local_idx, " not found")));
        return Ok(());
    }
    let local_ty = ctxt.locals[local_idx as usize];
    let in_stack_var = ctxt.pop_var_with_type(local_ty);
    if in_stack_var.type_ != local_ty {
        let mut m = id_text("stack value type does not match local ", local_idx, " type: ");
        m.append(val_type_text(&in_stack_var.type_).as_str());
        m.append(" vs ");
        m.append(val_type_text(&local_ty).as_str());
        ctxt.poison(ValidationError::Msg(m));
    }
    let out_stack_var = ctxt.create_var(local_ty);
    o.write(Instruction::LocalTee { local_idx, in1: in_stack_var.id, out1: out_stack_var.id });
    ctxt.push_var(out_stack_var);
    Ok(())
}

/// What `local_get` does.
pub open spec fn local_get_post(
    i0: WasmBinaryReader,
    i1: WasmBinaryReader,
    x0: &Context,
    x1: &Context,
    o0: InstructionEncoder,
    o1: InstructionEncoder,
    r: ParseResult,
) -> bool {
    &&& ({
                let d = u32_dec(i0.remaining());
                let locals = x0.locals@;
                &&& advanced(i0, i1, d.2)
                &&& d.0 != LEB_OK() ==> r == Err::<(), ParserError>(leb_err(d.0))
                &&& d.0 == LEB_OK() && d.1 >= locals.len() ==> (r matches Err(
                    ParserError::ValidationError(_),
                ))
                &&& r is Err ==> x1.model() == x0.model() && enc_same(o0, o1)
                &&& d.0 == LEB_OK() && d.1 < locals.len() ==> {
                    let (m1, out) = m_create(x0.model(), locals[d.1 as int]);
                    &&& r is Ok
                    &&& x1.model() == m_push(m1, out)
                    &&& appended(o0, o1, Instruction::LocalGet { out1: out.id, local_idx: d.1 })
                }
            })
}

/// What `global_get` does.
pub open spec fn global_get_post(
    i0: WasmBinaryReader,
    i1: WasmBinaryReader,
    x0: &Context,
    x1: &Context,
    o0: InstructionEncoder,
    o1: InstructionEncoder,
    r: ParseResult,
) -> bool {
    &&& ({
                let d = u32_dec(i0.remaining());
                let globals = x0.module.globals@;
                &&& advanced(i0, i1, d.2)
                &&& d.0 != LEB_OK() ==> r == Err::<(), ParserError>(leb_err(d.0)) && x1.model()
                    == x0.model() && enc_same(o0, o1)
                &&& d.0 == LEB_OK() ==> r is Ok
                &&& d.0 == LEB_OK() && d.1 >= globals.len() ==> x1.model() == m_poison(
                    x0.model(),
                ) && enc_same(o0, o1)
                &&& d.0 == LEB_OK() && d.1 < globals.len() ==> {
                    let (m1, out) = m_create(x0.model(), global_val_type(globals[d.1 as int].ty));
                    &&& x1.model() == m_push(m1, out)
                    &&& appended(o0, o1, Instruction::GlobalGet { out1: out.id, global_idx: d.1 })
                }
            })
}

/// What `local_set` does.
pub open spec fn local_set_post(
    i0: WasmBinaryReader,
    i1: WasmBinaryReader,
    x0: &Context,
    x1: &Context,
    o0: InstructionEncoder,
    o1: InstructionEncoder,
    r: ParseResult,
) -> bool {
    &&& ({
                let d = u32_dec(i0.remaining());
                let locals = x0.locals@;
                &&& advanced(i0, i1, d.2)
                &&& d.0 != LEB_OK() ==> r == Err::<(), ParserError>(leb_err(d.0)) && x1.model()
                    == x0.model() && enc_same(o0, o1)
                &&& d.0 == LEB_OK() ==> r is Ok
                &&& d.0 == LEB_OK() && d.1 >= locals.len() ==> x1.model() == m_poison(
                    x0.model(),
                ) && enc_same(o0, o1)
                &&& d.0 == LEB_OK() && d.1 < locals.len() ==> {
                    let (m1, v) = m_pop_typed(x0.model(), locals[d.1 as int]);
                    &&& x1.model() == m1
                    &&& appended(o0, o1, Instruction::LocalSet { local_idx: d.1, in1: v.id })
                }
            })
}

/// What `global_set` does.
pub open spec fn global_set_post(
    i0: WasmBinaryReader,
    i1: WasmBinaryReader,
    x0: &Context,
    x1: &Context,
    o0: InstructionEncoder,
    o1: InstructionEncoder,
    r: ParseResult,
) -> bool {
    &&& ({
                let d = u32_dec(i0.remaining());
                let globals = x0.module.globals@;
                &&& advanced(i0, i1, d.2)
                &&& d.0 != LEB_OK() ==> r == Err::<(), ParserError>(leb_err(d.0)) && x1.model()
                    == x0.model() && enc_same(o0, o1)
                &&& d.0 == LEB_OK() ==> r is Ok
                &&& d.0 == LEB_OK() && (d.1 >= globals.len() || globals[d.1 as int].ty is Const)
                    ==> x1.model() == m_poison(x0.model()) && enc_same(o0, o1)
                &&& d.0 == LEB_OK() && d.1 < globals.len() && globals[d.1 as int].ty is Mut ==> {
                    let (m1, v) = m_pop_typed(x0.model(), global_val_type(globals[d.1 as int].ty));
                    &&& x1.model() == m1
                    &&& appended(o0, o1, Instruction::GlobalSet { global_idx: d.1, in1: v.id })
                }
            })
}

/// What `local_tee` does.
pub open spec fn local_tee_post(
    i0: WasmBinaryReader,
    i1: WasmBinaryReader,
    x0: &Context,
    x1: &Context,
    o0: InstructionEncoder,
    o1: InstructionEncoder,
    r: ParseResult,
) -> bool {
    &&& ({
                let d = u32_dec(i0.remaining());
                let locals = x0.locals@;
                &&& advanced(i0, i1, d.2)
                &&& d.0 != LEB_OK() ==> r == Err::<(), ParserError>(leb_err(d.0)) && x1.model()
                    == x0.model() && enc_same(o0, o1)
                &&& d.0 == LEB_OK() ==> r is Ok
                &&& d.0 == LEB_OK() && d.1 >= locals.len() ==> x1.model() == m_poison(
                    x0.model(),
                ) && enc_same(o0, o1)
                &&& d.0 == LEB_OK() && d.1 < locals.len() ==> {
                    let (m1, v) = m_pop_typed(x0.model(), locals[d.1 as int]);
                    let (m2, out) = m_create(m1, locals[d.1 as int]);
                    &&& x1.model() == m_push(m2, out)
                    &&& appended(
                        o0,
                        o1,
                        Instruction::LocalTee { local_idx: d.1, in1: v.id, out1: out.id },
                    )
                }
            })
}

} // verus!
