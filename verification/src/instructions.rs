//! Parsing of single instructions: each reads its immediates, checks and updates the operand
//! stack, and writes one IR instruction (or ends the basic block with a control instruction).
use crate::context::{Context, CtxModel, m_create, m_poison, m_pop, m_pop_typed, m_push};
use crate::decode::{
    advanced, leb_err, memarg_dec, read_blocktype, read_memarg, read_reftype, read_u32_imm,
    reftype_of_byte, u32_dec,
};
use crate::error::{ParserError, ValidationError};
use crate::ir::{
    ConstImm, ControlInstruction, FBinaryOp, FRelationalOp, FUnaryOp, IBinaryOp, IRelationalOp,
    IUnaryOp, Instruction, InstructionEncoder, LoadOp, MemArg, StoreOp, Variable,
};
use crate::reader::{LEB_OK, WasmBinaryReader, leb, leb_bits, rest, sign_extend};
use crate::types::{GlobalType, LabelIdx, NumType, RefType, ValType, global_val_type};
use vstd::prelude::*;

verus! {

pub type ParseResult = Result<(), ParserError>;

// ------------------------------------------------------------------ effects on the context

/// Pops two operands of type `in_t` (right-hand side first) and pushes a fresh result of type
/// `out_t`: `(context, lhs, rhs, result)`.
pub open spec fn binop_effect(m: CtxModel, in_t: ValType, out_t: ValType) -> (
    CtxModel,
    Variable,
    Variable,
    Variable,
) {
    let (m1, rhs) = m_pop_typed(m, in_t);
    let (m2, lhs) = m_pop_typed(m1, in_t);
    let (m3, out) = m_create(m2, out_t);
    (m_push(m3, out), lhs, rhs, out)
}

/// Pops an operand of type `in_t` and pushes a fresh result of type `out_t`.
pub open spec fn unop_effect(m: CtxModel, in_t: ValType, out_t: ValType) -> (
    CtxModel,
    Variable,
    Variable,
) {
    let (m1, in1) = m_pop_typed(m, in_t);
    let (m2, out) = m_create(m1, out_t);
    (m_push(m2, out), in1, out)
}

/// Pushes a fresh result of type `out_t`.
pub open spec fn push_new_effect(m: CtxModel, out_t: ValType) -> (CtxModel, Variable) {
    let (m1, out) = m_create(m, out_t);
    (m_push(m1, out), out)
}

/// Pops three `i32` operands (`n`, then `s`, then `d`).
pub open spec fn pop3_i32_effect(m: CtxModel) -> (CtxModel, Variable, Variable, Variable) {
    let (m1, n) = m_pop_typed(m, ValType::Number(NumType::I32));
    let (m2, s) = m_pop_typed(m1, ValType::Number(NumType::I32));
    let (m3, d) = m_pop_typed(m2, ValType::Number(NumType::I32));
    (m3, n, s, d)
}

/// The encoder got one more instruction.
pub open spec fn appended(o0: InstructionEncoder, o1: InstructionEncoder, x: Instruction) -> bool {
    &&& o1.instructions() == o0.instructions().push(x)
    &&& o1.terminator_spec() == o0.terminator_spec()
}

/// The encoder is as it was.
pub open spec fn enc_same(o0: InstructionEncoder, o1: InstructionEncoder) -> bool {
    &&& o1.instructions() == o0.instructions()
    &&& o1.terminator_spec() == o0.terminator_spec()
}

/// The encoder's block was ended by `t`.
pub open spec fn terminated(o0: InstructionEncoder, o1: InstructionEncoder, t: ControlInstruction) -> bool {
    &&& o1.instructions() == o0.instructions()
    &&& o1.terminator_spec() == Some(t)
}

pub open spec fn same_reader(i0: WasmBinaryReader, i1: WasmBinaryReader) -> bool {
    advanced(i0, i1, 0)
}

pub open spec fn ibinary_post(
    c0: CtxModel,
    c1: CtxModel,
    o0: InstructionEncoder,
    o1: InstructionEncoder,
    op: IBinaryOp,
    t: NumType,
) -> bool {
    let (m, lhs, rhs, out) = binop_effect(c0, ValType::Number(t), ValType::Number(t));
    &&& c1 == m
    &&& appended(o0, o1, Instruction::IBinary { types: t, op, lhs: lhs.id, rhs: rhs.id, out1: out.id })
}

pub open spec fn fbinary_post(
    c0: CtxModel,
    c1: CtxModel,
    o0: InstructionEncoder,
    o1: InstructionEncoder,
    op: FBinaryOp,
    t: NumType,
) -> bool {
    let (m, lhs, rhs, out) = binop_effect(c0, ValType::Number(t), ValType::Number(t));
    &&& c1 == m
    &&& appended(o0, o1, Instruction::FBinary { types: t, op, lhs: lhs.id, rhs: rhs.id, out1: out.id })
}

pub open spec fn irelational_post(
    c0: CtxModel,
    c1: CtxModel,
    o0: InstructionEncoder,
    o1: InstructionEncoder,
    op: IRelationalOp,
    t: NumType,
) -> bool {
    let (m, in1, in2, out) = binop_effect(c0, ValType::Number(t), ValType::Number(NumType::I32));
    &&& c1 == m
    &&& appended(
        o0,
        o1,
        Instruction::IRelational { input_types: t, op, in1: in1.id, in2: in2.id, out1: out.id },
    )
}

pub open spec fn frelational_post(
    c0: CtxModel,
    c1: CtxModel,
    o0: InstructionEncoder,
    o1: InstructionEncoder,
    op: FRelationalOp,
    t: NumType,
) -> bool {
    let (m, in1, in2, out) = binop_effect(c0, ValType::Number(t), ValType::Number(NumType::I32));
    &&& c1 == m
    &&& appended(
        o0,
        o1,
        Instruction::FRelational { input_types: t, op, in1: in1.id, in2: in2.id, out1: out.id },
    )
}

pub open spec fn convert_post(
    c0: CtxModel,
    c1: CtxModel,
    o0: InstructionEncoder,
    o1: InstructionEncoder,
    in_t: NumType,
    out_t: NumType,
    signed: bool,
) -> bool {
    let (m, in1, out) = unop_effect(c0, ValType::Number(in_t), ValType::Number(out_t));
    &&& c1 == m
    &&& appended(
        o0,
        o1,
        Instruction::Convert { in1: in1.id, in1_type: in_t, out1: out.id, out1_type: out_t, signed },
    )
}

pub open spec fn reinterpret_post(
    c0: CtxModel,
    c1: CtxModel,
    o0: InstructionEncoder,
    o1: InstructionEncoder,
    in_t: NumType,
    out_t: NumType,
) -> bool {
    let (m, in1, out) = unop_effect(c0, ValType::Number(in_t), ValType::Number(out_t));
    &&& c1 == m
    &&& appended(
        o0,
        o1,
        Instruction::Reinterpret { in1: in1.id, in1_type: in_t, out1: out.id, out1_type: out_t },
    )
}

pub open spec fn extend_post(
    c0: CtxModel,
    c1: CtxModel,
    o0: InstructionEncoder,
    o1: InstructionEncoder,
    input_size: u8,
    t: NumType,
) -> bool {
    let (m, in1, out) = unop_effect(c0, ValType::Number(t), ValType::Number(t));
    &&& c1 == m
    &&& appended(
        o0,
        o1,
        Instruction::ExtendBits { in1: in1.id, in1_type: t, input_size, out1: out.id, out1_type: t },
    )
}

pub open spec fn extend_type_post(
    c0: CtxModel,
    c1: CtxModel,
    o0: InstructionEncoder,
    o1: InstructionEncoder,
    signed: bool,
) -> bool {
    let (m, in1, out) = unop_effect(
        c0,
        ValType::Number(NumType::I32),
        ValType::Number(NumType::I64),
    );
    &&& c1 == m
    &&& appended(o0, o1, Instruction::ExtendType { signed, out1: out.id, in1: in1.id })
}

pub open spec fn trunc_post(
    c0: CtxModel,
    c1: CtxModel,
    o0: InstructionEncoder,
    o1: InstructionEncoder,
    in_t: NumType,
    out_t: NumType,
    signed: bool,
) -> bool {
    let (m, in1, out) = unop_effect(c0, ValType::Number(in_t), ValType::Number(out_t));
    &&& c1 == m
    &&& appended(
        o0,
        o1,
        Instruction::Trunc { in1: in1.id, in1_type: in_t, out1: out.id, out1_type: out_t, signed },
    )
}

pub open spec fn trunc_sat_post(
    c0: CtxModel,
    c1: CtxModel,
    o0: InstructionEncoder,
    o1: InstructionEncoder,
    in_t: NumType,
    out_t: NumType,
    signed: bool,
) -> bool {
    let (m, in1, out) = unop_effect(c0, ValType::Number(in_t), ValType::Number(out_t));
    &&& c1 == m
    &&& appended(
        o0,
        o1,
        Instruction::TruncSaturation {
            in1: in1.id,
            in1_type: in_t,
            out1: out.id,
            out1_type: out_t,
            signed,
        },
    )
}

/// The natural alignment exponent of a load or store (`log2` of its width in bytes).
pub open spec fn natural_align_log(t: NumType, width_bits: nat) -> nat {
    if width_bits == 8 {
        0
    } else if width_bits == 16 {
        1
    } else if width_bits == 32 {
        2
    } else if width_bits == 64 {
        3
    } else {
        match t {
            NumType::I32 | NumType::F32 => 2,
            NumType::I64 | NumType::F64 => 3,
        }
    }
}

/// Width in bits of the memory access of a load (`0` for the full width of the type).
pub open spec fn load_width(op: LoadOp) -> nat {
    match op {
        LoadOp::INNLoad | LoadOp::FNNLoad => 0,
        LoadOp::INNLoad8S | LoadOp::INNLoad8U => 8,
        LoadOp::INNLoad16S | LoadOp::INNLoad16U => 16,
        LoadOp::INNLoad32S | LoadOp::INNLoad32U => 32,
    }
}

pub open spec fn load_post(
    i0: WasmBinaryReader,
    i1: WasmBinaryReader,
    c0: CtxModel,
    c1: CtxModel,
    o0: InstructionEncoder,
    o1: InstructionEncoder,
    out_type: NumType,
    operation: LoadOp,
    r: ParseResult,
) -> bool {
    let d = memarg_dec(i0.remaining());
    &&& advanced(i0, i1, d.2)
    &&& d.0 != LEB_OK() ==> r == Err::<(), ParserError>(leb_err(d.0)) && c1 == c0 && enc_same(o0, o1)
    &&& d.0 == LEB_OK() && d.1.align > natural_align_log(out_type, load_width(operation)) ==> r
        == Err::<(), ParserError>(ParserError::AlignmentLargerThanNatural) && c1 == c0 && enc_same(
        o0,
        o1,
    )
    &&& d.0 == LEB_OK() && d.1.align <= natural_align_log(out_type, load_width(operation)) ==> {
        let (m, addr, out) = unop_effect(
            c0,
            ValType::Number(NumType::I32),
            ValType::Number(out_type),
        );
        &&& r is Ok
        &&& c1 == m
        &&& appended(
            o0,
            o1,
            Instruction::Load {
                memarg: d.1,
                out1: out.id,
                out1_type: out_type,
                addr: addr.id,
                operation,
            },
        )
    }
}

pub open spec fn store_post(
    i0: WasmBinaryReader,
    i1: WasmBinaryReader,
    c0: CtxModel,
    c1: CtxModel,
    o0: InstructionEncoder,
    o1: InstructionEncoder,
    input_type: NumType,
    operation: StoreOp,
    r: ParseResult,
) -> bool {
    let d = memarg_dec(i0.remaining());
    &&& advanced(i0, i1, d.2)
    &&& d.0 != LEB_OK() ==> r == Err::<(), ParserError>(leb_err(d.0)) && c1 == c0 && enc_same(o0, o1)
    &&& d.0 == LEB_OK() ==> {
        let (m1, value_in) = m_pop_typed(c0, ValType::Number(input_type));
        let (m2, addr_in) = m_pop_typed(m1, ValType::Number(NumType::I32));
        &&& r is Ok
        &&& c1 == m2
        &&& appended(
            o0,
            o1,
            Instruction::Store {
                memarg: d.1,
                addr_in: addr_in.id,
                value_in: value_in.id,
                in_type: input_type,
                operation,
            },
        )
    }
}

/// An instruction without immediates that only transforms the stack: reader untouched, `Ok`.
pub open spec fn simple_ok(
    i0: WasmBinaryReader,
    i1: WasmBinaryReader,
    r: ParseResult,
) -> bool {
    same_reader(i0, i1) && r is Ok
}

// ------------------------------------------------------------------ generic handlers

/// An integer binary operation.
pub fn i_arith(ctxt: &mut Context, o: &mut InstructionEncoder, op: IBinaryOp, type_: NumType) -> (r: ParseResult)
    requires
        old(ctxt).wf(),
    ensures
        old(ctxt).frame(&*final(ctxt)),
        r is Ok,
        ibinary_post(old(ctxt).model(), final(ctxt).model(), *old(o), *final(o), op, type_),
{
    let rhs = ctxt.pop_var_with_type(ValType::Number(type_));
    let lhs = ctxt.pop_var_with_type(ValType::Number(type_));
    let out = ctxt.create_var(ValType::Number(type_));
    o.write(Instruction::IBinary { types: type_, op, lhs: lhs.id, rhs: rhs.id, out1: out.id });
    ctxt.push_var(out);
    Ok(())
}

/// A floating-point binary operation.
pub fn f_arith(ctxt: &mut Context, o: &mut InstructionEncoder, op: FBinaryOp, type_: NumType) -> (r: ParseResult)
    requires
        old(ctxt).wf(),
    ensures
        old(ctxt).frame(&*final(ctxt)),
        r is Ok,
        fbinary_post(old(ctxt).model(), final(ctxt).model(), *old(o), *final(o), op, type_),
{
    let rhs = ctxt.pop_var_with_type(ValType::Number(type_));
    let lhs = ctxt.pop_var_with_type(ValType::Number(type_));
    let out = ctxt.create_var(ValType::Number(type_));
    o.write(Instruction::FBinary { types: type_, op, lhs: lhs.id, rhs: rhs.id, out1: out.id });
    ctxt.push_var(out);
    Ok(())
}

/// An integer comparison.
pub fn i_relational(ctxt: &mut Context, o: &mut InstructionEncoder, op: IRelationalOp, type_: NumType) -> (r: ParseResult)
    requires
        old(ctxt).wf(),
    ensures
        old(ctxt).frame(&*final(ctxt)),
        r is Ok,
        irelational_post(old(ctxt).model(), final(ctxt).model(), *old(o), *final(o), op, type_),
{
    let in2 = ctxt.pop_var_with_type(ValType::Number(type_));
    let in1 = ctxt.pop_var_with_type(ValType::Number(type_));
    let out = ctxt.create_var(ValType::i32());
    o.write(Instruction::IRelational { input_types: type_, op, in1: in1.id, in2: in2.id, out1: out.id });
    ctxt.push_var(out);
    Ok(())
}

/// A floating-point comparison.
pub fn f_relational(ctxt: &mut Context, o: &mut InstructionEncoder, op: FRelationalOp, type_: NumType) -> (r: ParseResult)
    requires
        old(ctxt).wf(),
    ensures
        old(ctxt).frame(&*final(ctxt)),
        r is Ok,
        frelational_post(old(ctxt).model(), final(ctxt).model(), *old(o), *final(o), op, type_),
{
    let in2 = ctxt.pop_var_with_type(ValType::Number(type_));
    let in1 = ctxt.pop_var_with_type(ValType::Number(type_));
    let out = ctxt.create_var(ValType::i32());
    o.write(Instruction::FRelational { input_types: type_, op, in1: in1.id, in2: in2.id, out1: out.id });
    ctxt.push_var(out);
    Ok(())
}

/// A conversion between an integer and a floating-point type.
pub fn parse_convert(ctxt: &mut Context, o: &mut InstructionEncoder, input_type: NumType, out_type: NumType, signed: bool) -> (r: ParseResult)
    requires
        old(ctxt).wf(),
    ensures
        old(ctxt).frame(&*final(ctxt)),
        r is Ok,
        convert_post(old(ctxt).model(), final(ctxt).model(), *old(o), *final(o), input_type, out_type, signed),
{
    let in_ = ctxt.pop_var_with_type(ValType::Number(input_type));
    let out = ctxt.create_var(ValType::Number(out_type));
    o.write(Instruction::Convert { in1: in_.id, in1_type: input_type, out1: out.id, out1_type: out_type, signed });
    ctxt.push_var(out);
    Ok(())
}

/// A reinterpretation of the bits of a value as another type.
pub fn parse_reinterpret(ctxt: &mut Context, _i: &mut WasmBinaryReader, o: &mut InstructionEncoder, input_type: NumType, out_type: NumType) -> (r: ParseResult)
    requires
        old(ctxt).wf(),
    ensures
        old(ctxt).frame(&*final(ctxt)),
        simple_ok(*old(_i), *final(_i), r),
        reinterpret_post(old(ctxt).model(), final(ctxt).model(), *old(o), *final(o), input_type, out_type),
{
    let in_ = ctxt.pop_var_with_type(ValType::Number(input_type));
    let out = ctxt.create_var(ValType::Number(out_type));
    o.write(Instruction::Reinterpret { in1: in_.id, in1_type: input_type, out1: out.id, out1_type: out_type });
    ctxt.push_var(out);
    Ok(())
}

/// A sign extension of the low `input_size` bits.
pub fn parse_extend(ctxt: &mut Context, _i: &mut WasmBinaryReader, o: &mut InstructionEncoder, input_size: u8, out_type: NumType) -> (r: ParseResult)
    requires
        old(ctxt).wf(),
    ensures
        old(ctxt).frame(&*final(ctxt)),
        simple_ok(*old(_i), *final(_i), r),
        extend_post(old(ctxt).model(), final(ctxt).model(), *old(o), *final(o), input_size, out_type),
{
    let in_ = ctxt.pop_var_with_type(ValType::Number(out_type));
    let out = ctxt.create_var(ValType::Number(out_type));
    o.write(Instruction::ExtendBits { in1: in_.id, in1_type: out_type, input_size, out1: out.id, out1_type: out_type });
    ctxt.push_var(out);
    Ok(())
}

/// An extension of an `i32` to an `i64`.
pub fn parse_extend_type(ctxt: &mut Context, _i: &mut WasmBinaryReader, o: &mut InstructionEncoder, signed: bool) -> (r: ParseResult)
    requires
        old(ctxt).wf(),
    ensures
        old(ctxt).frame(&*final(ctxt)),
        simple_ok(*old(_i), *final(_i), r),
        extend_type_post(old(ctxt).model(), final(ctxt).model(), *old(o), *final(o), signed),
{
    let in_ = ctxt.pop_var_with_type(ValType::i32());
    let out = ctxt.create_var(ValType::i64());
    o.write(Instruction::ExtendType { signed, out1: out.id, in1: in_.id });
    ctxt.push_var(out);
    Ok(())
}

/// A truncation of a floating-point value to an integer (trapping).
pub fn parse_trunc(ctxt: &mut Context, o: &mut InstructionEncoder, input_type: NumType, out_type: NumType, signed: bool) -> (r: ParseResult)
    requires
        old(ctxt).wf(),
    ensures
        old(ctxt).frame(&*final(ctxt)),
        r is Ok,
        trunc_post(old(ctxt).model(), final(ctxt).model(), *old(o), *final(o), input_type, out_type, signed),
{
    let in_ = ctxt.pop_var_with_type(ValType::Number(input_type));
    let out = ctxt.create_var(ValType::Number(out_type));
    o.write(Instruction::Trunc { in1: in_.id, in1_type: input_type, out1: out.id, out1_type: out_type, signed });
    ctxt.push_var(out);
    Ok(())
}

/// A saturating truncation of a floating-point value to an integer.
pub fn parse_trunc_sat(ctxt: &mut Context, o: &mut InstructionEncoder, in_type: NumType, out_type: NumType, signed: bool) -> (r: ParseResult)
    requires
        old(ctxt).wf(),
    ensures
        old(ctxt).frame(&*final(ctxt)),
        r is Ok,
        trunc_sat_post(old(ctxt).model(), final(ctxt).model(), *old(o), *final(o), in_type, out_type, signed),
{
    let in1 = ctxt.pop_var_with_type(ValType::Number(in_type));
    let out1 = ctxt.create_var(ValType::Number(out_type));
    o.write(Instruction::TruncSaturation { in1: in1.id, out1: out1.id, in1_type: in_type, out1_type: out_type, signed });
    ctxt.push_var(out1);
    Ok(())
}

/// Natural alignment exponent of a memory access.
fn natural_alignment_log(out_type: NumType, width_bits: u32) -> (r: u32)
    requires
        width_bits == 0 || width_bits == 8 || width_bits == 16 || width_bits == 32,
    ensures
        r == natural_align_log(out_type, width_bits as nat),
{
    match width_bits {
        8 => 0,
        16 => 1,
        32 => 2,
        _ => match out_type {
            NumType::I32 | NumType::F32 => 2,
            NumType::I64 | NumType::F64 => 3,
        },
    }
}

/// A load from memory: memory immediate, alignment check, address operand, result.
pub fn parse_load(ctxt: &mut Context, i: &mut WasmBinaryReader, o: &mut InstructionEncoder, out_type: NumType, operation: LoadOp) -> (r: ParseResult)
    requires
        old(ctxt).wf(),
    ensures
        old(ctxt).frame(&*final(ctxt)),
        load_post(*old(i), *final(i), old(ctxt).model(), final(ctxt).model(), *old(o), *final(o), out_type, operation, r),
{
    let memarg = read_memarg(i)?;
    let width: u32 = match operation {
        LoadOp::INNLoad | LoadOp::FNNLoad => 0,
        LoadOp::INNLoad8S | LoadOp::INNLoad8U => 8,
        LoadOp::INNLoad16S | LoadOp::INNLoad16U => 16,
        LoadOp::INNLoad32S | LoadOp::INNLoad32U => 32,
    };
    if memarg.align > natural_alignment_log(out_type, width) {
        return Err(ParserError::AlignmentLargerThanNatural);
    }
    let in_ = ctxt.pop_var_with_type(ValType::i32());
    let out = ctxt.create_var(ValType::Number(out_type));
    o.write(Instruction::Load { memarg, out1: out.id, out1_type: out_type, addr: in_.id, operation });
    ctxt.push_var(out);
    Ok(())
}

/// A store to memory: memory immediate, value operand, address operand.
pub fn parse_store(ctxt: &mut Context, i: &mut WasmBinaryReader, o: &mut InstructionEncoder, input_type: NumType, operation: StoreOp) -> (r: ParseResult)
    requires
        old(ctxt).wf(),
    ensures
        old(ctxt).frame(&*final(ctxt)),
        store_post(*old(i), *final(i), old(ctxt).model(), final(ctxt).model(), *old(o), *final(o), input_type, operation, r),
{
    let memarg = read_memarg(i)?;
    let value_in = ctxt.pop_var_with_type(ValType::Number(input_type));
    let addr_in = ctxt.pop_var_with_type(ValType::i32());
    o.write(Instruction::Store { memarg, addr_in: addr_in.id, value_in: value_in.id, in_type: input_type, operation });
    Ok(())
}


// ------------------------------------------------------------------ memory management

/// Reads one byte that must be zero (a reserved memory index).
fn read_zero_byte(i: &mut WasmBinaryReader, msg: &str) -> (r: Result<(), ParserError>)
    ensures
        final(i).source() == old(i).source(),
        old(i).remaining().len() == 0 ==> r == Err::<(), ParserError>(ParserError::UnexpectedEOF)
            && final(i).position() == old(i).position(),
        old(i).remaining().len() > 0 ==> final(i).position() == old(i).position() + 1 && (r is Ok
            <==> old(i).remaining()[0] == 0),
        r is Err ==> r != Err::<(), ParserError>(ParserError::UnexpectedEOF) ==> old(i).remaining().len() > 0,
{
    proof {
        old(i).lemma_position();
    }
    let b = i.read_byte()?;
    if b != 0 {
        return Err(ParserError::msg(msg));
    }
    Ok(())
}

/// `memory.size`
pub fn memory_size(ctxt: &mut Context, i: &mut WasmBinaryReader, o: &mut InstructionEncoder) -> (r: ParseResult)
    requires
        old(ctxt).wf(),
    ensures
        old(ctxt).frame(&*final(ctxt)),
        memory_size_post(*old(i), *final(i), &*old(ctxt), &*final(ctxt), *old(o), *final(o), r),
{
    read_zero_byte(i, "memory size instruction invalid encoding")?;
    let out = ctxt.create_var(ValType::i32());
    o.write(Instruction::MemorySize { out1: out.id });
    ctxt.push_var(out);
    Ok(())
}

/// `memory.grow`
pub fn memory_grow(ctxt: &mut Context, i: &mut WasmBinaryReader, o: &mut InstructionEncoder) -> (r: ParseResult)
    requires
        old(ctxt).wf(),
    ensures
        old(ctxt).frame(&*final(ctxt)),
        memory_grow_post(*old(i), *final(i), &*old(ctxt), &*final(ctxt), *old(o), *final(o), r),
{
    read_zero_byte(i, "memory grow instruction invalid encoding")?;
    let size_in = ctxt.pop_var_with_type(ValType::i32());
    let out = ctxt.create_var(ValType::i32());
    o.write(Instruction::MemoryGrow { in1: size_in.id, out1: out.id });
    ctxt.push_var(out);
    Ok(())
}

/// `memory.copy`
pub fn memory_copy(ctxt: &mut Context, i: &mut WasmBinaryReader, o: &mut InstructionEncoder) -> (r: ParseResult)
    requires
        old(ctxt).wf(),
    ensures
        old(ctxt).frame(&*final(ctxt)),
        memory_copy_post(*old(i), *final(i), &*old(ctxt), &*final(ctxt), *old(o), *final(o), r),
{
    read_zero_byte(i, "memory copy instruction invalid encoding")?;
    proof {
        old(i).lemma_position();
    }
    read_zero_byte(i, "memory copy instruction invalid encoding")?;
    if ctxt.module.memories.len() == 0 {
        return Err(ParserError::msg("unknown memory 0"));
    }
    let n = ctxt.pop_var_with_type(ValType::i32());
    let s = ctxt.pop_var_with_type(ValType::i32());
    let d = ctxt.pop_var_with_type(ValType::i32());
    o.write(Instruction::MemoryCopy { n: n.id, s: s.id, d: d.id });
    Ok(())
}

/// `memory.fill`
pub fn memory_fill(ctxt: &mut Context, i: &mut WasmBinaryReader, o: &mut InstructionEncoder) -> (r: ParseResult)
    requires
        old(ctxt).wf(),
    ensures
        old(ctxt).frame(&*final(ctxt)),
        memory_fill_post(*old(i), *final(i), &*old(ctxt), &*final(ctxt), *old(o), *final(o), r),
{
    read_zero_byte(i, "memory fill instruction invalid encoding")?;
    if ctxt.module.memories.len() == 0 {
        return Err(ParserError::msg("unknown memory 0"));
    }
    let n = ctxt.pop_var_with_type(ValType::i32());
    let val = ctxt.pop_var_with_type(ValType::i32());
    let d = ctxt.pop_var_with_type(ValType::i32());
    o.write(Instruction::MemoryFill { n: n.id, val: val.id, d: d.id });
    Ok(())
}

/// Whether a data segment index is known: the module declared a data count above it.
pub open spec fn data_idx_ok(datacount: Option<u32>, data_idx: u32) -> bool {
    datacount matches Some(c) && data_idx < c
}

/// Poisons the context unless the data segment index is known.
fn check_data_idx(ctxt: &mut Context, data_idx: u32)
    requires
        old(ctxt).wf(),
    ensures
        old(ctxt).frame(&*final(ctxt)),
        data_idx_ok(old(ctxt).module.datacount, data_idx) ==> final(ctxt).model() == old(ctxt).model()
            && final(ctxt).poison == old(ctxt).poison,
        !data_idx_ok(old(ctxt).module.datacount, data_idx) ==> final(ctxt).model() == m_poison(
            old(ctxt).model(),
        ),
{
    match ctxt.module.datacount {
        Some(data_count) => {
            if data_idx >= data_count {
                ctxt.poison_msg("memory init instruction data index out of bounds");
            }
        },
        None => {
            ctxt.poison_msg("memory init instruction without data section");
        },
    }
}

/// The context after checking a data segment index.
pub open spec fn data_check_effect(m: CtxModel, datacount: Option<u32>, data_idx: u32) -> CtxModel {
    if data_idx_ok(datacount, data_idx) {
        m
    } else {
        m_poison(m)
    }
}

/// `memory.init`
pub fn memory_init(ctxt: &mut Context, i: &mut WasmBinaryReader, o: &mut InstructionEncoder) -> (r: ParseResult)
    requires
        old(ctxt).wf(),
    ensures
        old(ctxt).frame(&*final(ctxt)),
        memory_init_post(*old(i), *final(i), &*old(ctxt), &*final(ctxt), *old(o), *final(o), r),
{
    let ghost s0 = i.remaining();
    let data_idx = read_u32_imm(i)?;
    check_data_idx(ctxt, data_idx);
    proof {
        crate::decode::lemma_rest_advance(old(i).source(), old(i).position(), u32_dec(s0).2);
        i.lemma_position();
    }
    read_zero_byte(i, "memory init instruction invalid encoding")?;
    let n = ctxt.pop_var_with_type(ValType::i32());
    let s = ctxt.pop_var_with_type(ValType::i32());
    let d = ctxt.pop_var_with_type(ValType::i32());
    o.write(Instruction::MemoryInit { data_idx, n: n.id, s: s.id, d: d.id });
    Ok(())
}

/// `data.drop`
pub fn data_drop(ctxt: &mut Context, i: &mut WasmBinaryReader, o: &mut InstructionEncoder) -> (r: ParseResult)
    requires
        old(ctxt).wf(),
    ensures
        old(ctxt).frame(&*final(ctxt)),
        data_drop_post(*old(i), *final(i), &*old(ctxt), &*final(ctxt), *old(o), *final(o), r),
{
    let data_idx = read_u32_imm(i)?;
    check_data_idx(ctxt, data_idx);
    o.write(Instruction::DataDrop { data_idx });
    Ok(())
}

// ------------------------------------------------------------------ constants

/// `i32.const`
pub fn i32_const_i32(ctxt: &mut Context, i: &mut WasmBinaryReader, o: &mut InstructionEncoder) -> (r: ParseResult)
    requires
        old(ctxt).wf(),
    ensures
        old(ctxt).frame(&*final(ctxt)),
        i32_const_i32_post(*old(i), *final(i), &*old(ctxt), &*final(ctxt), *old(o), *final(o), r),
{
    proof {
        crate::reader::lemma_leb_status(old(i).remaining(), 32, true);
    }
    let imm = i.read_leb128_i32()?;
    let imm_var = ctxt.create_var(ValType::i32());
    o.write(Instruction::Constant { imm: ConstImm::I32(imm), out1: imm_var.id, out1_type: NumType::I32 });
    ctxt.push_var(imm_var);
    Ok(())
}

/// `i64.const`
pub fn i64_const_i64(ctxt: &mut Context, i: &mut WasmBinaryReader, o: &mut InstructionEncoder) -> (r: ParseResult)
    requires
        old(ctxt).wf(),
    ensures
        old(ctxt).frame(&*final(ctxt)),
        i64_const_i64_post(*old(i), *final(i), &*old(ctxt), &*final(ctxt), *old(o), *final(o), r),
{
    proof {
        crate::reader::lemma_leb_status(old(i).remaining(), 64, true);
    }
    let imm = i.read_leb128_i64()?;
    let imm_var = ctxt.create_var(ValType::i64());
    o.write(Instruction::Constant { imm: ConstImm::I64(imm), out1: imm_var.id, out1_type: NumType::I64 });
    ctxt.push_var(imm_var);
    Ok(())
}

/// `f32.const`: the constant is kept as its bit pattern.
pub fn f32_const_f32(ctxt: &mut Context, i: &mut WasmBinaryReader, o: &mut InstructionEncoder) -> (r: ParseResult)
    requires
        old(ctxt).wf(),
    ensures
        old(ctxt).frame(&*final(ctxt)),
        f32_const_f32_post(*old(i), *final(i), &*old(ctxt), &*final(ctxt), *old(o), *final(o), r),
{
    let imm = i.read_f32_bits()?;
    let imm_var = ctxt.create_var(ValType::float32());
    o.write(Instruction::Constant { imm: ConstImm::F32Bits(imm), out1: imm_var.id, out1_type: NumType::F32 });
    ctxt.push_var(imm_var);
    Ok(())
}

/// `f64.const`: the constant is kept as its bit pattern.
pub fn f64_const_f64(ctxt: &mut Context, i: &mut WasmBinaryReader, o: &mut InstructionEncoder) -> (r: ParseResult)
    requires
        old(ctxt).wf(),
    ensures
        old(ctxt).frame(&*final(ctxt)),
        f64_const_f64_post(*old(i), *final(i), &*old(ctxt), &*final(ctxt), *old(o), *final(o), r),
{
    let imm = i.read_f64_bits()?;
    let imm_var = ctxt.create_var(ValType::float64());
    o.write(Instruction::Constant { imm: ConstImm::F64Bits(imm), out1: imm_var.id, out1_type: NumType::F64 });
    ctxt.push_var(imm_var);
    Ok(())
}

// ------------------------------------------------------------------ other conversions

/// `i32.wrap_i64`
pub fn i32_wrap_i64(ctxt: &mut Context, i: &mut WasmBinaryReader, o: &mut InstructionEncoder) -> (r: ParseResult)
    requires
        old(ctxt).wf(),
    ensures
        old(ctxt).frame(&*final(ctxt)),
        i32_wrap_i64_post(*old(i), *final(i), &*old(ctxt), &*final(ctxt), *old(o), *final(o), r),
{
    let in_ = ctxt.pop_var_with_type(ValType::i64());
    let out = ctxt.create_var(ValType::i32());
    o.write(Instruction::Wrap { in1: in_.id, out1: out.id });
    ctxt.push_var(out);
    Ok(())
}

/// `f32.demote_f64`
pub fn f32_demote_f64(ctxt: &mut Context, i: &mut WasmBinaryReader, o: &mut InstructionEncoder) -> (r: ParseResult)
    requires
        old(ctxt).wf(),
    ensures
        old(ctxt).frame(&*final(ctxt)),
        f32_demote_f64_post(*old(i), *final(i), &*old(ctxt), &*final(ctxt), *old(o), *final(o), r),
{
    let in_ = ctxt.pop_var_with_type(ValType::float64());
    let out = ctxt.create_var(ValType::float32());
    o.write(Instruction::Demote { in1: in_.id, out1: out.id });
    ctxt.push_var(out);
    Ok(())
}

/// `f64.promote_f32`
pub fn f64_promote_f32(ctxt: &mut Context, i: &mut WasmBinaryReader, o: &mut InstructionEncoder) -> (r: ParseResult)
    requires
        old(ctxt).wf(),
    ensures
        old(ctxt).frame(&*final(ctxt)),
        f64_promote_f32_post(*old(i), *final(i), &*old(ctxt), &*final(ctxt), *old(o), *final(o), r),
{
    let in_ = ctxt.pop_var_with_type(ValType::float32());
    let out = ctxt.create_var(ValType::float64());
    o.write(Instruction::Promote { in1: in_.id, out1: out.id });
    ctxt.push_var(out);
    Ok(())
}

/// An integer unary operation (`clz`, `ctz`, `popcnt`).
pub fn i_unary(ctxt: &mut Context, o: &mut InstructionEncoder, op: IUnaryOp, type_: NumType) -> (r: ParseResult)
    requires
        old(ctxt).wf(),
    ensures
        old(ctxt).frame(&*final(ctxt)),
        r is Ok,
        ({
            let (m, in1, out) = unop_effect(old(ctxt).model(), ValType::Number(type_), ValType::Number(type_));
            &&& final(ctxt).model() == m
            &&& appended(*old(o), *final(o), Instruction::IUnary { types: type_, op, in1: in1.id, out1: out.id })
        }),
{
    let in_ = ctxt.pop_var_with_type(ValType::Number(type_));
    let out = ctxt.create_var(ValType::Number(type_));
    o.write(Instruction::IUnary { types: type_, op, in1: in_.id, out1: out.id });
    ctxt.push_var(out);
    Ok(())
}

/// A floating-point unary operation.
pub fn f_unary(ctxt: &mut Context, o: &mut InstructionEncoder, op: FUnaryOp, type_: NumType) -> (r: ParseResult)
    requires
        old(ctxt).wf(),
    ensures
        old(ctxt).frame(&*final(ctxt)),
        r is Ok,
        ({
            let (m, in1, out) = unop_effect(old(ctxt).model(), ValType::Number(type_), ValType::Number(type_));
            &&& final(ctxt).model() == m
            &&& appended(*old(o), *final(o), Instruction::FUnary { types: type_, op, in1: in1.id, out1: out.id })
        }),
{
    let in_ = ctxt.pop_var_with_type(ValType::Number(type_));
    let out = ctxt.create_var(ValType::Number(type_));
    o.write(Instruction::FUnary { types: type_, op, in1: in_.id, out1: out.id });
    ctxt.push_var(out);
    Ok(())
}

/// `eqz`: whether an integer is zero.
pub fn i_test_zero(ctxt: &mut Context, o: &mut InstructionEncoder, type_: NumType) -> (r: ParseResult)
    requires
        old(ctxt).wf(),
    ensures
        old(ctxt).frame(&*final(ctxt)),
        r is Ok,
        ({
            let (m, in1, out) = unop_effect(old(ctxt).model(), ValType::Number(type_), ValType::Number(NumType::I32));
            &&& final(ctxt).model() == m
            &&& appended(*old(o), *final(o), Instruction::ITestZero { input_type: type_, in1: in1.id, out1: out.id })
        }),
{
    let in_ = ctxt.pop_var_with_type(ValType::Number(type_));
    let out = ctxt.create_var(ValType::i32());
    o.write(Instruction::ITestZero { input_type: type_, in1: in_.id, out1: out.id });
    ctxt.push_var(out);
    Ok(())
}

// ------------------------------------------------------------------ parametric

/// `drop`: pops a value of any type.
pub fn drop_value(ctxt: &mut Context, i: &mut WasmBinaryReader, o: &mut InstructionEncoder) -> (r: ParseResult)
    requires
        old(ctxt).wf(),
    ensures
        old(ctxt).frame(&*final(ctxt)),
        drop_value_post(*old(i), *final(i), &*old(ctxt), &*final(ctxt), *old(o), *final(o), r),
{
    let _ = ctxt.pop_var();
    Ok(())
}

/// `select`: pops an `i32` condition and two values of one type, pushes one of that type.
pub fn select(ctxt: &mut Context, i: &mut WasmBinaryReader, o: &mut InstructionEncoder) -> (r: ParseResult)
    requires
        old(ctxt).wf(),
    ensures
        old(ctxt).frame(&*final(ctxt)),
        select_post(*old(i), *final(i), &*old(ctxt), &*final(ctxt), *old(o), *final(o), r),
{
    let cond = ctxt.pop_var_with_type(ValType::i32());
    let in2 = ctxt.pop_var();
    let in1 = ctxt.pop_var_with_type(in2.type_);
    let out = ctxt.create_var(in2.type_);
    o.write(Instruction::Select { cond: cond.id, in1: in1.id, in2: in2.id, out1: out.id });
    ctxt.push_var(out);
    Ok(())
}

// ------------------------------------------------------------------ references

/// `ref.is_null`: pops a reference and pushes an `i32`; a non-reference operand poisons the
/// context and writes no instruction.
pub fn ref_is_null(ctxt: &mut Context, i: &mut WasmBinaryReader, o: &mut InstructionEncoder) -> (r: ParseResult)
    requires
        old(ctxt).wf(),
    ensures
        old(ctxt).frame(&*final(ctxt)),
        ref_is_null_post(*old(i), *final(i), &*old(ctxt), &*final(ctxt), *old(o), *final(o), r),
{
    let val = ctxt.pop_var();
    let out = ctxt.create_var(ValType::i32());
    match val.type_ {
        ValType::Reference(_) => {
            o.write(Instruction::ReferenceIsNull { in1: val.id, in1_type: val.type_, out1: out.id });
        },
        _ => {
            ctxt.poison_msg("ref.is_null expects a reference type on stack");
        },
    }
    ctxt.push_var(out);
    Ok(())
}

/// `ref.null`
pub fn ref_null(ctxt: &mut Context, i: &mut WasmBinaryReader, o: &mut InstructionEncoder) -> (r: ParseResult)
    requires
        old(ctxt).wf(),
    ensures
        old(ctxt).frame(&*final(ctxt)),
        ref_null_post(*old(i), *final(i), &*old(ctxt), &*final(ctxt), *old(o), *final(o), r),
{
    let ref_type = read_reftype(i)?;
    let out = ctxt.create_var(ValType::Reference(ref_type));
    o.write(Instruction::ReferenceNull { out1: out.id, out1_type: ref_type });
    ctxt.push_var(out);
    Ok(())
}

/// `ref.func`
pub fn ref_func(ctxt: &mut Context, i: &mut WasmBinaryReader, o: &mut InstructionEncoder) -> (r: ParseResult)
    requires
        old(ctxt).wf(),
    ensures
        old(ctxt).frame(&*final(ctxt)),
        ref_func_post(*old(i), *final(i), &*old(ctxt), &*final(ctxt), *old(o), *final(o), r),
{
    let func_idx = read_u32_imm(i)?;
    let out = ctxt.create_var(ValType::funcref());
    o.write(Instruction::ReferenceFunction { out1: out.id, func_idx });
    ctxt.push_var(out);
    Ok(())
}

/// What `memory_size` does.
pub open spec fn memory_size_post(
    i0: WasmBinaryReader,
    i1: WasmBinaryReader,
    x0: &Context,
    x1: &Context,
    o0: InstructionEncoder,
    o1: InstructionEncoder,
    r: ParseResult,
) -> bool {
    &&& (i1.position() >= i0.position())
    &&& (i1.source() == i0.source())
    &&& (r is Err ==> x1.model() == x0.model() && enc_same(o0, o1))
    &&& (r is Ok <==> i0.remaining().len() > 0 && i0.remaining()[0] == 0)
    &&& (r is Ok ==> {
                let (m, out) = push_new_effect(x0.model(), ValType::Number(NumType::I32));
                &&& x1.model() == m
                &&& appended(o0, o1, Instruction::MemorySize { out1: out.id })
                &&& i1.position() == i0.position() + 1
            })
}

/// What `memory_grow` does.
pub open spec fn memory_grow_post(
    i0: WasmBinaryReader,
    i1: WasmBinaryReader,
    x0: &Context,
    x1: &Context,
    o0: InstructionEncoder,
    o1: InstructionEncoder,
    r: ParseResult,
) -> bool {
    &&& (i1.position() >= i0.position())
    &&& (i1.source() == i0.source())
    &&& (r is Err ==> x1.model() == x0.model() && enc_same(o0, o1))
    &&& (r is Ok <==> i0.remaining().len() > 0 && i0.remaining()[0] == 0)
    &&& (r is Ok ==> {
                let (m, in1, out) = unop_effect(
                    x0.model(),
                    ValType::Number(NumType::I32),
                    ValType::Number(NumType::I32),
                );
                &&& x1.model() == m
                &&& appended(o0, o1, Instruction::MemoryGrow { in1: in1.id, out1: out.id })
                &&& i1.position() == i0.position() + 1
            })
}

/// What `memory_copy` does.
pub open spec fn memory_copy_post(
    i0: WasmBinaryReader,
    i1: WasmBinaryReader,
    x0: &Context,
    x1: &Context,
    o0: InstructionEncoder,
    o1: InstructionEncoder,
    r: ParseResult,
) -> bool {
    &&& (i1.position() >= i0.position())
    &&& (i1.source() == i0.source())
    &&& (r is Err ==> x1.model() == x0.model() && enc_same(o0, o1))
    &&& (r is Ok <==> i0.remaining().len() >= 2 && i0.remaining()[0] == 0
                && i0.remaining()[1] == 0 && x0.module.memories@.len() > 0)
    &&& (r is Ok ==> {
                let (m, n, s, d) = pop3_i32_effect(x0.model());
                &&& x1.model() == m
                &&& appended(o0, o1, Instruction::MemoryCopy { n: n.id, s: s.id, d: d.id })
                &&& i1.position() == i0.position() + 2
            })
}

/// What `memory_fill` does.
pub open spec fn memory_fill_post(
    i0: WasmBinaryReader,
    i1: WasmBinaryReader,
    x0: &Context,
    x1: &Context,
    o0: InstructionEncoder,
    o1: InstructionEncoder,
    r: ParseResult,
) -> bool {
    &&& (i1.position() >= i0.position())
    &&& (i1.source() == i0.source())
    &&& (r is Err ==> x1.model() == x0.model() && enc_same(o0, o1))
    &&& (r is Ok <==> i0.remaining().len() >= 1 && i0.remaining()[0] == 0
                && x0.module.memories@.len() > 0)
    &&& (r is Ok ==> {
                let (m, n, val, d) = pop3_i32_effect(x0.model());
                &&& x1.model() == m
                &&& appended(o0, o1, Instruction::MemoryFill { n: n.id, val: val.id, d: d.id })
                &&& i1.position() == i0.position() + 1
            })
}

/// What `memory_init` does.
pub open spec fn memory_init_post(
    i0: WasmBinaryReader,
    i1: WasmBinaryReader,
    x0: &Context,
    x1: &Context,
    o0: InstructionEncoder,
    o1: InstructionEncoder,
    r: ParseResult,
) -> bool {
    &&& (i1.position() >= i0.position())
    &&& (i1.source() == i0.source())
    &&& ({
                let d = u32_dec(i0.remaining());
                let m1 = data_check_effect(x0.model(), x0.module.datacount, d.1);
                let rest_bytes = rest(i0.source(), i0.position() + d.2);
                &&& d.0 != LEB_OK() ==> r == Err::<(), ParserError>(leb_err(d.0)) && x1.model()
                    == x0.model() && enc_same(o0, o1)
                &&& d.0 == LEB_OK() ==> (r is Ok <==> rest_bytes.len() > 0 && rest_bytes[0] == 0)
                &&& d.0 == LEB_OK() && r is Err ==> x1.model() == m1 && enc_same(o0, o1)
                &&& r is Ok ==> {
                    let (m, n, s, dd) = pop3_i32_effect(m1);
                    &&& x1.model() == m
                    &&& appended(
                        o0,
                        o1,
                        Instruction::MemoryInit { data_idx: d.1, n: n.id, s: s.id, d: dd.id },
                    )
                    &&& i1.position() == i0.position() + d.2 + 1
                }
            })
}

/// What `data_drop` does.
pub open spec fn data_drop_post(
    i0: WasmBinaryReader,
    i1: WasmBinaryReader,
    x0: &Context,
    x1: &Context,
    o0: InstructionEncoder,
    o1: InstructionEncoder,
    r: ParseResult,
) -> bool {
    &&& ({
                let d = u32_dec(i0.remaining());
                &&& advanced(i0, i1, d.2)
                &&& d.0 != LEB_OK() ==> r == Err::<(), ParserError>(leb_err(d.0)) && x1.model()
                    == x0.model() && enc_same(o0, o1)
                &&& d.0 == LEB_OK() ==> r is Ok && x1.model() == data_check_effect(
                    x0.model(),
                    x0.module.datacount,
                    d.1,
                ) && appended(o0, o1, Instruction::DataDrop { data_idx: d.1 })
            })
}

/// What `i32_const_i32` does.
pub open spec fn i32_const_i32_post(
    i0: WasmBinaryReader,
    i1: WasmBinaryReader,
    x0: &Context,
    x1: &Context,
    o0: InstructionEncoder,
    o1: InstructionEncoder,
    r: ParseResult,
) -> bool {
    &&& ({
                let t = leb(i0.remaining(), 32, true);
                &&& advanced(i0, i1, t.2)
                &&& t.0 != LEB_OK() ==> r == Err::<(), ParserError>(leb_err(t.0)) && x1.model()
                    == x0.model() && enc_same(o0, o1)
                &&& t.0 == LEB_OK() ==> {
                    let (m, out) = push_new_effect(x0.model(), ValType::Number(NumType::I32));
                    &&& r is Ok
                    &&& x1.model() == m
                    &&& appended(
                        o0,
                        o1,
                        Instruction::Constant {
                            imm: ConstImm::I32(sign_extend(t.1, leb_bits(t.2, 32)) as i32),
                            out1: out.id,
                            out1_type: NumType::I32,
                        },
                    )
                }
            })
}

/// What `i64_const_i64` does.
pub open spec fn i64_const_i64_post(
    i0: WasmBinaryReader,
    i1: WasmBinaryReader,
    x0: &Context,
    x1: &Context,
    o0: InstructionEncoder,
    o1: InstructionEncoder,
    r: ParseResult,
) -> bool {
    &&& ({
                let t = leb(i0.remaining(), 64, true);
                &&& advanced(i0, i1, t.2)
                &&& t.0 != LEB_OK() ==> r == Err::<(), ParserError>(leb_err(t.0)) && x1.model()
                    == x0.model() && enc_same(o0, o1)
                &&& t.0 == LEB_OK() ==> {
                    let (m, out) = push_new_effect(x0.model(), ValType::Number(NumType::I64));
                    &&& r is Ok
                    &&& x1.model() == m
                    &&& appended(
                        o0,
                        o1,
                        Instruction::Constant {
                            imm: ConstImm::I64(sign_extend(t.1, leb_bits(t.2, 64)) as i64),
                            out1: out.id,
                            out1_type: NumType::I64,
                        },
                    )
                }
            })
}

/// What `f32_const_f32` does.
pub open spec fn f32_const_f32_post(
    i0: WasmBinaryReader,
    i1: WasmBinaryReader,
    x0: &Context,
    x1: &Context,
    o0: InstructionEncoder,
    o1: InstructionEncoder,
    r: ParseResult,
) -> bool {
    &&& (i1.position() >= i0.position())
    &&& (i1.source() == i0.source())
    &&& (i0.position() + 4 > i0.source().len() ==> r == Err::<(), ParserError>(
                ParserError::UnexpectedEOF,
            ) && x1.model() == x0.model() && enc_same(o0, o1))
    &&& (i0.position() + 4 <= i0.source().len() ==> {
                let s = i0.source();
                let p = i0.position();
                let (m, out) = push_new_effect(x0.model(), ValType::Number(NumType::F32));
                &&& r is Ok
                &&& i1.position() == p + 4
                &&& x1.model() == m
                &&& appended(
                    o0,
                    o1,
                    Instruction::Constant {
                        imm: ConstImm::F32Bits(
                            crate::reader::le_u32(s[p], s[p + 1], s[p + 2], s[p + 3]) as u32,
                        ),
                        out1: out.id,
                        out1_type: NumType::F32,
                    },
                )
            })
}

/// What `f64_const_f64` does.
pub open spec fn f64_const_f64_post(
    i0: WasmBinaryReader,
    i1: WasmBinaryReader,
    x0: &Context,
    x1: &Context,
    o0: InstructionEncoder,
    o1: InstructionEncoder,
    r: ParseResult,
) -> bool {
    &&& (i1.position() >= i0.position())
    &&& (i1.source() == i0.source())
    &&& (i0.position() + 8 > i0.source().len() ==> r == Err::<(), ParserError>(
                ParserError::UnexpectedEOF,
            ) && x1.model() == x0.model() && enc_same(o0, o1))
    &&& (i0.position() + 8 <= i0.source().len() ==> {
                let p = i0.position();
                let (m, out) = push_new_effect(x0.model(), ValType::Number(NumType::F64));
                &&& r is Ok
                &&& i1.position() == p + 8
                &&& x1.model() == m
                &&& appended(
                    o0,
                    o1,
                    Instruction::Constant {
                        imm: ConstImm::F64Bits(
                            crate::reader::le_u64(i0.source().subrange(p, p + 8)) as u64,
                        ),
                        out1: out.id,
                        out1_type: NumType::F64,
                    },
                )
            })
}

/// What `i32_wrap_i64` does.
pub open spec fn i32_wrap_i64_post(
    i0: WasmBinaryReader,
    i1: WasmBinaryReader,
    x0: &Context,
    x1: &Context,
    o0: InstructionEncoder,
    o1: InstructionEncoder,
    r: ParseResult,
) -> bool {
    &&& (simple_ok(i0, i1, r))
    &&& ({
                let (m, in1, out) = unop_effect(
                    x0.model(),
                    ValType::Number(NumType::I64),
                    ValType::Number(NumType::I32),
                );
                &&& x1.model() == m
                &&& appended(o0, o1, Instruction::Wrap { in1: in1.id, out1: out.id })
            })
}

/// What `f32_demote_f64` does.
pub open spec fn f32_demote_f64_post(
    i0: WasmBinaryReader,
    i1: WasmBinaryReader,
    x0: &Context,
    x1: &Context,
    o0: InstructionEncoder,
    o1: InstructionEncoder,
    r: ParseResult,
) -> bool {
    &&& (simple_ok(i0, i1, r))
    &&& ({
                let (m, in1, out) = unop_effect(
                    x0.model(),
                    ValType::Number(NumType::F64),
                    ValType::Number(NumType::F32),
                );
                &&& x1.model() == m
                &&& appended(o0, o1, Instruction::Demote { in1: in1.id, out1: out.id })
            })
}

/// What `f64_promote_f32` does.
pub open spec fn f64_promote_f32_post(
    i0: WasmBinaryReader,
    i1: WasmBinaryReader,
    x0: &Context,
    x1: &Context,
    o0: InstructionEncoder,
    o1: InstructionEncoder,
    r: ParseResult,
) -> bool {
    &&& (simple_ok(i0, i1, r))
    &&& ({
                let (m, in1, out) = unop_effect(
                    x0.model(),
                    ValType::Number(NumType::F32),
                    ValType::Number(NumType::F64),
                );
                &&& x1.model() == m
                &&& appended(o0, o1, Instruction::Promote { in1: in1.id, out1: out.id })
            })
}

/// What `drop_value` does.
pub open spec fn drop_value_post(
    i0: WasmBinaryReader,
    i1: WasmBinaryReader,
    x0: &Context,
    x1: &Context,
    o0: InstructionEncoder,
    o1: InstructionEncoder,
    r: ParseResult,
) -> bool {
    &&& (simple_ok(i0, i1, r))
    &&& (x1.model() == m_pop(x0.model()).0)
    &&& (enc_same(o0, o1))
}

/// What `select` does.
pub open spec fn select_post(
    i0: WasmBinaryReader,
    i1: WasmBinaryReader,
    x0: &Context,
    x1: &Context,
    o0: InstructionEncoder,
    o1: InstructionEncoder,
    r: ParseResult,
) -> bool {
    &&& (simple_ok(i0, i1, r))
    &&& ({
                let (m1, cond) = m_pop_typed(x0.model(), ValType::Number(NumType::I32));
                let (m2, in2) = m_pop(m1);
                let (m3, in1) = m_pop_typed(m2, in2.type_);
                let (m4, out) = m_create(m3, in2.type_);
                &&& x1.model() == m_push(m4, out)
                &&& appended(
                    o0,
                    o1,
                    Instruction::Select { cond: cond.id, in1: in1.id, in2: in2.id, out1: out.id },
                )
            })
}

/// What `ref_is_null` does.
pub open spec fn ref_is_null_post(
    i0: WasmBinaryReader,
    i1: WasmBinaryReader,
    x0: &Context,
    x1: &Context,
    o0: InstructionEncoder,
    o1: InstructionEncoder,
    r: ParseResult,
) -> bool {
    &&& (simple_ok(i0, i1, r))
    &&& ({
                let (m1, val) = m_pop(x0.model());
                let (m2, out) = m_create(m1, ValType::Number(NumType::I32));
                &&& val.type_ is Reference ==> x1.model() == m_push(m2, out) && appended(
                    o0,
                    o1,
                    Instruction::ReferenceIsNull { in1: val.id, in1_type: val.type_, out1: out.id },
                )
                &&& !(val.type_ is Reference) ==> x1.model() == m_push(m_poison(m2), out)
                    && enc_same(o0, o1)
            })
}

/// What `ref_null` does.
pub open spec fn ref_null_post(
    i0: WasmBinaryReader,
    i1: WasmBinaryReader,
    x0: &Context,
    x1: &Context,
    o0: InstructionEncoder,
    o1: InstructionEncoder,
    r: ParseResult,
) -> bool {
    &&& (i1.position() >= i0.position())
    &&& (i1.source() == i0.source())
    &&& (i0.remaining().len() == 0 ==> r == Err::<(), ParserError>(ParserError::UnexpectedEOF))
    &&& (r is Err ==> x1.model() == x0.model() && enc_same(o0, o1))
    &&& (r is Ok <==> i0.remaining().len() > 0 && reftype_of_byte(i0.remaining()[0]) is Some)
    &&& (r is Ok ==> {
                let rt = reftype_of_byte(i0.remaining()[0])->0;
                let (m, out) = push_new_effect(x0.model(), ValType::Reference(rt));
                &&& i1.position() == i0.position() + 1
                &&& x1.model() == m
                &&& appended(o0, o1, Instruction::ReferenceNull { out1: out.id, out1_type: rt })
            })
}

/// What `ref_func` does.
pub open spec fn ref_func_post(
    i0: WasmBinaryReader,
    i1: WasmBinaryReader,
    x0: &Context,
    x1: &Context,
    o0: InstructionEncoder,
    o1: InstructionEncoder,
    r: ParseResult,
) -> bool {
    &&& ({
                let d = u32_dec(i0.remaining());
                &&& advanced(i0, i1, d.2)
                &&& d.0 != LEB_OK() ==> r == Err::<(), ParserError>(leb_err(d.0)) && x1.model()
                    == x0.model() && enc_same(o0, o1)
                &&& d.0 == LEB_OK() ==> {
                    let (m, out) = push_new_effect(
                        x0.model(),
                        ValType::Reference(RefType::FunctionReference),
                    );
                    &&& r is Ok
                    &&& x1.model() == m
                    &&& appended(o0, o1, Instruction::ReferenceFunction { out1: out.id, func_idx: d.1 })
                }
            })
}

} // verus!
