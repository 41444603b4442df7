//! The instructions that differ only in their operand types or operation: each names its
//! operation and types and parses as the generic handler does.
use crate::context::Context;
use crate::instructions::{
    ParseResult, convert_post, extend_post, extend_type_post, f_arith, f_relational, fbinary_post,
    frelational_post, i_arith, i_relational, ibinary_post, irelational_post, load_post, parse_convert,
    parse_extend, parse_extend_type, parse_load, parse_reinterpret, parse_store, parse_trunc,
    parse_trunc_sat, reinterpret_post, simple_ok, store_post, trunc_post, trunc_sat_post,
};
use crate::ir::{FBinaryOp, FRelationalOp, IBinaryOp, IRelationalOp, InstructionEncoder, LoadOp, StoreOp};
use crate::reader::WasmBinaryReader;
use crate::types::NumType;
use vstd::prelude::*;

verus! {

/// `i32.add`
pub fn i32_add(ctxt: &mut Context, i: &mut WasmBinaryReader, o: &mut InstructionEncoder) -> (r: ParseResult)
    requires
        old(ctxt).wf(),
    ensures
        old(ctxt).frame(&*final(ctxt)),
        simple_ok(*old(i), *final(i), r),
        ibinary_post(old(ctxt).model(), final(ctxt).model(), *old(o), *final(o), IBinaryOp::Add, NumType::I32),
{
    i_arith(ctxt, o, IBinaryOp::Add, NumType::I32)
}

/// `i32.sub`
pub fn i32_sub(ctxt: &mut Context, i: &mut WasmBinaryReader, o: &mut InstructionEncoder) -> (r: ParseResult)
    requires
        old(ctxt).wf(),
    ensures
        old(ctxt).frame(&*final(ctxt)),
        simple_ok(*old(i), *final(i), r),
        ibinary_post(old(ctxt).model(), final(ctxt).model(), *old(o), *final(o), IBinaryOp::Sub, NumType::I32),
{
    i_arith(ctxt, o, IBinaryOp::Sub, NumType::I32)
}

/// `i32.mul`
pub fn i32_mul(ctxt: &mut Context, i: &mut WasmBinaryReader, o: &mut InstructionEncoder) -> (r: ParseResult)
    requires
        old(ctxt).wf(),
    ensures
        old(ctxt).frame(&*final(ctxt)),
        simple_ok(*old(i), *final(i), r),
        ibinary_post(old(ctxt).model(), final(ctxt).model(), *old(o), *final(o), IBinaryOp::Mul, NumType::I32),
{
    i_arith(ctxt, o, IBinaryOp::Mul, NumType::I32)
}

/// `i32.div_s`
pub fn i32_div_s(ctxt: &mut Context, i: &mut WasmBinaryReader, o: &mut InstructionEncoder) -> (r: ParseResult)
    requires
        old(ctxt).wf(),
    ensures
        old(ctxt).frame(&*final(ctxt)),
        simple_ok(*old(i), *final(i), r),
        ibinary_post(old(ctxt).model(), final(ctxt).model(), *old(o), *final(o), IBinaryOp::DivS, NumType::I32),
{
    i_arith(ctxt, o, IBinaryOp::DivS, NumType::I32)
}

/// `i32.div_u`
pub fn i32_div_u(ctxt: &mut Context, i: &mut WasmBinaryReader, o: &mut InstructionEncoder) -> (r: ParseResult)
    requires
        old(ctxt).wf(),
    ensures
        old(ctxt).frame(&*final(ctxt)),
        simple_ok(*old(i), *final(i), r),
        ibinary_post(old(ctxt).model(), final(ctxt).model(), *old(o), *final(o), IBinaryOp::DivU, NumType::I32),
{
    i_arith(ctxt, o, IBinaryOp::DivU, NumType::I32)
}

/// `i32.rem_s`
pub fn i32_rem_s(ctxt: &mut Context, i: &mut WasmBinaryReader, o: &mut InstructionEncoder) -> (r: ParseResult)
    requires
        old(ctxt).wf(),
    ensures
        old(ctxt).frame(&*final(ctxt)),
        simple_ok(*old(i), *final(i), r),
        ibinary_post(old(ctxt).model(), final(ctxt).model(), *old(o), *final(o), IBinaryOp::RemS, NumType::I32),
{
    i_arith(ctxt, o, IBinaryOp::RemS, NumType::I32)
}

/// `i32.rem_u`
pub fn i32_rem_u(ctxt: &mut Context, i: &mut WasmBinaryReader, o: &mut InstructionEncoder) -> (r: ParseResult)
    requires
        old(ctxt).wf(),
    ensures
        old(ctxt).frame(&*final(ctxt)),
        simple_ok(*old(i), *final(i), r),
        ibinary_post(old(ctxt).model(), final(ctxt).model(), *old(o), *final(o), IBinaryOp::RemU, NumType::I32),
{
    i_arith(ctxt, o, IBinaryOp::RemU, NumType::I32)
}

/// `i32.and`
pub fn i32_and(ctxt: &mut Context, i: &mut WasmBinaryReader, o: &mut InstructionEncoder) -> (r: ParseResult)
    requires
        old(ctxt).wf(),
    ensures
        old(ctxt).frame(&*final(ctxt)),
        simple_ok(*old(i), *final(i), r),
        ibinary_post(old(ctxt).model(), final(ctxt).model(), *old(o), *final(o), IBinaryOp::And, NumType::I32),
{
    i_arith(ctxt, o, IBinaryOp::And, NumType::I32)
}

/// `i32.or`
pub fn i32_or(ctxt: &mut Context, i: &mut WasmBinaryReader, o: &mut InstructionEncoder) -> (r: ParseResult)
    requires
        old(ctxt).wf(),
    ensures
        old(ctxt).frame(&*final(ctxt)),
        simple_ok(*old(i), *final(i), r),
        ibinary_post(old(ctxt).model(), final(ctxt).model(), *old(o), *final(o), IBinaryOp::Or, NumType::I32),
{
    i_arith(ctxt, o, IBinaryOp::Or, NumType::I32)
}

/// `i32.xor`
pub fn i32_xor(ctxt: &mut Context, i: &mut WasmBinaryReader, o: &mut InstructionEncoder) -> (r: ParseResult)
    requires
        old(ctxt).wf(),
    ensures
        old(ctxt).frame(&*final(ctxt)),
        simple_ok(*old(i), *final(i), r),
        ibinary_post(old(ctxt).model(), final(ctxt).model(), *old(o), *final(o), IBinaryOp::Xor, NumType::I32),
{
    i_arith(ctxt, o, IBinaryOp::Xor, NumType::I32)
}

/// `i32.shl`
pub fn i32_shl(ctxt: &mut Context, i: &mut WasmBinaryReader, o: &mut InstructionEncoder) -> (r: ParseResult)
    requires
        old(ctxt).wf(),
    ensures
        old(ctxt).frame(&*final(ctxt)),
        simple_ok(*old(i), *final(i), r),
        ibinary_post(old(ctxt).model(), final(ctxt).model(), *old(o), *final(o), IBinaryOp::Shl, NumType::I32),
{
    i_arith(ctxt, o, IBinaryOp::Shl, NumType::I32)
}

/// `i32.shr_s`
pub fn i32_shr_s(ctxt: &mut Context, i: &mut WasmBinaryReader, o: &mut InstructionEncoder) -> (r: ParseResult)
    requires
        old(ctxt).wf(),
    ensures
        old(ctxt).frame(&*final(ctxt)),
        simple_ok(*old(i), *final(i), r),
        ibinary_post(old(ctxt).model(), final(ctxt).model(), *old(o), *final(o), IBinaryOp::ShrS, NumType::I32),
{
    i_arith(ctxt, o, IBinaryOp::ShrS, NumType::I32)
}

/// `i32.shr_u`
pub fn i32_shr_u(ctxt: &mut Context, i: &mut WasmBinaryReader, o: &mut InstructionEncoder) -> (r: ParseResult)
    requires
        old(ctxt).wf(),
    ensures
        old(ctxt).frame(&*final(ctxt)),
        simple_ok(*old(i), *final(i), r),
        ibinary_post(old(ctxt).model(), final(ctxt).model(), *old(o), *final(o), IBinaryOp::ShrU, NumType::I32),
{
    i_arith(ctxt, o, IBinaryOp::ShrU, NumType::I32)
}

/// `i32.rotl`
pub fn i32_rotl(ctxt: &mut Context, i: &mut WasmBinaryReader, o: &mut InstructionEncoder) -> (r: ParseResult)
    requires
        old(ctxt).wf(),
    ensures
        old(ctxt).frame(&*final(ctxt)),
        simple_ok(*old(i), *final(i), r),
        ibinary_post(old(ctxt).model(), final(ctxt).model(), *old(o), *final(o), IBinaryOp::Rotl, NumType::I32),
{
    i_arith(ctxt, o, IBinaryOp::Rotl, NumType::I32)
}

/// `i32.rotr`
pub fn i32_rotr(ctxt: &mut Context, i: &mut WasmBinaryReader, o: &mut InstructionEncoder) -> (r: ParseResult)
    requires
        old(ctxt).wf(),
    ensures
        old(ctxt).frame(&*final(ctxt)),
        simple_ok(*old(i), *final(i), r),
        ibinary_post(old(ctxt).model(), final(ctxt).model(), *old(o), *final(o), IBinaryOp::Rotr, NumType::I32),
{
    i_arith(ctxt, o, IBinaryOp::Rotr, NumType::I32)
}

/// `i64.add`
pub fn i64_add(ctxt: &mut Context, i: &mut WasmBinaryReader, o: &mut InstructionEncoder) -> (r: ParseResult)
    requires
        old(ctxt).wf(),
    ensures
        old(ctxt).frame(&*final(ctxt)),
        simple_ok(*old(i), *final(i), r),
        ibinary_post(old(ctxt).model(), final(ctxt).model(), *old(o), *final(o), IBinaryOp::Add, NumType::I64),
{
    i_arith(ctxt, o, IBinaryOp::Add, NumType::I64)
}

/// `i64.sub`
pub fn i64_sub(ctxt: &mut Context, i: &mut WasmBinaryReader, o: &mut InstructionEncoder) -> (r: ParseResult)
    requires
        old(ctxt).wf(),
    ensures
        old(ctxt).frame(&*final(ctxt)),
        simple_ok(*old(i), *final(i), r),
        ibinary_post(old(ctxt).model(), final(ctxt).model(), *old(o), *final(o), IBinaryOp::Sub, NumType::I64),
{
    i_arith(ctxt, o, IBinaryOp::Sub, NumType::I64)
}

/// `i64.mul`
pub fn i64_mul(ctxt: &mut Context, i: &mut WasmBinaryReader, o: &mut InstructionEncoder) -> (r: ParseResult)
    requires
        old(ctxt).wf(),
    ensures
        old(ctxt).frame(&*final(ctxt)),
        simple_ok(*old(i), *final(i), r),
        ibinary_post(old(ctxt).model(), final(ctxt).model(), *old(o), *final(o), IBinaryOp::Mul, NumType::I64),
{
    i_arith(ctxt, o, IBinaryOp::Mul, NumType::I64)
}

/// `i64.div_s`
pub fn i64_div_s(ctxt: &mut Context, i: &mut WasmBinaryReader, o: &mut InstructionEncoder) -> (r: ParseResult)
    requires
        old(ctxt).wf(),
    ensures
        old(ctxt).frame(&*final(ctxt)),
        simple_ok(*old(i), *final(i), r),
        ibinary_post(old(ctxt).model(), final(ctxt).model(), *old(o), *final(o), IBinaryOp::DivS, NumType::I64),
{
    i_arith(ctxt, o, IBinaryOp::DivS, NumType::I64)
}

/// `i64.div_u`
pub fn i64_div_u(ctxt: &mut Context, i: &mut WasmBinaryReader, o: &mut InstructionEncoder) -> (r: ParseResult)
    requires
        old(ctxt).wf(),
    ensures
        old(ctxt).frame(&*final(ctxt)),
        simple_ok(*old(i), *final(i), r),
        ibinary_post(old(ctxt).model(), final(ctxt).model(), *old(o), *final(o), IBinaryOp::DivU, NumType::I64),
{
    i_arith(ctxt, o, IBinaryOp::DivU, NumType::I64)
}

/// `i64.rem_s`
pub fn i64_rem_s(ctxt: &mut Context, i: &mut WasmBinaryReader, o: &mut InstructionEncoder) -> (r: ParseResult)
    requires
        old(ctxt).wf(),
    ensures
        old(ctxt).frame(&*final(ctxt)),
        simple_ok(*old(i), *final(i), r),
        ibinary_post(old(ctxt).model(), final(ctxt).model(), *old(o), *final(o), IBinaryOp::RemS, NumType::I64),
{
    i_arith(ctxt, o, IBinaryOp::RemS, NumType::I64)
}

/// `i64.rem_u`
pub fn i64_rem_u(ctxt: &mut Context, i: &mut WasmBinaryReader, o: &mut InstructionEncoder) -> (r: ParseResult)
    requires
        old(ctxt).wf(),
    ensures
        old(ctxt).frame(&*final(ctxt)),
        simple_ok(*old(i), *final(i), r),
        ibinary_post(old(ctxt).model(), final(ctxt).model(), *old(o), *final(o), IBinaryOp::RemU, NumType::I64),
{
    i_arith(ctxt, o, IBinaryOp::RemU, NumType::I64)
}

/// `i64.and`
pub fn i64_and(ctxt: &mut Context, i: &mut WasmBinaryReader, o: &mut InstructionEncoder) -> (r: ParseResult)
    requires
        old(ctxt).wf(),
    ensures
        old(ctxt).frame(&*final(ctxt)),
        simple_ok(*old(i), *final(i), r),
        ibinary_post(old(ctxt).model(), final(ctxt).model(), *old(o), *final(o), IBinaryOp::And, NumType::I64),
{
    i_arith(ctxt, o, IBinaryOp::And, NumType::I64)
}

/// `i64.or`
pub fn i64_or(ctxt: &mut Context, i: &mut WasmBinaryReader, o: &mut InstructionEncoder) -> (r: ParseResult)
    requires
        old(ctxt).wf(),
    ensures
        old(ctxt).frame(&*final(ctxt)),
        simple_ok(*old(i), *final(i), r),
        ibinary_post(old(ctxt).model(), final(ctxt).model(), *old(o), *final(o), IBinaryOp::Or, NumType::I64),
{
    i_arith(ctxt, o, IBinaryOp::Or, NumType::I64)
}

/// `i64.xor`
pub fn i64_xor(ctxt: &mut Context, i: &mut WasmBinaryReader, o: &mut InstructionEncoder) -> (r: ParseResult)
    requires
        old(ctxt).wf(),
    ensures
        old(ctxt).frame(&*final(ctxt)),
        simple_ok(*old(i), *final(i), r),
        ibinary_post(old(ctxt).model(), final(ctxt).model(), *old(o), *final(o), IBinaryOp::Xor, NumType::I64),
{
    i_arith(ctxt, o, IBinaryOp::Xor, NumType::I64)
}

/// `i64.shl`
pub fn i64_shl(ctxt: &mut Context, i: &mut WasmBinaryReader, o: &mut InstructionEncoder) -> (r: ParseResult)
    requires
        old(ctxt).wf(),
    ensures
        old(ctxt).frame(&*final(ctxt)),
        simple_ok(*old(i), *final(i), r),
        ibinary_post(old(ctxt).model(), final(ctxt).model(), *old(o), *final(o), IBinaryOp::Shl, NumType::I64),
{
    i_arith(ctxt, o, IBinaryOp::Shl, NumType::I64)
}

/// `i64.shr_s`
pub fn i64_shr_s(ctxt: &mut Context, i: &mut WasmBinaryReader, o: &mut InstructionEncoder) -> (r: ParseResult)
    requires
        old(ctxt).wf(),
    ensures
        old(ctxt).frame(&*final(ctxt)),
        simple_ok(*old(i), *final(i), r),
        ibinary_post(old(ctxt).model(), final(ctxt).model(), *old(o), *final(o), IBinaryOp::ShrS, NumType::I64),
{
    i_arith(ctxt, o, IBinaryOp::ShrS, NumType::I64)
}

/// `i64.shr_u`
pub fn i64_shr_u(ctxt: &mut Context, i: &mut WasmBinaryReader, o: &mut InstructionEncoder) -> (r: ParseResult)
    requires
        old(ctxt).wf(),
    ensures
        old(ctxt).frame(&*final(ctxt)),
        simple_ok(*old(i), *final(i), r),
        ibinary_post(old(ctxt).model(), final(ctxt).model(), *old(o), *final(o), IBinaryOp::ShrU, NumType::I64),
{
    i_arith(ctxt, o, IBinaryOp::ShrU, NumType::I64)
}

/// `i64.rotl`
pub fn i64_rotl(ctxt: &mut Context, i: &mut WasmBinaryReader, o: &mut InstructionEncoder) -> (r: ParseResult)
    requires
        old(ctxt).wf(),
    ensures
        old(ctxt).frame(&*final(ctxt)),
        simple_ok(*old(i), *final(i), r),
        ibinary_post(old(ctxt).model(), final(ctxt).model(), *old(o), *final(o), IBinaryOp::Rotl, NumType::I64),
{
    i_arith(ctxt, o, IBinaryOp::Rotl, NumType::I64)
}

/// `i64.rotr`
pub fn i64_rotr(ctxt: &mut Context, i: &mut WasmBinaryReader, o: &mut InstructionEncoder) -> (r: ParseResult)
    requires
        old(ctxt).wf(),
    ensures
        old(ctxt).frame(&*final(ctxt)),
        simple_ok(*old(i), *final(i), r),
        ibinary_post(old(ctxt).model(), final(ctxt).model(), *old(o), *final(o), IBinaryOp::Rotr, NumType::I64),
{
    i_arith(ctxt, o, IBinaryOp::Rotr, NumType::I64)
}

/// `f32.add`
pub fn f32_add(ctxt: &mut Context, i: &mut WasmBinaryReader, o: &mut InstructionEncoder) -> (r: ParseResult)
    requires
        old(ctxt).wf(),
    ensures
        old(ctxt).frame(&*final(ctxt)),
        simple_ok(*old(i), *final(i), r),
        fbinary_post(old(ctxt).model(), final(ctxt).model(), *old(o), *final(o), FBinaryOp::Add, NumType::F32),
{
    f_arith(ctxt, o, FBinaryOp::Add, NumType::F32)
}

/// `f32.sub`
pub fn f32_sub(ctxt: &mut Context, i: &mut WasmBinaryReader, o: &mut InstructionEncoder) -> (r: ParseResult)
    requires
        old(ctxt).wf(),
    ensures
        old(ctxt).frame(&*final(ctxt)),
        simple_ok(*old(i), *final(i), r),
        fbinary_post(old(ctxt).model(), final(ctxt).model(), *old(o), *final(o), FBinaryOp::Sub, NumType::F32),
{
    f_arith(ctxt, o, FBinaryOp::Sub, NumType::F32)
}

/// `f32.mul`
pub fn f32_mul(ctxt: &mut Context, i: &mut WasmBinaryReader, o: &mut InstructionEncoder) -> (r: ParseResult)
    requires
        old(ctxt).wf(),
    ensures
        old(ctxt).frame(&*final(ctxt)),
        simple_ok(*old(i), *final(i), r),
        fbinary_post(old(ctxt).model(), final(ctxt).model(), *old(o), *final(o), FBinaryOp::Mul, NumType::F32),
{
    f_arith(ctxt, o, FBinaryOp::Mul, NumType::F32)
}

/// `f32.div`
pub fn f32_div(ctxt: &mut Context, i: &mut WasmBinaryReader, o: &mut InstructionEncoder) -> (r: ParseResult)
    requires
        old(ctxt).wf(),
    ensures
        old(ctxt).frame(&*final(ctxt)),
        simple_ok(*old(i), *final(i), r),
        fbinary_post(old(ctxt).model(), final(ctxt).model(), *old(o), *final(o), FBinaryOp::Div, NumType::F32),
{
    f_arith(ctxt, o, FBinaryOp::Div, NumType::F32)
}

/// `f32.min`
pub fn f32_min(ctxt: &mut Context, i: &mut WasmBinaryReader, o: &mut InstructionEncoder) -> (r: ParseResult)
    requires
        old(ctxt).wf(),
    ensures
        old(ctxt).frame(&*final(ctxt)),
        simple_ok(*old(i), *final(i), r),
        fbinary_post(old(ctxt).model(), final(ctxt).model(), *old(o), *final(o), FBinaryOp::Min, NumType::F32),
{
    f_arith(ctxt, o, FBinaryOp::Min, NumType::F32)
}

/// `f32.max`
pub fn f32_max(ctxt: &mut Context, i: &mut WasmBinaryReader, o: &mut InstructionEncoder) -> (r: ParseResult)
    requires
        old(ctxt).wf(),
    ensures
        old(ctxt).frame(&*final(ctxt)),
        simple_ok(*old(i), *final(i), r),
        fbinary_post(old(ctxt).model(), final(ctxt).model(), *old(o), *final(o), FBinaryOp::Max, NumType::F32),
{
    f_arith(ctxt, o, FBinaryOp::Max, NumType::F32)
}

/// `f32.copysign`
pub fn f32_copysign(ctxt: &mut Context, i: &mut WasmBinaryReader, o: &mut InstructionEncoder) -> (r: ParseResult)
    requires
        old(ctxt).wf(),
    ensures
        old(ctxt).frame(&*final(ctxt)),
        simple_ok(*old(i), *final(i), r),
        fbinary_post(old(ctxt).model(), final(ctxt).model(), *old(o), *final(o), FBinaryOp::Copysign, NumType::F32),
{
    f_arith(ctxt, o, FBinaryOp::Copysign, NumType::F32)
}

/// `f64.add`
pub fn f64_add(ctxt: &mut Context, i: &mut WasmBinaryReader, o: &mut InstructionEncoder) -> (r: ParseResult)
    requires
        old(ctxt).wf(),
    ensures
        old(ctxt).frame(&*final(ctxt)),
        simple_ok(*old(i), *final(i), r),
        fbinary_post(old(ctxt).model(), final(ctxt).model(), *old(o), *final(o), FBinaryOp::Add, NumType::F64),
{
    f_arith(ctxt, o, FBinaryOp::Add, NumType::F64)
}

/// `f64.sub`
pub fn f64_sub(ctxt: &mut Context, i: &mut WasmBinaryReader, o: &mut InstructionEncoder) -> (r: ParseResult)
    requires
        old(ctxt).wf(),
    ensures
        old(ctxt).frame(&*final(ctxt)),
        simple_ok(*old(i), *final(i), r),
        fbinary_post(old(ctxt).model(), final(ctxt).model(), *old(o), *final(o), FBinaryOp::Sub, NumType::F64),
{
    f_arith(ctxt, o, FBinaryOp::Sub, NumType::F64)
}

/// `f64.mul`
pub fn f64_mul(ctxt: &mut Context, i: &mut WasmBinaryReader, o: &mut InstructionEncoder) -> (r: ParseResult)
    requires
        old(ctxt).wf(),
    ensures
        old(ctxt).frame(&*final(ctxt)),
        simple_ok(*old(i), *final(i), r),
        fbinary_post(old(ctxt).model(), final(ctxt).model(), *old(o), *final(o), FBinaryOp::Mul, NumType::F64),
{
    f_arith(ctxt, o, FBinaryOp::Mul, NumType::F64)
}

/// `f64.div`
pub fn f64_div(ctxt: &mut Context, i: &mut WasmBinaryReader, o: &mut InstructionEncoder) -> (r: ParseResult)
    requires
        old(ctxt).wf(),
    ensures
        old(ctxt).frame(&*final(ctxt)),
        simple_ok(*old(i), *final(i), r),
        fbinary_post(old(ctxt).model(), final(ctxt).model(), *old(o), *final(o), FBinaryOp::Div, NumType::F64),
{
    f_arith(ctxt, o, FBinaryOp::Div, NumType::F64)
}

/// `f64.min`
pub fn f64_min(ctxt: &mut Context, i: &mut WasmBinaryReader, o: &mut InstructionEncoder) -> (r: ParseResult)
    requires
        old(ctxt).wf(),
    ensures
        old(ctxt).frame(&*final(ctxt)),
        simple_ok(*old(i), *final(i), r),
        fbinary_post(old(ctxt).model(), final(ctxt).model(), *old(o), *final(o), FBinaryOp::Min, NumType::F64),
{
    f_arith(ctxt, o, FBinaryOp::Min, NumType::F64)
}

/// `f64.max`
pub fn f64_max(ctxt: &mut Context, i: &mut WasmBinaryReader, o: &mut InstructionEncoder) -> (r: ParseResult)
    requires
        old(ctxt).wf(),
    ensures
        old(ctxt).frame(&*final(ctxt)),
        simple_ok(*old(i), *final(i), r),
        fbinary_post(old(ctxt).model(), final(ctxt).model(), *old(o), *final(o), FBinaryOp::Max, NumType::F64),
{
    f_arith(ctxt, o, FBinaryOp::Max, NumType::F64)
}

/// `f64.copysign`
pub fn f64_copysign(ctxt: &mut Context, i: &mut WasmBinaryReader, o: &mut InstructionEncoder) -> (r: ParseResult)
    requires
        old(ctxt).wf(),
    ensures
        old(ctxt).frame(&*final(ctxt)),
        simple_ok(*old(i), *final(i), r),
        fbinary_post(old(ctxt).model(), final(ctxt).model(), *old(o), *final(o), FBinaryOp::Copysign, NumType::F64),
{
    f_arith(ctxt, o, FBinaryOp::Copysign, NumType::F64)
}

/// `i32.eq`
pub fn i32_eq(ctxt: &mut Context, i: &mut WasmBinaryReader, o: &mut InstructionEncoder) -> (r: ParseResult)
    requires
        old(ctxt).wf(),
    ensures
        old(ctxt).frame(&*final(ctxt)),
        simple_ok(*old(i), *final(i), r),
        irelational_post(old(ctxt).model(), final(ctxt).model(), *old(o), *final(o), IRelationalOp::Eq, NumType::I32),
{
    i_relational(ctxt, o, IRelationalOp::Eq, NumType::I32)
}

/// `i32.ne`
pub fn i32_ne(ctxt: &mut Context, i: &mut WasmBinaryReader, o: &mut InstructionEncoder) -> (r: ParseResult)
    requires
        old(ctxt).wf(),
    ensures
        old(ctxt).frame(&*final(ctxt)),
        simple_ok(*old(i), *final(i), r),
        irelational_post(old(ctxt).model(), final(ctxt).model(), *old(o), *final(o), IRelationalOp::Ne, NumType::I32),
{
    i_relational(ctxt, o, IRelationalOp::Ne, NumType::I32)
}

/// `i32.lt_s`
pub fn i32_lt_s(ctxt: &mut Context, i: &mut WasmBinaryReader, o: &mut InstructionEncoder) -> (r: ParseResult)
    requires
        old(ctxt).wf(),
    ensures
        old(ctxt).frame(&*final(ctxt)),
        simple_ok(*old(i), *final(i), r),
        irelational_post(old(ctxt).model(), final(ctxt).model(), *old(o), *final(o), IRelationalOp::LtS, NumType::I32),
{
    i_relational(ctxt, o, IRelationalOp::LtS, NumType::I32)
}

/// `i32.lt_u`
pub fn i32_lt_u(ctxt: &mut Context, i: &mut WasmBinaryReader, o: &mut InstructionEncoder) -> (r: ParseResult)
    requires
        old(ctxt).wf(),
    ensures
        old(ctxt).frame(&*final(ctxt)),
        simple_ok(*old(i), *final(i), r),
        irelational_post(old(ctxt).model(), final(ctxt).model(), *old(o), *final(o), IRelationalOp::LtU, NumType::I32),
{
    i_relational(ctxt, o, IRelationalOp::LtU, NumType::I32)
}

/// `i32.gt_s`
pub fn i32_gt_s(ctxt: &mut Context, i: &mut WasmBinaryReader, o: &mut InstructionEncoder) -> (r: ParseResult)
    requires
        old(ctxt).wf(),
    ensures
        old(ctxt).frame(&*final(ctxt)),
        simple_ok(*old(i), *final(i), r),
        irelational_post(old(ctxt).model(), final(ctxt).model(), *old(o), *final(o), IRelationalOp::GtS, NumType::I32),
{
    i_relational(ctxt, o, IRelationalOp::GtS, NumType::I32)
}

/// `i32.gt_u`
pub fn i32_gt_u(ctxt: &mut Context, i: &mut WasmBinaryReader, o: &mut InstructionEncoder) -> (r: ParseResult)
    requires
        old(ctxt).wf(),
    ensures
        old(ctxt).frame(&*final(ctxt)),
        simple_ok(*old(i), *final(i), r),
        irelational_post(old(ctxt).model(), final(ctxt).model(), *old(o), *final(o), IRelationalOp::GtU, NumType::I32),
{
    i_relational(ctxt, o, IRelationalOp::GtU, NumType::I32)
}

/// `i32.le_s`
pub fn i32_le_s(ctxt: &mut Context, i: &mut WasmBinaryReader, o: &mut InstructionEncoder) -> (r: ParseResult)
    requires
        old(ctxt).wf(),
    ensures
        old(ctxt).frame(&*final(ctxt)),
        simple_ok(*old(i), *final(i), r),
        irelational_post(old(ctxt).model(), final(ctxt).model(), *old(o), *final(o), IRelationalOp::LeS, NumType::I32),
{
    i_relational(ctxt, o, IRelationalOp::LeS, NumType::I32)
}

/// `i32.le_u`
pub fn i32_le_u(ctxt: &mut Context, i: &mut WasmBinaryReader, o: &mut InstructionEncoder) -> (r: ParseResult)
    requires
        old(ctxt).wf(),
    ensures
        old(ctxt).frame(&*final(ctxt)),
        simple_ok(*old(i), *final(i), r),
        irelational_post(old(ctxt).model(), final(ctxt).model(), *old(o), *final(o), IRelationalOp::LeU, NumType::I32),
{
    i_relational(ctxt, o, IRelationalOp::LeU, NumType::I32)
}

/// `i32.ge_s`
pub fn i32_ge_s(ctxt: &mut Context, i: &mut WasmBinaryReader, o: &mut InstructionEncoder) -> (r: ParseResult)
    requires
        old(ctxt).wf(),
    ensures
        old(ctxt).frame(&*final(ctxt)),
        simple_ok(*old(i), *final(i), r),
        irelational_post(old(ctxt).model(), final(ctxt).model(), *old(o), *final(o), IRelationalOp::GeS, NumType::I32),
{
    i_relational(ctxt, o, IRelationalOp::GeS, NumType::I32)
}

/// `i32.ge_u`
pub fn i32_ge_u(ctxt: &mut Context, i: &mut WasmBinaryReader, o: &mut InstructionEncoder) -> (r: ParseResult)
    requires
        old(ctxt).wf(),
    ensures
        old(ctxt).frame(&*final(ctxt)),
        simple_ok(*old(i), *final(i), r),
        irelational_post(old(ctxt).model(), final(ctxt).model(), *old(o), *final(o), IRelationalOp::GeU, NumType::I32),
{
    i_relational(ctxt, o, IRelationalOp::GeU, NumType::I32)
}

/// `i64.eq`
pub fn i64_eq(ctxt: &mut Context, i: &mut WasmBinaryReader, o: &mut InstructionEncoder) -> (r: ParseResult)
    requires
        old(ctxt).wf(),
    ensures
        old(ctxt).frame(&*final(ctxt)),
        simple_ok(*old(i), *final(i), r),
        irelational_post(old(ctxt).model(), final(ctxt).model(), *old(o), *final(o), IRelationalOp::Eq, NumType::I64),
{
    i_relational(ctxt, o, IRelationalOp::Eq, NumType::I64)
}

/// `i64.ne`
pub fn i64_ne(ctxt: &mut Context, i: &mut WasmBinaryReader, o: &mut InstructionEncoder) -> (r: ParseResult)
    requires
        old(ctxt).wf(),
    ensures
        old(ctxt).frame(&*final(ctxt)),
        simple_ok(*old(i), *final(i), r),
        irelational_post(old(ctxt).model(), final(ctxt).model(), *old(o), *final(o), IRelationalOp::Ne, NumType::I64),
{
    i_relational(ctxt, o, IRelationalOp::Ne, NumType::I64)
}

/// `i64.lt_s`
pub fn i64_lt_s(ctxt: &mut Context, i: &mut WasmBinaryReader, o: &mut InstructionEncoder) -> (r: ParseResult)
    requires
        old(ctxt).wf(),
    ensures
        old(ctxt).frame(&*final(ctxt)),
        simple_ok(*old(i), *final(i), r),
        irelational_post(old(ctxt).model(), final(ctxt).model(), *old(o), *final(o), IRelationalOp::LtS, NumType::I64),
{
    i_relational(ctxt, o, IRelationalOp::LtS, NumType::I64)
}

/// `i64.lt_u`
pub fn i64_lt_u(ctxt: &mut Context, i: &mut WasmBinaryReader, o: &mut InstructionEncoder) -> (r: ParseResult)
    requires
        old(ctxt).wf(),
    ensures
        old(ctxt).frame(&*final(ctxt)),
        simple_ok(*old(i), *final(i), r),
        irelational_post(old(ctxt).model(), final(ctxt).model(), *old(o), *final(o), IRelationalOp::LtU, NumType::I64),
{
    i_relational(ctxt, o, IRelationalOp::LtU, NumType::I64)
}

/// `i64.gt_s`
pub fn i64_gt_s(ctxt: &mut Context, i: &mut WasmBinaryReader, o: &mut InstructionEncoder) -> (r: ParseResult)
    requires
        old(ctxt).wf(),
    ensures
        old(ctxt).frame(&*final(ctxt)),
        simple_ok(*old(i), *final(i), r),
        irelational_post(old(ctxt).model(), final(ctxt).model(), *old(o), *final(o), IRelationalOp::GtS, NumType::I64),
{
    i_relational(ctxt, o, IRelationalOp::GtS, NumType::I64)
}

/// `i64.gt_u`
pub fn i64_gt_u(ctxt: &mut Context, i: &mut WasmBinaryReader, o: &mut InstructionEncoder) -> (r: ParseResult)
    requires
        old(ctxt).wf(),
    ensures
        old(ctxt).frame(&*final(ctxt)),
        simple_ok(*old(i), *final(i), r),
        irelational_post(old(ctxt).model(), final(ctxt).model(), *old(o), *final(o), IRelationalOp::GtU, NumType::I64),
{
    i_relational(ctxt, o, IRelationalOp::GtU, NumType::I64)
}

/// `i64.le_s`
pub fn i64_le_s(ctxt: &mut Context, i: &mut WasmBinaryReader, o: &mut InstructionEncoder) -> (r: ParseResult)
    requires
        old(ctxt).wf(),
    ensures
        old(ctxt).frame(&*final(ctxt)),
        simple_ok(*old(i), *final(i), r),
        irelational_post(old(ctxt).model(), final(ctxt).model(), *old(o), *final(o), IRelationalOp::LeS, NumType::I64),
{
    i_relational(ctxt, o, IRelationalOp::LeS, NumType::I64)
}

/// `i64.le_u`
pub fn i64_le_u(ctxt: &mut Context, i: &mut WasmBinaryReader, o: &mut InstructionEncoder) -> (r: ParseResult)
    requires
        old(ctxt).wf(),
    ensures
        old(ctxt).frame(&*final(ctxt)),
        simple_ok(*old(i), *final(i), r),
        irelational_post(old(ctxt).model(), final(ctxt).model(), *old(o), *final(o), IRelationalOp::LeU, NumType::I64),
{
    i_relational(ctxt, o, IRelationalOp::LeU, NumType::I64)
}

/// `i64.ge_s`
pub fn i64_ge_s(ctxt: &mut Context, i: &mut WasmBinaryReader, o: &mut InstructionEncoder) -> (r: ParseResult)
    requires
        old(ctxt).wf(),
    ensures
        old(ctxt).frame(&*final(ctxt)),
        simple_ok(*old(i), *final(i), r),
        irelational_post(old(ctxt).model(), final(ctxt).model(), *old(o), *final(o), IRelationalOp::GeS, NumType::I64),
{
    i_relational(ctxt, o, IRelationalOp::GeS, NumType::I64)
}

/// `i64.ge_u`
pub fn i64_ge_u(ctxt: &mut Context, i: &mut WasmBinaryReader, o: &mut InstructionEncoder) -> (r: ParseResult)
    requires
        old(ctxt).wf(),
    ensures
        old(ctxt).frame(&*final(ctxt)),
        simple_ok(*old(i), *final(i), r),
        irelational_post(old(ctxt).model(), final(ctxt).model(), *old(o), *final(o), IRelationalOp::GeU, NumType::I64),
{
    i_relational(ctxt, o, IRelationalOp::GeU, NumType::I64)
}

/// `f32.eq`
pub fn f32_eq(ctxt: &mut Context, i: &mut WasmBinaryReader, o: &mut InstructionEncoder) -> (r: ParseResult)
    requires
        old(ctxt).wf(),
    ensures
        old(ctxt).frame(&*final(ctxt)),
        simple_ok(*old(i), *final(i), r),
        frelational_post(old(ctxt).model(), final(ctxt).model(), *old(o), *final(o), FRelationalOp::Eq, NumType::F32),
{
    f_relational(ctxt, o, FRelationalOp::Eq, NumType::F32)
}

/// `f32.ne`
pub fn f32_ne(ctxt: &mut Context, i: &mut WasmBinaryReader, o: &mut InstructionEncoder) -> (r: ParseResult)
    requires
        old(ctxt).wf(),
    ensures
        old(ctxt).frame(&*final(ctxt)),
        simple_ok(*old(i), *final(i), r),
        frelational_post(old(ctxt).model(), final(ctxt).model(), *old(o), *final(o), FRelationalOp::Ne, NumType::F32),
{
    f_relational(ctxt, o, FRelationalOp::Ne, NumType::F32)
}

/// `f32.lt`
pub fn f32_lt(ctxt: &mut Context, i: &mut WasmBinaryReader, o: &mut InstructionEncoder) -> (r: ParseResult)
    requires
        old(ctxt).wf(),
    ensures
        old(ctxt).frame(&*final(ctxt)),
        simple_ok(*old(i), *final(i), r),
        frelational_post(old(ctxt).model(), final(ctxt).model(), *old(o), *final(o), FRelationalOp::Lt, NumType::F32),
{
    f_relational(ctxt, o, FRelationalOp::Lt, NumType::F32)
}

/// `f32.gt`
pub fn f32_gt(ctxt: &mut Context, i: &mut WasmBinaryReader, o: &mut InstructionEncoder) -> (r: ParseResult)
    requires
        old(ctxt).wf(),
    ensures
        old(ctxt).frame(&*final(ctxt)),
        simple_ok(*old(i), *final(i), r),
        frelational_post(old(ctxt).model(), final(ctxt).model(), *old(o), *final(o), FRelationalOp::Gt, NumType::F32),
{
    f_relational(ctxt, o, FRelationalOp::Gt, NumType::F32)
}

/// `f32.le`
pub fn f32_le(ctxt: &mut Context, i: &mut WasmBinaryReader, o: &mut InstructionEncoder) -> (r: ParseResult)
    requires
        old(ctxt).wf(),
    ensures
        old(ctxt).frame(&*final(ctxt)),
        simple_ok(*old(i), *final(i), r),
        frelational_post(old(ctxt).model(), final(ctxt).model(), *old(o), *final(o), FRelationalOp::Le, NumType::F32),
{
    f_relational(ctxt, o, FRelationalOp::Le, NumType::F32)
}

/// `f32.ge`
pub fn f32_ge(ctxt: &mut Context, i: &mut WasmBinaryReader, o: &mut InstructionEncoder) -> (r: ParseResult)
    requires
        old(ctxt).wf(),
    ensures
        old(ctxt).frame(&*final(ctxt)),
        simple_ok(*old(i), *final(i), r),
        frelational_post(old(ctxt).model(), final(ctxt).model(), *old(o), *final(o), FRelationalOp::Ge, NumType::F32),
{
    f_relational(ctxt, o, FRelationalOp::Ge, NumType::F32)
}

/// `f64.eq`
pub fn f64_eq(ctxt: &mut Context, i: &mut WasmBinaryReader, o: &mut InstructionEncoder) -> (r: ParseResult)
    requires
        old(ctxt).wf(),
    ensures
        old(ctxt).frame(&*final(ctxt)),
        simple_ok(*old(i), *final(i), r),
        frelational_post(old(ctxt).model(), final(ctxt).model(), *old(o), *final(o), FRelationalOp::Eq, NumType::F64),
{
    f_relational(ctxt, o, FRelationalOp::Eq, NumType::F64)
}

/// `f64.ne`
pub fn f64_ne(ctxt: &mut Context, i: &mut WasmBinaryReader, o: &mut InstructionEncoder) -> (r: ParseResult)
    requires
        old(ctxt).wf(),
    ensures
        old(ctxt).frame(&*final(ctxt)),
        simple_ok(*old(i), *final(i), r),
        frelational_post(old(ctxt).model(), final(ctxt).model(), *old(o), *final(o), FRelationalOp::Ne, NumType::F64),
{
    f_relational(ctxt, o, FRelationalOp::Ne, NumType::F64)
}

/// `f64.lt`
pub fn f64_lt(ctxt: &mut Context, i: &mut WasmBinaryReader, o: &mut InstructionEncoder) -> (r: ParseResult)
    requires
        old(ctxt).wf(),
    ensures
        old(ctxt).frame(&*final(ctxt)),
        simple_ok(*old(i), *final(i), r),
        frelational_post(old(ctxt).model(), final(ctxt).model(), *old(o), *final(o), FRelationalOp::Lt, NumType::F64),
{
    f_relational(ctxt, o, FRelationalOp::Lt, NumType::F64)
}

/// `f64.gt`
pub fn f64_gt(ctxt: &mut Context, i: &mut WasmBinaryReader, o: &mut InstructionEncoder) -> (r: ParseResult)
    requires
        old(ctxt).wf(),
    ensures
        old(ctxt).frame(&*final(ctxt)),
        simple_ok(*old(i), *final(i), r),
        frelational_post(old(ctxt).model(), final(ctxt).model(), *old(o), *final(o), FRelationalOp::Gt, NumType::F64),
{
    f_relational(ctxt, o, FRelationalOp::Gt, NumType::F64)
}

/// `f64.le`
pub fn f64_le(ctxt: &mut Context, i: &mut WasmBinaryReader, o: &mut InstructionEncoder) -> (r: ParseResult)
    requires
        old(ctxt).wf(),
    ensures
        old(ctxt).frame(&*final(ctxt)),
        simple_ok(*old(i), *final(i), r),
        frelational_post(old(ctxt).model(), final(ctxt).model(), *old(o), *final(o), FRelationalOp::Le, NumType::F64),
{
    f_relational(ctxt, o, FRelationalOp::Le, NumType::F64)
}

/// `f64.ge`
pub fn f64_ge(ctxt: &mut Context, i: &mut WasmBinaryReader, o: &mut InstructionEncoder) -> (r: ParseResult)
    requires
        old(ctxt).wf(),
    ensures
        old(ctxt).frame(&*final(ctxt)),
        simple_ok(*old(i), *final(i), r),
        frelational_post(old(ctxt).model(), final(ctxt).model(), *old(o), *final(o), FRelationalOp::Ge, NumType::F64),
{
    f_relational(ctxt, o, FRelationalOp::Ge, NumType::F64)
}

/// `i32.load`
pub fn i32_load(ctxt: &mut Context, i: &mut WasmBinaryReader, o: &mut InstructionEncoder) -> (r: ParseResult)
    requires
        old(ctxt).wf(),
    ensures
        old(ctxt).frame(&*final(ctxt)),
        load_post(*old(i), *final(i), old(ctxt).model(), final(ctxt).model(), *old(o), *final(o), NumType::I32, LoadOp::INNLoad, r),
{
    parse_load(ctxt, i, o, NumType::I32, LoadOp::INNLoad)
}

/// `i64.load`
pub fn i64_load(ctxt: &mut Context, i: &mut WasmBinaryReader, o: &mut InstructionEncoder) -> (r: ParseResult)
    requires
        old(ctxt).wf(),
    ensures
        old(ctxt).frame(&*final(ctxt)),
        load_post(*old(i), *final(i), old(ctxt).model(), final(ctxt).model(), *old(o), *final(o), NumType::I64, LoadOp::INNLoad, r),
{
    parse_load(ctxt, i, o, NumType::I64, LoadOp::INNLoad)
}

/// `f32.load`
pub fn f32_load(ctxt: &mut Context, i: &mut WasmBinaryReader, o: &mut InstructionEncoder) -> (r: ParseResult)
    requires
        old(ctxt).wf(),
    ensures
        old(ctxt).frame(&*final(ctxt)),
        load_post(*old(i), *final(i), old(ctxt).model(), final(ctxt).model(), *old(o), *final(o), NumType::F32, LoadOp::FNNLoad, r),
{
    parse_load(ctxt, i, o, NumType::F32, LoadOp::FNNLoad)
}

/// `f64.load`
pub fn f64_load(ctxt: &mut Context, i: &mut WasmBinaryReader, o: &mut InstructionEncoder) -> (r: ParseResult)
    requires
        old(ctxt).wf(),
    ensures
        old(ctxt).frame(&*final(ctxt)),
        load_post(*old(i), *final(i), old(ctxt).model(), final(ctxt).model(), *old(o), *final(o), NumType::F64, LoadOp::FNNLoad, r),
{
    parse_load(ctxt, i, o, NumType::F64, LoadOp::FNNLoad)
}

/// `i32.load8_s`
pub fn i32_load8_s(ctxt: &mut Context, i: &mut WasmBinaryReader, o: &mut InstructionEncoder) -> (r: ParseResult)
    requires
        old(ctxt).wf(),
    ensures
        old(ctxt).frame(&*final(ctxt)),
        load_post(*old(i), *final(i), old(ctxt).model(), final(ctxt).model(), *old(o), *final(o), NumType::I32, LoadOp::INNLoad8S, r),
{
    parse_load(ctxt, i, o, NumType::I32, LoadOp::INNLoad8S)
}

/// `i32.load8_u`
pub fn i32_load8_u(ctxt: &mut Context, i: &mut WasmBinaryReader, o: &mut InstructionEncoder) -> (r: ParseResult)
    requires
        old(ctxt).wf(),
    ensures
        old(ctxt).frame(&*final(ctxt)),
        load_post(*old(i), *final(i), old(ctxt).model(), final(ctxt).model(), *old(o), *final(o), NumType::I32, LoadOp::INNLoad8U, r),
{
    parse_load(ctxt, i, o, NumType::I32, LoadOp::INNLoad8U)
}

/// `i32.load16_s`
pub fn i32_load16_s(ctxt: &mut Context, i: &mut WasmBinaryReader, o: &mut InstructionEncoder) -> (r: ParseResult)
    requires
        old(ctxt).wf(),
    ensures
        old(ctxt).frame(&*final(ctxt)),
        load_post(*old(i), *final(i), old(ctxt).model(), final(ctxt).model(), *old(o), *final(o), NumType::I32, LoadOp::INNLoad16S, r),
{
    parse_load(ctxt, i, o, NumType::I32, LoadOp::INNLoad16S)
}

/// `i32.load16_u`
pub fn i32_load16_u(ctxt: &mut Context, i: &mut WasmBinaryReader, o: &mut InstructionEncoder) -> (r: ParseResult)
    requires
        old(ctxt).wf(),
    ensures
        old(ctxt).frame(&*final(ctxt)),
        load_post(*old(i), *final(i), old(ctxt).model(), final(ctxt).model(), *old(o), *final(o), NumType::I32, LoadOp::INNLoad16U, r),
{
    parse_load(ctxt, i, o, NumType::I32, LoadOp::INNLoad16U)
}

/// `i64.load8_s`
pub fn i64_load8_s(ctxt: &mut Context, i: &mut WasmBinaryReader, o: &mut InstructionEncoder) -> (r: ParseResult)
    requires
        old(ctxt).wf(),
    ensures
        old(ctxt).frame(&*final(ctxt)),
        load_post(*old(i), *final(i), old(ctxt).model(), final(ctxt).model(), *old(o), *final(o), NumType::I64, LoadOp::INNLoad8S, r),
{
    parse_load(ctxt, i, o, NumType::I64, LoadOp::INNLoad8S)
}

/// `i64.load8_u`
pub fn i64_load8_u(ctxt: &mut Context, i: &mut WasmBinaryReader, o: &mut InstructionEncoder) -> (r: ParseResult)
    requires
        old(ctxt).wf(),
    ensures
        old(ctxt).frame(&*final(ctxt)),
        load_post(*old(i), *final(i), old(ctxt).model(), final(ctxt).model(), *old(o), *final(o), NumType::I64, LoadOp::INNLoad8U, r),
{
    parse_load(ctxt, i, o, NumType::I64, LoadOp::INNLoad8U)
}

/// `i64.load16_s`
pub fn i64_load16_s(ctxt: &mut Context, i: &mut WasmBinaryReader, o: &mut InstructionEncoder) -> (r: ParseResult)
    requires
        old(ctxt).wf(),
    ensures
        old(ctxt).frame(&*final(ctxt)),
        load_post(*old(i), *final(i), old(ctxt).model(), final(ctxt).model(), *old(o), *final(o), NumType::I64, LoadOp::INNLoad16S, r),
{
    parse_load(ctxt, i, o, NumType::I64, LoadOp::INNLoad16S)
}

/// `i64.load16_u`
pub fn i64_load16_u(ctxt: &mut Context, i: &mut WasmBinaryReader, o: &mut InstructionEncoder) -> (r: ParseResult)
    requires
        old(ctxt).wf(),
    ensures
        old(ctxt).frame(&*final(ctxt)),
        load_post(*old(i), *final(i), old(ctxt).model(), final(ctxt).model(), *old(o), *final(o), NumType::I64, LoadOp::INNLoad16U, r),
{
    parse_load(ctxt, i, o, NumType::I64, LoadOp::INNLoad16U)
}

/// `i64.load32_s`
pub fn i64_load32_s(ctxt: &mut Context, i: &mut WasmBinaryReader, o: &mut InstructionEncoder) -> (r: ParseResult)
    requires
        old(ctxt).wf(),
    ensures
        old(ctxt).frame(&*final(ctxt)),
        load_post(*old(i), *final(i), old(ctxt).model(), final(ctxt).model(), *old(o), *final(o), NumType::I64, LoadOp::INNLoad32S, r),
{
    parse_load(ctxt, i, o, NumType::I64, LoadOp::INNLoad32S)
}

/// `i64.load32_u`
pub fn i64_load32_u(ctxt: &mut Context, i: &mut WasmBinaryReader, o: &mut InstructionEncoder) -> (r: ParseResult)
    requires
        old(ctxt).wf(),
    ensures
        old(ctxt).frame(&*final(ctxt)),
        load_post(*old(i), *final(i), old(ctxt).model(), final(ctxt).model(), *old(o), *final(o), NumType::I64, LoadOp::INNLoad32U, r),
{
    parse_load(ctxt, i, o, NumType::I64, LoadOp::INNLoad32U)
}

/// `i32.store`
pub fn i32_store(ctxt: &mut Context, i: &mut WasmBinaryReader, o: &mut InstructionEncoder) -> (r: ParseResult)
    requires
        old(ctxt).wf(),
    ensures
        old(ctxt).frame(&*final(ctxt)),
        store_post(*old(i), *final(i), old(ctxt).model(), final(ctxt).model(), *old(o), *final(o), NumType::I32, StoreOp::INNStore, r),
{
    parse_store(ctxt, i, o, NumType::I32, StoreOp::INNStore)
}

/// `i64.store`
pub fn i64_store(ctxt: &mut Context, i: &mut WasmBinaryReader, o: &mut InstructionEncoder) -> (r: ParseResult)
    requires
        old(ctxt).wf(),
    ensures
        old(ctxt).frame(&*final(ctxt)),
        store_post(*old(i), *final(i), old(ctxt).model(), final(ctxt).model(), *old(o), *final(o), NumType::I64, StoreOp::INNStore, r),
{
    parse_store(ctxt, i, o, NumType::I64, StoreOp::INNStore)
}

/// `f32.store`
pub fn f32_store(ctxt: &mut Context, i: &mut WasmBinaryReader, o: &mut InstructionEncoder) -> (r: ParseResult)
    requires
        old(ctxt).wf(),
    ensures
        old(ctxt).frame(&*final(ctxt)),
        store_post(*old(i), *final(i), old(ctxt).model(), final(ctxt).model(), *old(o), *final(o), NumType::F32, StoreOp::FNNStore, r),
{
    parse_store(ctxt, i, o, NumType::F32, StoreOp::FNNStore)
}

/// `f64.store`
pub fn f64_store(ctxt: &mut Context, i: &mut WasmBinaryReader, o: &mut InstructionEncoder) -> (r: ParseResult)
    requires
        old(ctxt).wf(),
    ensures
        old(ctxt).frame(&*final(ctxt)),
        store_post(*old(i), *final(i), old(ctxt).model(), final(ctxt).model(), *old(o), *final(o), NumType::F64, StoreOp::FNNStore, r),
{
    parse_store(ctxt, i, o, NumType::F64, StoreOp::FNNStore)
}

/// `i32.store8`
pub fn i32_store8(ctxt: &mut Context, i: &mut WasmBinaryReader, o: &mut InstructionEncoder) -> (r: ParseResult)
    requires
        old(ctxt).wf(),
    ensures
        old(ctxt).frame(&*final(ctxt)),
        store_post(*old(i), *final(i), old(ctxt).model(), final(ctxt).model(), *old(o), *final(o), NumType::I32, StoreOp::INNStore8, r),
{
    parse_store(ctxt, i, o, NumType::I32, StoreOp::INNStore8)
}

/// `i32.store16`
pub fn i32_store16(ctxt: &mut Context, i: &mut WasmBinaryReader, o: &mut InstructionEncoder) -> (r: ParseResult)
    requires
        old(ctxt).wf(),
    ensures
        old(ctxt).frame(&*final(ctxt)),
        store_post(*old(i), *final(i), old(ctxt).model(), final(ctxt).model(), *old(o), *final(o), NumType::I32, StoreOp::INNStore16, r),
{
    parse_store(ctxt, i, o, NumType::I32, StoreOp::INNStore16)
}

/// `i64.store8`
pub fn i64_store8(ctxt: &mut Context, i: &mut WasmBinaryReader, o: &mut InstructionEncoder) -> (r: ParseResult)
    requires
        old(ctxt).wf(),
    ensures
        old(ctxt).frame(&*final(ctxt)),
        store_post(*old(i), *final(i), old(ctxt).model(), final(ctxt).model(), *old(o), *final(o), NumType::I64, StoreOp::INNStore8, r),
{
    parse_store(ctxt, i, o, NumType::I64, StoreOp::INNStore8)
}

/// `i64.store16`
pub fn i64_store16(ctxt: &mut Context, i: &mut WasmBinaryReader, o: &mut InstructionEncoder) -> (r: ParseResult)
    requires
        old(ctxt).wf(),
    ensures
        old(ctxt).frame(&*final(ctxt)),
        store_post(*old(i), *final(i), old(ctxt).model(), final(ctxt).model(), *old(o), *final(o), NumType::I64, StoreOp::INNStore16, r),
{
    parse_store(ctxt, i, o, NumType::I64, StoreOp::INNStore16)
}

/// `i64.store32`
pub fn i64_store32(ctxt: &mut Context, i: &mut WasmBinaryReader, o: &mut InstructionEncoder) -> (r: ParseResult)
    requires
        old(ctxt).wf(),
    ensures
        old(ctxt).frame(&*final(ctxt)),
        store_post(*old(i), *final(i), old(ctxt).model(), final(ctxt).model(), *old(o), *final(o), NumType::I64, StoreOp::INNStore32, r),
{
    parse_store(ctxt, i, o, NumType::I64, StoreOp::INNStore32)
}

/// `f32.convert_i32_s`
pub fn f32_convert_i32_s(ctxt: &mut Context, i: &mut WasmBinaryReader, o: &mut InstructionEncoder) -> (r: ParseResult)
    requires
        old(ctxt).wf(),
    ensures
        old(ctxt).frame(&*final(ctxt)),
        simple_ok(*old(i), *final(i), r),
        convert_post(old(ctxt).model(), final(ctxt).model(), *old(o), *final(o), NumType::I32, NumType::F32, true),
{
    parse_convert(ctxt, o, NumType::I32, NumType::F32, true)
}

/// `f32.convert_i32_u`
pub fn f32_convert_i32_u(ctxt: &mut Context, i: &mut WasmBinaryReader, o: &mut InstructionEncoder) -> (r: ParseResult)
    requires
        old(ctxt).wf(),
    ensures
        old(ctxt).frame(&*final(ctxt)),
        simple_ok(*old(i), *final(i), r),
        convert_post(old(ctxt).model(), final(ctxt).model(), *old(o), *final(o), NumType::I32, NumType::F32, false),
{
    parse_convert(ctxt, o, NumType::I32, NumType::F32, false)
}

/// `f32.convert_i64_s`
pub fn f32_convert_i64_s(ctxt: &mut Context, i: &mut WasmBinaryReader, o: &mut InstructionEncoder) -> (r: ParseResult)
    requires
        old(ctxt).wf(),
    ensures
        old(ctxt).frame(&*final(ctxt)),
        simple_ok(*old(i), *final(i), r),
        convert_post(old(ctxt).model(), final(ctxt).model(), *old(o), *final(o), NumType::I64, NumType::F32, true),
{
    parse_convert(ctxt, o, NumType::I64, NumType::F32, true)
}

/// `f32.convert_i64_u`
pub fn f32_convert_i64_u(ctxt: &mut Context, i: &mut WasmBinaryReader, o: &mut InstructionEncoder) -> (r: ParseResult)
    requires
        old(ctxt).wf(),
    ensures
        old(ctxt).frame(&*final(ctxt)),
        simple_ok(*old(i), *final(i), r),
        convert_post(old(ctxt).model(), final(ctxt).model(), *old(o), *final(o), NumType::I64, NumType::F32, false),
{
    parse_convert(ctxt, o, NumType::I64, NumType::F32, false)
}

/// `f64.convert_i32_s`
pub fn f64_convert_i32_s(ctxt: &mut Context, i: &mut WasmBinaryReader, o: &mut InstructionEncoder) -> (r: ParseResult)
    requires
        old(ctxt).wf(),
    ensures
        old(ctxt).frame(&*final(ctxt)),
        simple_ok(*old(i), *final(i), r),
        convert_post(old(ctxt).model(), final(ctxt).model(), *old(o), *final(o), NumType::I32, NumType::F64, true),
{
    parse_convert(ctxt, o, NumType::I32, NumType::F64, true)
}

/// `f64.convert_i32_u`
pub fn f64_convert_i32_u(ctxt: &mut Context, i: &mut WasmBinaryReader, o: &mut InstructionEncoder) -> (r: ParseResult)
    requires
        old(ctxt).wf(),
    ensures
        old(ctxt).frame(&*final(ctxt)),
        simple_ok(*old(i), *final(i), r),
        convert_post(old(ctxt).model(), final(ctxt).model(), *old(o), *final(o), NumType::I32, NumType::F64, false),
{
    parse_convert(ctxt, o, NumType::I32, NumType::F64, false)
}

/// `f64.convert_i64_s`
pub fn f64_convert_i64_s(ctxt: &mut Context, i: &mut WasmBinaryReader, o: &mut InstructionEncoder) -> (r: ParseResult)
    requires
        old(ctxt).wf(),
    ensures
        old(ctxt).frame(&*final(ctxt)),
        simple_ok(*old(i), *final(i), r),
        convert_post(old(ctxt).model(), final(ctxt).model(), *old(o), *final(o), NumType::I64, NumType::F64, true),
{
    parse_convert(ctxt, o, NumType::I64, NumType::F64, true)
}

/// `f64.convert_i64_u`
pub fn f64_convert_i64_u(ctxt: &mut Context, i: &mut WasmBinaryReader, o: &mut InstructionEncoder) -> (r: ParseResult)
    requires
        old(ctxt).wf(),
    ensures
        old(ctxt).frame(&*final(ctxt)),
        simple_ok(*old(i), *final(i), r),
        convert_post(old(ctxt).model(), final(ctxt).model(), *old(o), *final(o), NumType::I64, NumType::F64, false),
{
    parse_convert(ctxt, o, NumType::I64, NumType::F64, false)
}

/// `i32.reinterpret_f32`
pub fn i32_reinterpret_f32(ctxt: &mut Context, i: &mut WasmBinaryReader, o: &mut InstructionEncoder) -> (r: ParseResult)
    requires
        old(ctxt).wf(),
    ensures
        old(ctxt).frame(&*final(ctxt)),
        simple_ok(*old(i), *final(i), r),
        reinterpret_post(old(ctxt).model(), final(ctxt).model(), *old(o), *final(o), NumType::F32, NumType::I32),
{
    parse_reinterpret(ctxt, i, o, NumType::F32, NumType::I32)
}

/// `i64.reinterpret_f64`
pub fn i64_reinterpret_f64(ctxt: &mut Context, i: &mut WasmBinaryReader, o: &mut InstructionEncoder) -> (r: ParseResult)
    requires
        old(ctxt).wf(),
    ensures
        old(ctxt).frame(&*final(ctxt)),
        simple_ok(*old(i), *final(i), r),
        reinterpret_post(old(ctxt).model(), final(ctxt).model(), *old(o), *final(o), NumType::F64, NumType::I64),
{
    parse_reinterpret(ctxt, i, o, NumType::F64, NumType::I64)
}

/// `f32.reinterpret_i32`
pub fn f32_reinterpret_i32(ctxt: &mut Context, i: &mut WasmBinaryReader, o: &mut InstructionEncoder) -> (r: ParseResult)
    requires
        old(ctxt).wf(),
    ensures
        old(ctxt).frame(&*final(ctxt)),
        simple_ok(*old(i), *final(i), r),
        reinterpret_post(old(ctxt).model(), final(ctxt).model(), *old(o), *final(o), NumType::I32, NumType::F32),
{
    parse_reinterpret(ctxt, i, o, NumType::I32, NumType::F32)
}

/// `f64.reinterpret_i64`
pub fn f64_reinterpret_i64(ctxt: &mut Context, i: &mut WasmBinaryReader, o: &mut InstructionEncoder) -> (r: ParseResult)
    requires
        old(ctxt).wf(),
    ensures
        old(ctxt).frame(&*final(ctxt)),
        simple_ok(*old(i), *final(i), r),
        reinterpret_post(old(ctxt).model(), final(ctxt).model(), *old(o), *final(o), NumType::I64, NumType::F64),
{
    parse_reinterpret(ctxt, i, o, NumType::I64, NumType::F64)
}

/// `i32.extend8_s`
pub fn i32_extend8_s(ctxt: &mut Context, i: &mut WasmBinaryReader, o: &mut InstructionEncoder) -> (r: ParseResult)
    requires
        old(ctxt).wf(),
    ensures
        old(ctxt).frame(&*final(ctxt)),
        simple_ok(*old(i), *final(i), r),
        extend_post(old(ctxt).model(), final(ctxt).model(), *old(o), *final(o), 8, NumType::I32),
{
    parse_extend(ctxt, i, o, 8, NumType::I32)
}

/// `i32.extend16_s`
pub fn i32_extend16_s(ctxt: &mut Context, i: &mut WasmBinaryReader, o: &mut InstructionEncoder) -> (r: ParseResult)
    requires
        old(ctxt).wf(),
    ensures
        old(ctxt).frame(&*final(ctxt)),
        simple_ok(*old(i), *final(i), r),
        extend_post(old(ctxt).model(), final(ctxt).model(), *old(o), *final(o), 16, NumType::I32),
{
    parse_extend(ctxt, i, o, 16, NumType::I32)
}

/// `i64.extend8_s`
pub fn i64_extend8_s(ctxt: &mut Context, i: &mut WasmBinaryReader, o: &mut InstructionEncoder) -> (r: ParseResult)
    requires
        old(ctxt).wf(),
    ensures
        old(ctxt).frame(&*final(ctxt)),
        simple_ok(*old(i), *final(i), r),
        extend_post(old(ctxt).model(), final(ctxt).model(), *old(o), *final(o), 8, NumType::I64),
{
    parse_extend(ctxt, i, o, 8, NumType::I64)
}

/// `i64.extend16_s`
pub fn i64_extend16_s(ctxt: &mut Context, i: &mut WasmBinaryReader, o: &mut InstructionEncoder) -> (r: ParseResult)
    requires
        old(ctxt).wf(),
    ensures
        old(ctxt).frame(&*final(ctxt)),
        simple_ok(*old(i), *final(i), r),
        extend_post(old(ctxt).model(), final(ctxt).model(), *old(o), *final(o), 16, NumType::I64),
{
    parse_extend(ctxt, i, o, 16, NumType::I64)
}

/// `i64.extend32_s`
pub fn i64_extend32_s(ctxt: &mut Context, i: &mut WasmBinaryReader, o: &mut InstructionEncoder) -> (r: ParseResult)
    requires
        old(ctxt).wf(),
    ensures
        old(ctxt).frame(&*final(ctxt)),
        simple_ok(*old(i), *final(i), r),
        extend_post(old(ctxt).model(), final(ctxt).model(), *old(o), *final(o), 32, NumType::I64),
{
    parse_extend(ctxt, i, o, 32, NumType::I64)
}

/// `i64.extend_i32_s`
pub fn i64_extend_i32_s(ctxt: &mut Context, i: &mut WasmBinaryReader, o: &mut InstructionEncoder) -> (r: ParseResult)
    requires
        old(ctxt).wf(),
    ensures
        old(ctxt).frame(&*final(ctxt)),
        simple_ok(*old(i), *final(i), r),
        extend_type_post(old(ctxt).model(), final(ctxt).model(), *old(o), *final(o), true),
{
    parse_extend_type(ctxt, i, o, true)
}

/// `i64.extend_i32_u`
pub fn i64_extend_i32_u(ctxt: &mut Context, i: &mut WasmBinaryReader, o: &mut InstructionEncoder) -> (r: ParseResult)
    requires
        old(ctxt).wf(),
    ensures
        old(ctxt).frame(&*final(ctxt)),
        simple_ok(*old(i), *final(i), r),
        extend_type_post(old(ctxt).model(), final(ctxt).model(), *old(o), *final(o), false),
{
    parse_extend_type(ctxt, i, o, false)
}

/// `i32.trunc_f32_s`
pub fn i32_trunc_f32_s(ctxt: &mut Context, i: &mut WasmBinaryReader, o: &mut InstructionEncoder) -> (r: ParseResult)
    requires
        old(ctxt).wf(),
    ensures
        old(ctxt).frame(&*final(ctxt)),
        simple_ok(*old(i), *final(i), r),
        trunc_post(old(ctxt).model(), final(ctxt).model(), *old(o), *final(o), NumType::F32, NumType::I32, true),
{
    parse_trunc(ctxt, o, NumType::F32, NumType::I32, true)
}

/// `i32.trunc_sat_f32_s`
pub fn i32_trunc_sat_f32_s(ctxt: &mut Context, i: &mut WasmBinaryReader, o: &mut InstructionEncoder) -> (r: ParseResult)
    requires
        old(ctxt).wf(),
    ensures
        old(ctxt).frame(&*final(ctxt)),
        simple_ok(*old(i), *final(i), r),
        trunc_sat_post(old(ctxt).model(), final(ctxt).model(), *old(o), *final(o), NumType::F32, NumType::I32, true),
{
    parse_trunc_sat(ctxt, o, NumType::F32, NumType::I32, true)
}

/// `i32.trunc_f32_u`
pub fn i32_trunc_f32_u(ctxt: &mut Context, i: &mut WasmBinaryReader, o: &mut InstructionEncoder) -> (r: ParseResult)
    requires
        old(ctxt).wf(),
    ensures
        old(ctxt).frame(&*final(ctxt)),
        simple_ok(*old(i), *final(i), r),
        trunc_post(old(ctxt).model(), final(ctxt).model(), *old(o), *final(o), NumType::F32, NumType::I32, false),
{
    parse_trunc(ctxt, o, NumType::F32, NumType::I32, false)
}

/// `i32.trunc_sat_f32_u`
pub fn i32_trunc_sat_f32_u(ctxt: &mut Context, i: &mut WasmBinaryReader, o: &mut InstructionEncoder) -> (r: ParseResult)
    requires
        old(ctxt).wf(),
    ensures
        old(ctxt).frame(&*final(ctxt)),
        simple_ok(*old(i), *final(i), r),
        trunc_sat_post(old(ctxt).model(), final(ctxt).model(), *old(o), *final(o), NumType::F32, NumType::I32, false),
{
    parse_trunc_sat(ctxt, o, NumType::F32, NumType::I32, false)
}

/// `i32.trunc_f64_s`
pub fn i32_trunc_f64_s(ctxt: &mut Context, i: &mut WasmBinaryReader, o: &mut InstructionEncoder) -> (r: ParseResult)
    requires
        old(ctxt).wf(),
    ensures
        old(ctxt).frame(&*final(ctxt)),
        simple_ok(*old(i), *final(i), r),
        trunc_post(old(ctxt).model(), final(ctxt).model(), *old(o), *final(o), NumType::F64, NumType::I32, true),
{
    parse_trunc(ctxt, o, NumType::F64, NumType::I32, true)
}

/// `i32.trunc_sat_f64_s`
pub fn i32_trunc_sat_f64_s(ctxt: &mut Context, i: &mut WasmBinaryReader, o: &mut InstructionEncoder) -> (r: ParseResult)
    requires
        old(ctxt).wf(),
    ensures
        old(ctxt).frame(&*final(ctxt)),
        simple_ok(*old(i), *final(i), r),
        trunc_sat_post(old(ctxt).model(), final(ctxt).model(), *old(o), *final(o), NumType::F64, NumType::I32, true),
{
    parse_trunc_sat(ctxt, o, NumType::F64, NumType::I32, true)
}

/// `i32.trunc_f64_u`
pub fn i32_trunc_f64_u(ctxt: &mut Context, i: &mut WasmBinaryReader, o: &mut InstructionEncoder) -> (r: ParseResult)
    requires
        old(ctxt).wf(),
    ensures
        old(ctxt).frame(&*final(ctxt)),
        simple_ok(*old(i), *final(i), r),
        trunc_post(old(ctxt).model(), final(ctxt).model(), *old(o), *final(o), NumType::F64, NumType::I32, false),
{
    parse_trunc(ctxt, o, NumType::F64, NumType::I32, false)
}

/// `i32.trunc_sat_f64_u`
pub fn i32_trunc_sat_f64_u(ctxt: &mut Context, i: &mut WasmBinaryReader, o: &mut InstructionEncoder) -> (r: ParseResult)
    requires
        old(ctxt).wf(),
    ensures
        old(ctxt).frame(&*final(ctxt)),
        simple_ok(*old(i), *final(i), r),
        trunc_sat_post(old(ctxt).model(), final(ctxt).model(), *old(o), *final(o), NumType::F64, NumType::I32, false),
{
    parse_trunc_sat(ctxt, o, NumType::F64, NumType::I32, false)
}

/// `i64.trunc_f32_s`
pub fn i64_trunc_f32_s(ctxt: &mut Context, i: &mut WasmBinaryReader, o: &mut InstructionEncoder) -> (r: ParseResult)
    requires
        old(ctxt).wf(),
    ensures
        old(ctxt).frame(&*final(ctxt)),
        simple_ok(*old(i), *final(i), r),
        trunc_post(old(ctxt).model(), final(ctxt).model(), *old(o), *final(o), NumType::F32, NumType::I64, true),
{
    parse_trunc(ctxt, o, NumType::F32, NumType::I64, true)
}

/// `i64.trunc_sat_f32_s`
pub fn i64_trunc_sat_f32_s(ctxt: &mut Context, i: &mut WasmBinaryReader, o: &mut InstructionEncoder) -> (r: ParseResult)
    requires
        old(ctxt).wf(),
    ensures
        old(ctxt).frame(&*final(ctxt)),
        simple_ok(*old(i), *final(i), r),
        trunc_sat_post(old(ctxt).model(), final(ctxt).model(), *old(o), *final(o), NumType::F32, NumType::I64, true),
{
    parse_trunc_sat(ctxt, o, NumType::F32, NumType::I64, true)
}

/// `i64.trunc_f32_u`
pub fn i64_trunc_f32_u(ctxt: &mut Context, i: &mut WasmBinaryReader, o: &mut InstructionEncoder) -> (r: ParseResult)
    requires
        old(ctxt).wf(),
    ensures
        old(ctxt).frame(&*final(ctxt)),
        simple_ok(*old(i), *final(i), r),
        trunc_post(old(ctxt).model(), final(ctxt).model(), *old(o), *final(o), NumType::F32, NumType::I64, false),
{
    parse_trunc(ctxt, o, NumType::F32, NumType::I64, false)
}

/// `i64.trunc_sat_f32_u`
pub fn i64_trunc_sat_f32_u(ctxt: &mut Context, i: &mut WasmBinaryReader, o: &mut InstructionEncoder) -> (r: ParseResult)
    requires
        old(ctxt).wf(),
    ensures
        old(ctxt).frame(&*final(ctxt)),
        simple_ok(*old(i), *final(i), r),
        trunc_sat_post(old(ctxt).model(), final(ctxt).model(), *old(o), *final(o), NumType::F32, NumType::I64, false),
{
    parse_trunc_sat(ctxt, o, NumType::F32, NumType::I64, false)
}

/// `i64.trunc_f64_s`
pub fn i64_trunc_f64_s(ctxt: &mut Context, i: &mut WasmBinaryReader, o: &mut InstructionEncoder) -> (r: ParseResult)
    requires
        old(ctxt).wf(),
    ensures
        old(ctxt).frame(&*final(ctxt)),
        simple_ok(*old(i), *final(i), r),
        trunc_post(old(ctxt).model(), final(ctxt).model(), *old(o), *final(o), NumType::F64, NumType::I64, true),
{
    parse_trunc(ctxt, o, NumType::F64, NumType::I64, true)
}

/// `i64.trunc_sat_f64_s`
pub fn i64_trunc_sat_f64_s(ctxt: &mut Context, i: &mut WasmBinaryReader, o: &mut InstructionEncoder) -> (r: ParseResult)
    requires
        old(ctxt).wf(),
    ensures
        old(ctxt).frame(&*final(ctxt)),
        simple_ok(*old(i), *final(i), r),
        trunc_sat_post(old(ctxt).model(), final(ctxt).model(), *old(o), *final(o), NumType::F64, NumType::I64, true),
{
    parse_trunc_sat(ctxt, o, NumType::F64, NumType::I64, true)
}

/// `i64.trunc_f64_u`
pub fn i64_trunc_f64_u(ctxt: &mut Context, i: &mut WasmBinaryReader, o: &mut InstructionEncoder) -> (r: ParseResult)
    requires
        old(ctxt).wf(),
    ensures
        old(ctxt).frame(&*final(ctxt)),
        simple_ok(*old(i), *final(i), r),
        trunc_post(old(ctxt).model(), final(ctxt).model(), *old(o), *final(o), NumType::F64, NumType::I64, false),
{
    parse_trunc(ctxt, o, NumType::F64, NumType::I64, false)
}

/// `i64.trunc_sat_f64_u`
pub fn i64_trunc_sat_f64_u(ctxt: &mut Context, i: &mut WasmBinaryReader, o: &mut InstructionEncoder) -> (r: ParseResult)
    requires
        old(ctxt).wf(),
    ensures
        old(ctxt).frame(&*final(ctxt)),
        simple_ok(*old(i), *final(i), r),
        trunc_sat_post(old(ctxt).model(), final(ctxt).model(), *old(o), *final(o), NumType::F64, NumType::I64, false),
{
    parse_trunc_sat(ctxt, o, NumType::F64, NumType::I64, false)
}

} // verus!
