//! The opcode table: which instruction an opcode byte (or a `0xFC`-prefixed sub-opcode) stands
//! for, and the dispatch to its parser.
use crate::context::{Context, m_pop_typed};
use crate::control_instr::{block, block_post, br, br_if, br_if_post, br_post, br_table, br_table_post, call, call_indirect, call_indirect_post, call_post, else_, else_post, end, end_post, if_else, if_else_post, loop_block, loop_block_post, nop, nop_post, return_, return_post, unreachable_, unreachable_post};
use crate::decode::{advanced, leb_err, read_u32_imm, u32_dec};
use crate::error::ParserError;
use crate::instructions::{ParseResult, appended, convert_post, data_drop, data_drop_post, drop_value, drop_value_post, enc_same, extend_post, extend_type_post, f32_const_f32, f32_const_f32_post, f32_demote_f64, f32_demote_f64_post, f64_const_f64, f64_const_f64_post, f64_promote_f32, f64_promote_f32_post, f_unary, fbinary_post, frelational_post, i32_const_i32, i32_const_i32_post, i32_wrap_i64, i32_wrap_i64_post, i64_const_i64, i64_const_i64_post, i_test_zero, i_unary, ibinary_post, irelational_post, load_post, memory_copy, memory_copy_post, memory_fill, memory_fill_post, memory_grow, memory_grow_post, memory_init, memory_init_post, memory_size, memory_size_post, ref_func, ref_func_post, ref_is_null, ref_is_null_post, ref_null, ref_null_post, reinterpret_post, select, select_post, simple_ok, store_post, trunc_post, trunc_sat_post, unop_effect};
use crate::ir::{
    FBinaryOp, FRelationalOp, FUnaryOp, IBinaryOp, IRelationalOp, IUnaryOp, Instruction,
    InstructionEncoder, LoadOp, StoreOp,
};
use crate::ops::{f32_add, f32_convert_i32_s, f32_convert_i32_u, f32_convert_i64_s, f32_convert_i64_u, f32_copysign, f32_div, f32_eq, f32_ge, f32_gt, f32_le, f32_load, f32_lt, f32_max, f32_min, f32_mul, f32_ne, f32_reinterpret_i32, f32_store, f32_sub, f64_add, f64_convert_i32_s, f64_convert_i32_u, f64_convert_i64_s, f64_convert_i64_u, f64_copysign, f64_div, f64_eq, f64_ge, f64_gt, f64_le, f64_load, f64_lt, f64_max, f64_min, f64_mul, f64_ne, f64_reinterpret_i64, f64_store, f64_sub, i32_add, i32_and, i32_div_s, i32_div_u, i32_eq, i32_extend16_s, i32_extend8_s, i32_ge_s, i32_ge_u, i32_gt_s, i32_gt_u, i32_le_s, i32_le_u, i32_load, i32_load16_s, i32_load16_u, i32_load8_s, i32_load8_u, i32_lt_s, i32_lt_u, i32_mul, i32_ne, i32_or, i32_reinterpret_f32, i32_rem_s, i32_rem_u, i32_rotl, i32_rotr, i32_shl, i32_shr_s, i32_shr_u, i32_store, i32_store16, i32_store8, i32_sub, i32_trunc_f32_s, i32_trunc_f32_u, i32_trunc_f64_s, i32_trunc_f64_u, i32_trunc_sat_f32_s, i32_trunc_sat_f32_u, i32_trunc_sat_f64_s, i32_trunc_sat_f64_u, i32_xor, i64_add, i64_and, i64_div_s, i64_div_u, i64_eq, i64_extend16_s, i64_extend32_s, i64_extend8_s, i64_extend_i32_s, i64_extend_i32_u, i64_ge_s, i64_ge_u, i64_gt_s, i64_gt_u, i64_le_s, i64_le_u, i64_load, i64_load16_s, i64_load16_u, i64_load32_s, i64_load32_u, i64_load8_s, i64_load8_u, i64_lt_s, i64_lt_u, i64_mul, i64_ne, i64_or, i64_reinterpret_f64, i64_rem_s, i64_rem_u, i64_rotl, i64_rotr, i64_shl, i64_shr_s, i64_shr_u, i64_store, i64_store16, i64_store32, i64_store8, i64_sub, i64_trunc_f32_s, i64_trunc_f32_u, i64_trunc_f64_s, i64_trunc_f64_u, i64_trunc_sat_f32_s, i64_trunc_sat_f32_u, i64_trunc_sat_f64_s, i64_trunc_sat_f64_u, i64_xor};
use crate::reader::{LEB_OK, WasmBinaryReader};
use crate::table_instr::{elem_drop, elem_drop_post, table_copy, table_copy_post, table_fill, table_fill_post, table_get, table_get_post, table_grow, table_grow_post, table_init, table_init_post, table_set, table_set_post, table_size, table_size_post};
use crate::types::{NumType, ValType};
use crate::variable_instr::{global_get, global_get_post, global_set, global_set_post, local_get, local_get_post, local_set, local_set_post, local_tee, local_tee_post};
use vstd::prelude::*;

verus! {

/// An instruction, with the parameters that its parser takes.
#[derive(Debug, Clone, Copy, PartialEq, Eq, Structural)]
pub enum Op {
    IBinary(IBinaryOp, NumType),
    FBinary(FBinaryOp, NumType),
    IRel(IRelationalOp, NumType),
    FRel(FRelationalOp, NumType),
    IUnary(IUnaryOp, NumType),
    FUnary(FUnaryOp, NumType),
    TestZero(NumType),
    /// Input type, output type, signedness.
    Convert(NumType, NumType, bool),
    Reinterpret(NumType, NumType),
    /// Width of the extended value in bits, type.
    Extend(u8, NumType),
    ExtendType(bool),
    Trunc(NumType, NumType, bool),
    TruncSat(NumType, NumType, bool),
    Load(NumType, LoadOp),
    Store(NumType, StoreOp),
    MemorySize,
    MemoryGrow,
    MemoryCopy,
    MemoryFill,
    MemoryInit,
    DataDrop,
    I32Const,
    I64Const,
    F32Const,
    F64Const,
    Wrap,
    Demote,
    Promote,
    Drop,
    Select,
    RefIsNull,
    RefNull,
    RefFunc,
    TableSet,
    TableGet,
    TableGrow,
    TableSize,
    TableFill,
    TableCopy,
    TableInit,
    ElemDrop,
    LocalGet,
    GlobalGet,
    LocalSet,
    GlobalSet,
    LocalTee,
    Block,
    Loop,
    If,
    Br,
    BrIf,
    BrTable,
    Call,
    CallIndirect,
    Nop,
    Else,
    End,
    Return,
    Unreachable,
}

/// The instruction of a one-byte opcode (`0xFC` is a prefix, see `fc_op`).
pub open spec fn op_of_byte(b: u8) -> Option<Op> {
    match b {
        0 => Some(Op::Unreachable),
        1 => Some(Op::Nop),
        2 => Some(Op::Block),
        3 => Some(Op::Loop),
        4 => Some(Op::If),
        5 => Some(Op::Else),
        0x0B => Some(Op::End),
        0x0C => Some(Op::Br),
        0x0D => Some(Op::BrIf),
        0x0E => Some(Op::BrTable),
        0x0F => Some(Op::Return),
        0x10 => Some(Op::Call),
        0x11 => Some(Op::CallIndirect),
        0x1A => Some(Op::Drop),
        0x1B => Some(Op::Select),
        0x20 => Some(Op::LocalGet),
        0x21 => Some(Op::LocalSet),
        0x22 => Some(Op::LocalTee),
        0x23 => Some(Op::GlobalGet),
        0x24 => Some(Op::GlobalSet),
        0x25 => Some(Op::TableGet),
        0x26 => Some(Op::TableSet),
        0x28 => Some(Op::Load(NumType::I32, LoadOp::INNLoad)),
        0x29 => Some(Op::Load(NumType::I64, LoadOp::INNLoad)),
        0x2A => Some(Op::Load(NumType::F32, LoadOp::FNNLoad)),
        0x2B => Some(Op::Load(NumType::F64, LoadOp::FNNLoad)),
        0x2C => Some(Op::Load(NumType::I32, LoadOp::INNLoad8S)),
        0x2D => Some(Op::Load(NumType::I32, LoadOp::INNLoad8U)),
        0x2E => Some(Op::Load(NumType::I32, LoadOp::INNLoad16S)),
        0x2F => Some(Op::Load(NumType::I32, LoadOp::INNLoad16U)),
        0x30 => Some(Op::Load(NumType::I64, LoadOp::INNLoad8S)),
        0x31 => Some(Op::Load(NumType::I64, LoadOp::INNLoad8U)),
        0x32 => Some(Op::Load(NumType::I64, LoadOp::INNLoad16S)),
        0x33 => Some(Op::Load(NumType::I64, LoadOp::INNLoad16U)),
        0x34 => Some(Op::Load(NumType::I64, LoadOp::INNLoad32S)),
        0x35 => Some(Op::Load(NumType::I64, LoadOp::INNLoad32U)),
        0x36 => Some(Op::Store(NumType::I32, StoreOp::INNStore)),
        0x37 => Some(Op::Store(NumType::I64, StoreOp::INNStore)),
        0x38 => Some(Op::Store(NumType::F32, StoreOp::FNNStore)),
        0x39 => Some(Op::Store(NumType::F64, StoreOp::FNNStore)),
        0x3A => Some(Op::Store(NumType::I32, StoreOp::INNStore8)),
        0x3B => Some(Op::Store(NumType::I32, StoreOp::INNStore16)),
        0x3C => Some(Op::Store(NumType::I64, StoreOp::INNStore8)),
        0x3D => Some(Op::Store(NumType::I64, StoreOp::INNStore16)),
        0x3E => Some(Op::Store(NumType::I64, StoreOp::INNStore32)),
        0x3F => Some(Op::MemorySize),
        0x40 => Some(Op::MemoryGrow),
        0x41 => Some(Op::I32Const),
        0x42 => Some(Op::I64Const),
        0x43 => Some(Op::F32Const),
        0x44 => Some(Op::F64Const),
        0x45 => Some(Op::TestZero(NumType::I32)),
        0x46 => Some(Op::IRel(IRelationalOp::Eq, NumType::I32)),
        0x47 => Some(Op::IRel(IRelationalOp::Ne, NumType::I32)),
        0x48 => Some(Op::IRel(IRelationalOp::LtS, NumType::I32)),
        0x49 => Some(Op::IRel(IRelationalOp::LtU, NumType::I32)),
        0x4A => Some(Op::IRel(IRelationalOp::GtS, NumType::I32)),
        0x4B => Some(Op::IRel(IRelationalOp::GtU, NumType::I32)),
        0x4C => Some(Op::IRel(IRelationalOp::LeS, NumType::I32)),
        0x4D => Some(Op::IRel(IRelationalOp::LeU, NumType::I32)),
        0x4E => Some(Op::IRel(IRelationalOp::GeS, NumType::I32)),
        0x4F => Some(Op::IRel(IRelationalOp::GeU, NumType::I32)),
        0x50 => Some(Op::TestZero(NumType::I64)),
        0x51 => Some(Op::IRel(IRelationalOp::Eq, NumType::I64)),
        0x52 => Some(Op::IRel(IRelationalOp::Ne, NumType::I64)),
        0x53 => Some(Op::IRel(IRelationalOp::LtS, NumType::I64)),
        0x54 => Some(Op::IRel(IRelationalOp::LtU, NumType::I64)),
        0x55 => Some(Op::IRel(IRelationalOp::GtS, NumType::I64)),
        0x56 => Some(Op::IRel(IRelationalOp::GtU, NumType::I64)),
        0x57 => Some(Op::IRel(IRelationalOp::LeS, NumType::I64)),
        0x58 => Some(Op::IRel(IRelationalOp::LeU, NumType::I64)),
        0x59 => Some(Op::IRel(IRelationalOp::GeS, NumType::I64)),
        0x5A => Some(Op::IRel(IRelationalOp::GeU, NumType::I64)),
        0x5B => Some(Op::FRel(FRelationalOp::Eq, NumType::F32)),
        0x5C => Some(Op::FRel(FRelationalOp::Ne, NumType::F32)),
        0x5D => Some(Op::FRel(FRelationalOp::Lt, NumType::F32)),
        0x5E => Some(Op::FRel(FRelationalOp::Gt, NumType::F32)),
        0x5F => Some(Op::FRel(FRelationalOp::Le, NumType::F32)),
        0x60 => Some(Op::FRel(FRelationalOp::Ge, NumType::F32)),
        0x61 => Some(Op::FRel(FRelationalOp::Eq, NumType::F64)),
        0x62 => Some(Op::FRel(FRelationalOp::Ne, NumType::F64)),
        0x63 => Some(Op::FRel(FRelationalOp::Lt, NumType::F64)),
        0x64 => Some(Op::FRel(FRelationalOp::Gt, NumType::F64)),
        0x65 => Some(Op::FRel(FRelationalOp::Le, NumType::F64)),
        0x66 => Some(Op::FRel(FRelationalOp::Ge, NumType::F64)),
        0x67 => Some(Op::IUnary(IUnaryOp::Clz, NumType::I32)),
        0x68 => Some(Op::IUnary(IUnaryOp::Ctz, NumType::I32)),
        0x69 => Some(Op::IUnary(IUnaryOp::Popcnt, NumType::I32)),
        0x6A => Some(Op::IBinary(IBinaryOp::Add, NumType::I32)),
        0x6B => Some(Op::IBinary(IBinaryOp::Sub, NumType::I32)),
        0x6C => Some(Op::IBinary(IBinaryOp::Mul, NumType::I32)),
        0x6D => Some(Op::IBinary(IBinaryOp::DivS, NumType::I32)),
        0x6E => Some(Op::IBinary(IBinaryOp::DivU, NumType::I32)),
        0x6F => Some(Op::IBinary(IBinaryOp::RemS, NumType::I32)),
        0x70 => Some(Op::IBinary(IBinaryOp::RemU, NumType::I32)),
        0x71 => Some(Op::IBinary(IBinaryOp::And, NumType::I32)),
        0x72 => Some(Op::IBinary(IBinaryOp::Or, NumType::I32)),
        0x73 => Some(Op::IBinary(IBinaryOp::Xor, NumType::I32)),
        0x74 => Some(Op::IBinary(IBinaryOp::Shl, NumType::I32)),
        0x75 => Some(Op::IBinary(IBinaryOp::ShrS, NumType::I32)),
        0x76 => Some(Op::IBinary(IBinaryOp::ShrU, NumType::I32)),
        0x77 => Some(Op::IBinary(IBinaryOp::Rotl, NumType::I32)),
        0x78 => Some(Op::IBinary(IBinaryOp::Rotr, NumType::I32)),
        0x79 => Some(Op::IUnary(IUnaryOp::Clz, NumType::I64)),
        0x7A => Some(Op::IUnary(IUnaryOp::Ctz, NumType::I64)),
        0x7B => Some(Op::IUnary(IUnaryOp::Popcnt, NumType::I64)),
        0x7C => Some(Op::IBinary(IBinaryOp::Add, NumType::I64)),
        0x7D => Some(Op::IBinary(IBinaryOp::Sub, NumType::I64)),
        0x7E => Some(Op::IBinary(IBinaryOp::Mul, NumType::I64)),
        0x7F => Some(Op::IBinary(IBinaryOp::DivS, NumType::I64)),
        0x80 => Some(Op::IBinary(IBinaryOp::DivU, NumType::I64)),
        0x81 => Some(Op::IBinary(IBinaryOp::RemS, NumType::I64)),
        0x82 => Some(Op::IBinary(IBinaryOp::RemU, NumType::I64)),
        0x83 => Some(Op::IBinary(IBinaryOp::And, NumType::I64)),
        0x84 => Some(Op::IBinary(IBinaryOp::Or, NumType::I64)),
        0x85 => Some(Op::IBinary(IBinaryOp::Xor, NumType::I64)),
        0x86 => Some(Op::IBinary(IBinaryOp::Shl, NumType::I64)),
        0x87 => Some(Op::IBinary(IBinaryOp::ShrS, NumType::I64)),
        0x88 => Some(Op::IBinary(IBinaryOp::ShrU, NumType::I64)),
        0x89 => Some(Op::IBinary(IBinaryOp::Rotl, NumType::I64)),
        0x8A => Some(Op::IBinary(IBinaryOp::Rotr, NumType::I64)),
        0x8B => Some(Op::FUnary(FUnaryOp::Abs, NumType::F32)),
        0x8C => Some(Op::FUnary(FUnaryOp::Neg, NumType::F32)),
        0x8D => Some(Op::FUnary(FUnaryOp::Ceil, NumType::F32)),
        0x8E => Some(Op::FUnary(FUnaryOp::Floor, NumType::F32)),
        0x8F => Some(Op::FUnary(FUnaryOp::Trunc, NumType::F32)),
        0x90 => Some(Op::FUnary(FUnaryOp::Nearest, NumType::F32)),
        0x91 => Some(Op::FUnary(FUnaryOp::Sqrt, NumType::F32)),
        0x92 => Some(Op::FBinary(FBinaryOp::Add, NumType::F32)),
        0x93 => Some(Op::FBinary(FBinaryOp::Sub, NumType::F32)),
        0x94 => Some(Op::FBinary(FBinaryOp::Mul, NumType::F32)),
        0x95 => Some(Op::FBinary(FBinaryOp::Div, NumType::F32)),
        0x96 => Some(Op::FBinary(FBinaryOp::Min, NumType::F32)),
        0x97 => Some(Op::FBinary(FBinaryOp::Max, NumType::F32)),
        0x98 => Some(Op::FBinary(FBinaryOp::Copysign, NumType::F32)),
        0x99 => Some(Op::FUnary(FUnaryOp::Abs, NumType::F64)),
        0x9A => Some(Op::FUnary(FUnaryOp::Neg, NumType::F64)),
        0x9B => Some(Op::FUnary(FUnaryOp::Ceil, NumType::F64)),
        0x9C => Some(Op::FUnary(FUnaryOp::Floor, NumType::F64)),
        0x9D => Some(Op::FUnary(FUnaryOp::Trunc, NumType::F64)),
        0x9E => Some(Op::FUnary(FUnaryOp::Nearest, NumType::F64)),
        0x9F => Some(Op::FUnary(FUnaryOp::Sqrt, NumType::F64)),
        0xA0 => Some(Op::FBinary(FBinaryOp::Add, NumType::F64)),
        0xA1 => Some(Op::FBinary(FBinaryOp::Sub, NumType::F64)),
        0xA2 => Some(Op::FBinary(FBinaryOp::Mul, NumType::F64)),
        0xA3 => Some(Op::FBinary(FBinaryOp::Div, NumType::F64)),
        0xA4 => Some(Op::FBinary(FBinaryOp::Min, NumType::F64)),
        0xA5 => Some(Op::FBinary(FBinaryOp::Max, NumType::F64)),
        0xA6 => Some(Op::FBinary(FBinaryOp::Copysign, NumType::F64)),
        0xA7 => Some(Op::Wrap),
        0xA8 => Some(Op::Trunc(NumType::F32, NumType::I32, true)),
        0xA9 => Some(Op::Trunc(NumType::F32, NumType::I32, false)),
        0xAA => Some(Op::Trunc(NumType::F64, NumType::I32, true)),
        0xAB => Some(Op::Trunc(NumType::F64, NumType::I32, false)),
        0xAC => Some(Op::ExtendType(true)),
        0xAD => Some(Op::ExtendType(false)),
        0xAE => Some(Op::Trunc(NumType::F32, NumType::I64, true)),
        0xAF => Some(Op::Trunc(NumType::F32, NumType::I64, false)),
        0xB0 => Some(Op::Trunc(NumType::F64, NumType::I64, true)),
        0xB1 => Some(Op::Trunc(NumType::F64, NumType::I64, false)),
        0xB2 => Some(Op::Convert(NumType::I32, NumType::F32, true)),
        0xB3 => Some(Op::Convert(NumType::I32, NumType::F32, false)),
        0xB4 => Some(Op::Convert(NumType::I64, NumType::F32, true)),
        0xB5 => Some(Op::Convert(NumType::I64, NumType::F32, false)),
        0xB6 => Some(Op::Demote),
        0xB7 => Some(Op::Convert(NumType::I32, NumType::F64, true)),
        0xB8 => Some(Op::Convert(NumType::I32, NumType::F64, false)),
        0xB9 => Some(Op::Convert(NumType::I64, NumType::F64, true)),
        0xBA => Some(Op::Convert(NumType::I64, NumType::F64, false)),
        0xBB => Some(Op::Promote),
        0xBC => Some(Op::Reinterpret(NumType::F32, NumType::I32)),
        0xBD => Some(Op::Reinterpret(NumType::F64, NumType::I64)),
        0xBE => Some(Op::Reinterpret(NumType::I32, NumType::F32)),
        0xBF => Some(Op::Reinterpret(NumType::I64, NumType::F64)),
        0xC0 => Some(Op::Extend(8, NumType::I32)),
        0xC1 => Some(Op::Extend(16, NumType::I32)),
        0xC2 => Some(Op::Extend(8, NumType::I64)),
        0xC3 => Some(Op::Extend(16, NumType::I64)),
        0xC4 => Some(Op::Extend(32, NumType::I64)),
        0xD0 => Some(Op::RefNull),
        0xD1 => Some(Op::RefIsNull),
        0xD2 => Some(Op::RefFunc),
        _ => None,
    }
}

/// The instruction of a sub-opcode after the `0xFC` prefix.
pub open spec fn fc_op(sub: u32) -> Option<Op> {
    match sub {
        0 => Some(Op::TruncSat(NumType::F32, NumType::I32, true)),
        1 => Some(Op::TruncSat(NumType::F32, NumType::I32, false)),
        2 => Some(Op::TruncSat(NumType::F64, NumType::I32, true)),
        3 => Some(Op::TruncSat(NumType::F64, NumType::I32, false)),
        4 => Some(Op::TruncSat(NumType::F32, NumType::I64, true)),
        5 => Some(Op::TruncSat(NumType::F32, NumType::I64, false)),
        6 => Some(Op::TruncSat(NumType::F64, NumType::I64, true)),
        7 => Some(Op::TruncSat(NumType::F64, NumType::I64, false)),
        8 => Some(Op::MemoryInit),
        9 => Some(Op::DataDrop),
        0x0A => Some(Op::MemoryCopy),
        0x0B => Some(Op::MemoryFill),
        0x0C => Some(Op::TableInit),
        0x0D => Some(Op::ElemDrop),
        0x0E => Some(Op::TableCopy),
        0x0F => Some(Op::TableGrow),
        0x10 => Some(Op::TableSize),
        0x11 => Some(Op::TableFill),
        _ => None,
    }
}

/// What parsing an instruction `op` does to the reader, context and encoder, and returns.
pub open spec fn op_post(
    op: Op,
    i0: WasmBinaryReader,
    i1: WasmBinaryReader,
    x0: &Context,
    x1: &Context,
    o0: InstructionEncoder,
    o1: InstructionEncoder,
    r: ParseResult,
) -> bool {
    let c0 = x0.model();
    let c1 = x1.model();
    match op {
        Op::IBinary(bop, t) => simple_ok(i0, i1, r) && ibinary_post(c0, c1, o0, o1, bop, t),
        Op::FBinary(bop, t) => simple_ok(i0, i1, r) && fbinary_post(c0, c1, o0, o1, bop, t),
        Op::IRel(rop, t) => simple_ok(i0, i1, r) && irelational_post(c0, c1, o0, o1, rop, t),
        Op::FRel(rop, t) => simple_ok(i0, i1, r) && frelational_post(c0, c1, o0, o1, rop, t),
        Op::IUnary(uop, t) => simple_ok(i0, i1, r) && {
            let (m, in1, out) = unop_effect(c0, ValType::Number(t), ValType::Number(t));
            &&& c1 == m
            &&& appended(o0, o1, Instruction::IUnary { types: t, op: uop, in1: in1.id, out1: out.id })
        },
        Op::FUnary(uop, t) => simple_ok(i0, i1, r) && {
            let (m, in1, out) = unop_effect(c0, ValType::Number(t), ValType::Number(t));
            &&& c1 == m
            &&& appended(o0, o1, Instruction::FUnary { types: t, op: uop, in1: in1.id, out1: out.id })
        },
        Op::TestZero(t) => simple_ok(i0, i1, r) && {
            let (m, in1, out) = unop_effect(c0, ValType::Number(t), ValType::Number(NumType::I32));
            &&& c1 == m
            &&& appended(o0, o1, Instruction::ITestZero { input_type: t, in1: in1.id, out1: out.id })
        },
        Op::Convert(a, b, s) => simple_ok(i0, i1, r) && convert_post(c0, c1, o0, o1, a, b, s),
        Op::Reinterpret(a, b) => simple_ok(i0, i1, r) && reinterpret_post(c0, c1, o0, o1, a, b),
        Op::Extend(size, t) => simple_ok(i0, i1, r) && extend_post(c0, c1, o0, o1, size, t),
        Op::ExtendType(s) => simple_ok(i0, i1, r) && extend_type_post(c0, c1, o0, o1, s),
        Op::Trunc(a, b, s) => simple_ok(i0, i1, r) && trunc_post(c0, c1, o0, o1, a, b, s),
        Op::TruncSat(a, b, s) => simple_ok(i0, i1, r) && trunc_sat_post(c0, c1, o0, o1, a, b, s),
        Op::Load(t, lop) => load_post(i0, i1, c0, c1, o0, o1, t, lop, r),
        Op::Store(t, sop) => store_post(i0, i1, c0, c1, o0, o1, t, sop, r),
        Op::MemorySize => memory_size_post(i0, i1, x0, x1, o0, o1, r),
        Op::MemoryGrow => memory_grow_post(i0, i1, x0, x1, o0, o1, r),
        Op::MemoryCopy => memory_copy_post(i0, i1, x0, x1, o0, o1, r),
        Op::MemoryFill => memory_fill_post(i0, i1, x0, x1, o0, o1, r),
        Op::MemoryInit => memory_init_post(i0, i1, x0, x1, o0, o1, r),
        Op::DataDrop => data_drop_post(i0, i1, x0, x1, o0, o1, r),
        Op::I32Const => i32_const_i32_post(i0, i1, x0, x1, o0, o1, r),
        Op::I64Const => i64_const_i64_post(i0, i1, x0, x1, o0, o1, r),
        Op::F32Const => f32_const_f32_post(i0, i1, x0, x1, o0, o1, r),
        Op::F64Const => f64_const_f64_post(i0, i1, x0, x1, o0, o1, r),
        Op::Wrap => i32_wrap_i64_post(i0, i1, x0, x1, o0, o1, r),
        Op::Demote => f32_demote_f64_post(i0, i1, x0, x1, o0, o1, r),
        Op::Promote => f64_promote_f32_post(i0, i1, x0, x1, o0, o1, r),
        Op::Drop => drop_value_post(i0, i1, x0, x1, o0, o1, r),
        Op::Select => select_post(i0, i1, x0, x1, o0, o1, r),
        Op::RefIsNull => ref_is_null_post(i0, i1, x0, x1, o0, o1, r),
        Op::RefNull => ref_null_post(i0, i1, x0, x1, o0, o1, r),
        Op::RefFunc => ref_func_post(i0, i1, x0, x1, o0, o1, r),
        Op::TableSet => table_set_post(i0, i1, x0, x1, o0, o1, r),
        Op::TableGet => table_get_post(i0, i1, x0, x1, o0, o1, r),
        Op::TableGrow => table_grow_post(i0, i1, x0, x1, o0, o1, r),
        Op::TableSize => table_size_post(i0, i1, x0, x1, o0, o1, r),
        Op::TableFill => table_fill_post(i0, i1, x0, x1, o0, o1, r),
        Op::TableCopy => table_copy_post(i0, i1, x0, x1, o0, o1, r),
        Op::TableInit => table_init_post(i0, i1, x0, x1, o0, o1, r),
        Op::ElemDrop => elem_drop_post(i0, i1, x0, x1, o0, o1, r),
        Op::LocalGet => local_get_post(i0, i1, x0, x1, o0, o1, r),
        Op::GlobalGet => global_get_post(i0, i1, x0, x1, o0, o1, r),
        Op::LocalSet => local_set_post(i0, i1, x0, x1, o0, o1, r),
        Op::GlobalSet => global_set_post(i0, i1, x0, x1, o0, o1, r),
        Op::LocalTee => local_tee_post(i0, i1, x0, x1, o0, o1, r),
        Op::Block => block_post(i0, i1, x0, x1, o0, o1, r),
        Op::Loop => loop_block_post(i0, i1, x0, x1, o0, o1, r),
        Op::If => if_else_post(i0, i1, x0, x1, o0, o1, r),
        Op::Br => br_post(i0, i1, x0, x1, o0, o1, r),
        Op::BrIf => br_if_post(i0, i1, x0, x1, o0, o1, r),
        Op::BrTable => br_table_post(i0, i1, x0, x1, o0, o1, r),
        Op::Call => call_post(i0, i1, x0, x1, o0, o1, r),
        Op::CallIndirect => call_indirect_post(i0, i1, x0, x1, o0, o1, r),
        Op::Nop => nop_post(i0, i1, x0, x1, o0, o1, r),
        Op::Else => else_post(i0, i1, x0, x1, o0, o1, r),
        Op::End => end_post(i0, i1, x0, x1, o0, o1, r),
        Op::Return => return_post(i0, i1, x0, x1, o0, o1, r),
        Op::Unreachable => unreachable_post(i0, i1, x0, x1, o0, o1, r),
    }
}

/// An unknown opcode: an error, and nothing else happens.
pub open spec fn invalid_post(
    i0: WasmBinaryReader,
    i1: WasmBinaryReader,
    x0: &Context,
    x1: &Context,
    o0: InstructionEncoder,
    o1: InstructionEncoder,
    r: ParseResult,
    n: nat,
) -> bool {
    &&& r == Err::<(), ParserError>(ParserError::InvalidOpcode)
    &&& advanced(i0, i1, n)
    &&& x1.model() == x0.model()
    &&& enc_same(o0, o1)
}

/// Whether two starting points of an instruction agree on what its effect depends on: the
/// bytes and the position read from, the context's model, module and locals, and the encoder.
pub open spec fn same_start(
    i0: WasmBinaryReader,
    x0: &Context,
    o0: InstructionEncoder,
    j0: WasmBinaryReader,
    y0: &Context,
    p0: InstructionEncoder,
) -> bool {
    &&& i0.source() == j0.source()
    &&& i0.position() == j0.position()
    &&& x0.model() == y0.model()
    &&& x0.module == y0.module
    &&& x0.locals@ == y0.locals@
    &&& o0.instructions() == p0.instructions()
    &&& o0.terminator_spec() == p0.terminator_spec()
}

/// Whether two outcomes of an instruction agree: position, model, instructions, and whether the
/// block was ended.
pub open spec fn same_end(
    i1: WasmBinaryReader,
    x1: &Context,
    o1: InstructionEncoder,
    j1: WasmBinaryReader,
    y1: &Context,
    p1: InstructionEncoder,
) -> bool {
    &&& i1.position() == j1.position()
    &&& x1.model() == y1.model()
    &&& o1.instructions() == p1.instructions()
    &&& (o1.terminator_spec() is None <==> p1.terminator_spec() is None)
}

/// An instruction that succeeds from the same start, without ending the block, has the same
/// outcome.
pub proof fn lemma_op_det(
    op: Op,
    i0: WasmBinaryReader,
    i1: WasmBinaryReader,
    x0: &Context,
    x1: &Context,
    o0: InstructionEncoder,
    o1: InstructionEncoder,
    r: ParseResult,
    j0: WasmBinaryReader,
    j1: WasmBinaryReader,
    y0: &Context,
    y1: &Context,
    p0: InstructionEncoder,
    p1: InstructionEncoder,
    q: ParseResult,
)
    requires
        op_post(op, i0, i1, x0, x1, o0, o1, r),
        op_post(op, j0, j1, y0, y1, p0, p1, q),
        r is Ok,
        o1.terminator_spec() is None,
        same_start(i0, x0, o0, j0, y0, p0),
    ensures
        q is Ok,
        same_end(i1, x1, o1, j1, y1, p1),
{
    assert(i0.remaining() == j0.remaining());
    match op {
        Op::IBinary(..) => {},
        Op::IRel(..) => {},
        Op::FBinary(..) => {},
        Op::FRel(..) => {},
        Op::IUnary(..) => {},
        Op::FUnary(..) => {},
        Op::TestZero(..) => {},
        Op::Convert(..) => {},
        Op::Reinterpret(..) => {},
        Op::Extend(..) => {},
        Op::ExtendType(..) => {},
        Op::Trunc(..) => {},
        Op::TruncSat(..) => {},
        Op::Load(..) => {},
        Op::Store(..) => {},
        Op::MemorySize => {},
        Op::MemoryGrow => {},
        Op::MemoryCopy => {},
        Op::MemoryFill => {},
        Op::MemoryInit => {},
        Op::DataDrop => {},
        Op::I32Const => {},
        Op::I64Const => {},
        Op::F32Const => {},
        Op::F64Const => {},
        Op::Wrap => {},
        Op::Demote => {},
        Op::Promote => {},
        Op::Drop => {},
        Op::Select => {},
        Op::RefIsNull => {},
        Op::RefNull => {},
        Op::RefFunc => {},
        Op::TableSet => {},
        Op::TableGet => {},
        Op::TableGrow => {},
        Op::TableSize => {},
        Op::TableFill => {},
        Op::TableCopy => {},
        Op::TableInit => {},
        Op::ElemDrop => {},
        Op::LocalGet => {},
        Op::GlobalGet => {},
        Op::LocalSet => {},
        Op::GlobalSet => {},
        Op::LocalTee => {},
        Op::Block => {},
        Op::Loop => {},
        Op::If => {},
        Op::Br => {},
        Op::BrIf => {},
        Op::BrTable => {},
        Op::Call => {},
        Op::CallIndirect => {},
        Op::Nop => {},
        Op::Else => {},
        Op::End => {},
        Op::Return => {},
        Op::Unreachable => {},
    }
}

/// What parsing the instruction with opcode byte `b` (read already) does.
pub open spec fn instr_post(
    b: u8,
    i0: WasmBinaryReader,
    i1: WasmBinaryReader,
    x0: &Context,
    x1: &Context,
    o0: InstructionEncoder,
    o1: InstructionEncoder,
    r: ParseResult,
) -> bool {
    if b == 0xFC {
        let d = u32_dec(i0.remaining());
        &&& d.0 != LEB_OK() ==> r == Err::<(), ParserError>(leb_err(d.0)) && advanced(i0, i1, d.2)
            && x1.model() == x0.model() && enc_same(o0, o1)
        &&& d.0 == LEB_OK() && fc_op(d.1) is None ==> invalid_post(i0, i1, x0, x1, o0, o1, r, d.2)
        &&& d.0 == LEB_OK() && fc_op(d.1) is Some ==> exists|im: WasmBinaryReader|
            #![trigger advanced(i0, im, d.2)]
            advanced(i0, im, d.2) && op_post(fc_op(d.1)->0, im, i1, x0, x1, o0, o1, r)
    } else {
        match op_of_byte(b) {
            Some(op) => op_post(op, i0, i1, x0, x1, o0, o1, r),
            None => invalid_post(i0, i1, x0, x1, o0, o1, r, 0),
        }
    }
}

/// An instruction, given by its opcode byte, that succeeds from the same start without ending
/// the block has the same outcome.
pub proof fn lemma_instr_det(
    b: u8,
    i0: WasmBinaryReader,
    i1: WasmBinaryReader,
    x0: &Context,
    x1: &Context,
    o0: InstructionEncoder,
    o1: InstructionEncoder,
    r: ParseResult,
    j0: WasmBinaryReader,
    j1: WasmBinaryReader,
    y0: &Context,
    y1: &Context,
    p0: InstructionEncoder,
    p1: InstructionEncoder,
    q: ParseResult,
)
    requires
        instr_post(b, i0, i1, x0, x1, o0, o1, r),
        instr_post(b, j0, j1, y0, y1, p0, p1, q),
        r is Ok,
        o1.terminator_spec() is None,
        same_start(i0, x0, o0, j0, y0, p0),
    ensures
        q is Ok,
        same_end(i1, x1, o1, j1, y1, p1),
{
    assert(i0.remaining() == j0.remaining());
    if b == 0xFC {
        let d = u32_dec(i0.remaining());
        let im = choose|im: WasmBinaryReader| advanced(i0, im, d.2) && op_post(fc_op(d.1)->0, im, i1, x0, x1, o0, o1, r);
        let jm = choose|jm: WasmBinaryReader| advanced(j0, jm, d.2) && op_post(fc_op(d.1)->0, jm, j1, y0, y1, p0, p1, q);
        lemma_op_det(fc_op(d.1)->0, im, i1, x0, x1, o0, o1, r, jm, j1, y0, y1, p0, p1, q);
    } else {
        lemma_op_det(op_of_byte(b)->0, i0, i1, x0, x1, o0, o1, r, j0, j1, y0, y1, p0, p1, q);
    }
}

/// The instructions after the `0xFC` prefix.
#[verifier::rlimit(40)]
#[verifier::spinoff_prover]
fn parse_fc_instruction(ctxt: &mut Context, i: &mut WasmBinaryReader, o: &mut InstructionEncoder) -> (r: ParseResult)
    requires
        old(ctxt).wf(),
    ensures
        old(ctxt).frame(&*final(ctxt)),
        final(i).source() == old(i).source(),
        final(i).position() >= old(i).position(),
        instr_post(0xFC, *old(i), *final(i), &*old(ctxt), &*final(ctxt), *old(o), *final(o), r),
{
    let sub = read_u32_imm(i)?;
    let ghost im = *i;
    let r = match sub {
        0 => i32_trunc_sat_f32_s(ctxt, i, o),
        1 => i32_trunc_sat_f32_u(ctxt, i, o),
        2 => i32_trunc_sat_f64_s(ctxt, i, o),
        3 => i32_trunc_sat_f64_u(ctxt, i, o),
        4 => i64_trunc_sat_f32_s(ctxt, i, o),
        5 => i64_trunc_sat_f32_u(ctxt, i, o),
        6 => i64_trunc_sat_f64_s(ctxt, i, o),
        7 => i64_trunc_sat_f64_u(ctxt, i, o),
        8 => memory_init(ctxt, i, o),
        9 => data_drop(ctxt, i, o),
        0x0A => memory_copy(ctxt, i, o),
        0x0B => memory_fill(ctxt, i, o),
        0x0C => table_init(ctxt, i, o),
        0x0D => elem_drop(ctxt, i, o),
        0x0E => table_copy(ctxt, i, o),
        0x0F => table_grow(ctxt, i, o),
        0x10 => table_size(ctxt, i, o),
        0x11 => table_fill(ctxt, i, o),
        _ => Err(ParserError::InvalidOpcode),
    };
    assert(advanced(*old(i), im, u32_dec(old(i).remaining()).2));
    r
}

/// Parses one of the control instructions.
#[verifier::rlimit(40)]
#[verifier::spinoff_prover]
fn parse_control_instruction(opcode: u8, ctxt: &mut Context, i: &mut WasmBinaryReader, o: &mut InstructionEncoder) -> (r: ParseResult)
    requires
        old(ctxt).wf(),
        0x0 <= opcode <= 0x11,
    ensures
        old(ctxt).frame(&*final(ctxt)),
        final(i).source() == old(i).source(),
        final(i).position() >= old(i).position(),
        instr_post(opcode, *old(i), *final(i), &*old(ctxt), &*final(ctxt), *old(o), *final(o), r),
{
    match opcode {
        0 => unreachable_(ctxt, i, o),
        1 => nop(ctxt, i, o),
        2 => block(ctxt, i, o),
        3 => loop_block(ctxt, i, o),
        4 => if_else(ctxt, i, o),
        5 => else_(ctxt, i, o),
        0x0B => end(ctxt, i, o),
        0x0C => br(ctxt, i, o),
        0x0D => br_if(ctxt, i, o),
        0x0E => br_table(ctxt, i, o),
        0x0F => return_(ctxt, i, o),
        0x10 => call(ctxt, i, o),
        0x11 => call_indirect(ctxt, i, o),
        _ => Err(ParserError::InvalidOpcode),
    }
}

/// Parses one of the parametric, variable, table and memory instructions and constants.
#[verifier::rlimit(40)]
#[verifier::spinoff_prover]
fn parse_variable_memory_instruction(opcode: u8, ctxt: &mut Context, i: &mut WasmBinaryReader, o: &mut InstructionEncoder) -> (r: ParseResult)
    requires
        old(ctxt).wf(),
        0x12 <= opcode <= 0x44,
    ensures
        old(ctxt).frame(&*final(ctxt)),
        final(i).source() == old(i).source(),
        final(i).position() >= old(i).position(),
        instr_post(opcode, *old(i), *final(i), &*old(ctxt), &*final(ctxt), *old(o), *final(o), r),
{
    match opcode {
        0x1A => drop_value(ctxt, i, o),
        0x1B => select(ctxt, i, o),
        0x20 => local_get(ctxt, i, o),
        0x21 => local_set(ctxt, i, o),
        0x22 => local_tee(ctxt, i, o),
        0x23 => global_get(ctxt, i, o),
        0x24 => global_set(ctxt, i, o),
        0x25 => table_get(ctxt, i, o),
        0x26 => table_set(ctxt, i, o),
        0x28 => i32_load(ctxt, i, o),
        0x29 => i64_load(ctxt, i, o),
        0x2A => f32_load(ctxt, i, o),
        0x2B => f64_load(ctxt, i, o),
        0x2C => i32_load8_s(ctxt, i, o),
        0x2D => i32_load8_u(ctxt, i, o),
        0x2E => i32_load16_s(ctxt, i, o),
        0x2F => i32_load16_u(ctxt, i, o),
        0x30 => i64_load8_s(ctxt, i, o),
        0x31 => i64_load8_u(ctxt, i, o),
        0x32 => i64_load16_s(ctxt, i, o),
        0x33 => i64_load16_u(ctxt, i, o),
        0x34 => i64_load32_s(ctxt, i, o),
        0x35 => i64_load32_u(ctxt, i, o),
        0x36 => i32_store(ctxt, i, o),
        0x37 => i64_store(ctxt, i, o),
        0x38 => f32_store(ctxt, i, o),
        0x39 => f64_store(ctxt, i, o),
        0x3A => i32_store8(ctxt, i, o),
        0x3B => i32_store16(ctxt, i, o),
        0x3C => i64_store8(ctxt, i, o),
        0x3D => i64_store16(ctxt, i, o),
        0x3E => i64_store32(ctxt, i, o),
        0x3F => memory_size(ctxt, i, o),
        0x40 => memory_grow(ctxt, i, o),
        0x41 => i32_const_i32(ctxt, i, o),
        0x42 => i64_const_i64(ctxt, i, o),
        0x43 => f32_const_f32(ctxt, i, o),
        0x44 => f64_const_f64(ctxt, i, o),
        _ => Err(ParserError::InvalidOpcode),
    }
}

/// Parses one of the tests, comparisons and integer operations.
#[verifier::rlimit(40)]
#[verifier::spinoff_prover]
fn parse_compare_instruction(opcode: u8, ctxt: &mut Context, i: &mut WasmBinaryReader, o: &mut InstructionEncoder) -> (r: ParseResult)
    requires
        old(ctxt).wf(),
        0x45 <= opcode <= 0x8a,
    ensures
        old(ctxt).frame(&*final(ctxt)),
        final(i).source() == old(i).source(),
        final(i).position() >= old(i).position(),
        instr_post(opcode, *old(i), *final(i), &*old(ctxt), &*final(ctxt), *old(o), *final(o), r),
{
    match opcode {
        0x45 => i_test_zero(ctxt, o, NumType::I32),
        0x46 => i32_eq(ctxt, i, o),
        0x47 => i32_ne(ctxt, i, o),
        0x48 => i32_lt_s(ctxt, i, o),
        0x49 => i32_lt_u(ctxt, i, o),
        0x4A => i32_gt_s(ctxt, i, o),
        0x4B => i32_gt_u(ctxt, i, o),
        0x4C => i32_le_s(ctxt, i, o),
        0x4D => i32_le_u(ctxt, i, o),
        0x4E => i32_ge_s(ctxt, i, o),
        0x4F => i32_ge_u(ctxt, i, o),
        0x50 => i_test_zero(ctxt, o, NumType::I64),
        0x51 => i64_eq(ctxt, i, o),
        0x52 => i64_ne(ctxt, i, o),
        0x53 => i64_lt_s(ctxt, i, o),
        0x54 => i64_lt_u(ctxt, i, o),
        0x55 => i64_gt_s(ctxt, i, o),
        0x56 => i64_gt_u(ctxt, i, o),
        0x57 => i64_le_s(ctxt, i, o),
        0x58 => i64_le_u(ctxt, i, o),
        0x59 => i64_ge_s(ctxt, i, o),
        0x5A => i64_ge_u(ctxt, i, o),
        0x5B => f32_eq(ctxt, i, o),
        0x5C => f32_ne(ctxt, i, o),
        0x5D => f32_lt(ctxt, i, o),
        0x5E => f32_gt(ctxt, i, o),
        0x5F => f32_le(ctxt, i, o),
        0x60 => f32_ge(ctxt, i, o),
        0x61 => f64_eq(ctxt, i, o),
        0x62 => f64_ne(ctxt, i, o),
        0x63 => f64_lt(ctxt, i, o),
        0x64 => f64_gt(ctxt, i, o),
        0x65 => f64_le(ctxt, i, o),
        0x66 => f64_ge(ctxt, i, o),
        0x67 => i_unary(ctxt, o, IUnaryOp::Clz, NumType::I32),
        0x68 => i_unary(ctxt, o, IUnaryOp::Ctz, NumType::I32),
        0x69 => i_unary(ctxt, o, IUnaryOp::Popcnt, NumType::I32),
        0x6A => i32_add(ctxt, i, o),
        0x6B => i32_sub(ctxt, i, o),
        0x6C => i32_mul(ctxt, i, o),
        0x6D => i32_div_s(ctxt, i, o),
        0x6E => i32_div_u(ctxt, i, o),
        0x6F => i32_rem_s(ctxt, i, o),
        0x70 => i32_rem_u(ctxt, i, o),
        0x71 => i32_and(ctxt, i, o),
        0x72 => i32_or(ctxt, i, o),
        0x73 => i32_xor(ctxt, i, o),
        0x74 => i32_shl(ctxt, i, o),
        0x75 => i32_shr_s(ctxt, i, o),
        0x76 => i32_shr_u(ctxt, i, o),
        0x77 => i32_rotl(ctxt, i, o),
        0x78 => i32_rotr(ctxt, i, o),
        0x79 => i_unary(ctxt, o, IUnaryOp::Clz, NumType::I64),
        0x7A => i_unary(ctxt, o, IUnaryOp::Ctz, NumType::I64),
        0x7B => i_unary(ctxt, o, IUnaryOp::Popcnt, NumType::I64),
        0x7C => i64_add(ctxt, i, o),
        0x7D => i64_sub(ctxt, i, o),
        0x7E => i64_mul(ctxt, i, o),
        0x7F => i64_div_s(ctxt, i, o),
        0x80 => i64_div_u(ctxt, i, o),
        0x81 => i64_rem_s(ctxt, i, o),
        0x82 => i64_rem_u(ctxt, i, o),
        0x83 => i64_and(ctxt, i, o),
        0x84 => i64_or(ctxt, i, o),
        0x85 => i64_xor(ctxt, i, o),
        0x86 => i64_shl(ctxt, i, o),
        0x87 => i64_shr_s(ctxt, i, o),
        0x88 => i64_shr_u(ctxt, i, o),
        0x89 => i64_rotl(ctxt, i, o),
        0x8A => i64_rotr(ctxt, i, o),
        _ => Err(ParserError::InvalidOpcode),
    }
}

/// Parses one of the floating-point operations, conversions and references.
#[verifier::rlimit(40)]
#[verifier::spinoff_prover]
fn parse_float_conversion_instruction(opcode: u8, ctxt: &mut Context, i: &mut WasmBinaryReader, o: &mut InstructionEncoder) -> (r: ParseResult)
    requires
        old(ctxt).wf(),
        0x8b <= opcode,
        opcode != 0xFC,
    ensures
        old(ctxt).frame(&*final(ctxt)),
        final(i).source() == old(i).source(),
        final(i).position() >= old(i).position(),
        instr_post(opcode, *old(i), *final(i), &*old(ctxt), &*final(ctxt), *old(o), *final(o), r),
{
    match opcode {
        0x8B => f_unary(ctxt, o, FUnaryOp::Abs, NumType::F32),
        0x8C => f_unary(ctxt, o, FUnaryOp::Neg, NumType::F32),
        0x8D => f_unary(ctxt, o, FUnaryOp::Ceil, NumType::F32),
        0x8E => f_unary(ctxt, o, FUnaryOp::Floor, NumType::F32),
        0x8F => f_unary(ctxt, o, FUnaryOp::Trunc, NumType::F32),
        0x90 => f_unary(ctxt, o, FUnaryOp::Nearest, NumType::F32),
        0x91 => f_unary(ctxt, o, FUnaryOp::Sqrt, NumType::F32),
        0x92 => f32_add(ctxt, i, o),
        0x93 => f32_sub(ctxt, i, o),
        0x94 => f32_mul(ctxt, i, o),
        0x95 => f32_div(ctxt, i, o),
        0x96 => f32_min(ctxt, i, o),
        0x97 => f32_max(ctxt, i, o),
        0x98 => f32_copysign(ctxt, i, o),
        0x99 => f_unary(ctxt, o, FUnaryOp::Abs, NumType::F64),
        0x9A => f_unary(ctxt, o, FUnaryOp::Neg, NumType::F64),
        0x9B => f_unary(ctxt, o, FUnaryOp::Ceil, NumType::F64),
        0x9C => f_unary(ctxt, o, FUnaryOp::Floor, NumType::F64),
        0x9D => f_unary(ctxt, o, FUnaryOp::Trunc, NumType::F64),
        0x9E => f_unary(ctxt, o, FUnaryOp::Nearest, NumType::F64),
        0x9F => f_unary(ctxt, o, FUnaryOp::Sqrt, NumType::F64),
        0xA0 => f64_add(ctxt, i, o),
        0xA1 => f64_sub(ctxt, i, o),
        0xA2 => f64_mul(ctxt, i, o),
        0xA3 => f64_div(ctxt, i, o),
        0xA4 => f64_min(ctxt, i, o),
        0xA5 => f64_max(ctxt, i, o),
        0xA6 => f64_copysign(ctxt, i, o),
        0xA7 => i32_wrap_i64(ctxt, i, o),
        0xA8 => i32_trunc_f32_s(ctxt, i, o),
        0xA9 => i32_trunc_f32_u(ctxt, i, o),
        0xAA => i32_trunc_f64_s(ctxt, i, o),
        0xAB => i32_trunc_f64_u(ctxt, i, o),
        0xAC => i64_extend_i32_s(ctxt, i, o),
        0xAD => i64_extend_i32_u(ctxt, i, o),
        0xAE => i64_trunc_f32_s(ctxt, i, o),
        0xAF => i64_trunc_f32_u(ctxt, i, o),
        0xB0 => i64_trunc_f64_s(ctxt, i, o),
        0xB1 => i64_trunc_f64_u(ctxt, i, o),
        0xB2 => f32_convert_i32_s(ctxt, i, o),
        0xB3 => f32_convert_i32_u(ctxt, i, o),
        0xB4 => f32_convert_i64_s(ctxt, i, o),
        0xB5 => f32_convert_i64_u(ctxt, i, o),
        0xB6 => f32_demote_f64(ctxt, i, o),
        0xB7 => f64_convert_i32_s(ctxt, i, o),
        0xB8 => f64_convert_i32_u(ctxt, i, o),
        0xB9 => f64_convert_i64_s(ctxt, i, o),
        0xBA => f64_convert_i64_u(ctxt, i, o),
        0xBB => f64_promote_f32(ctxt, i, o),
        0xBC => i32_reinterpret_f32(ctxt, i, o),
        0xBD => i64_reinterpret_f64(ctxt, i, o),
        0xBE => f32_reinterpret_i32(ctxt, i, o),
        0xBF => f64_reinterpret_i64(ctxt, i, o),
        0xC0 => i32_extend8_s(ctxt, i, o),
        0xC1 => i32_extend16_s(ctxt, i, o),
        0xC2 => i64_extend8_s(ctxt, i, o),
        0xC3 => i64_extend16_s(ctxt, i, o),
        0xC4 => i64_extend32_s(ctxt, i, o),
        0xD0 => ref_null(ctxt, i, o),
        0xD1 => ref_is_null(ctxt, i, o),
        0xD2 => ref_func(ctxt, i, o),
        _ => Err(ParserError::InvalidOpcode),
    }
}

/// Parses the instruction with opcode byte `opcode`, which was read already.
pub fn parse_instruction(opcode: u8, ctxt: &mut Context, i: &mut WasmBinaryReader, o: &mut InstructionEncoder) -> (r: ParseResult)
    requires
        old(ctxt).wf(),
    ensures
        old(ctxt).frame(&*final(ctxt)),
        final(i).source() == old(i).source(),
        final(i).position() >= old(i).position(),
        instr_post(opcode, *old(i), *final(i), &*old(ctxt), &*final(ctxt), *old(o), *final(o), r),
{
    if opcode <= 0x11 {
        parse_control_instruction(opcode, ctxt, i, o)
    } else if opcode <= 0x44 {
        parse_variable_memory_instruction(opcode, ctxt, i, o)
    } else if opcode <= 0x8A {
        parse_compare_instruction(opcode, ctxt, i, o)
    } else if opcode == 0xFC {
        parse_fc_instruction(ctxt, i, o)
    } else {
        parse_float_conversion_instruction(opcode, ctxt, i, o)
    }
}


/// The opcode byte of an instruction that has a one-byte opcode; 256 for the others.
spec fn byte_code(op: Op) -> int {
    match op {
        Op::Unreachable => 0,
        Op::Nop => 1,
        Op::Block => 2,
        Op::Loop => 3,
        Op::If => 4,
        Op::Else => 5,
        Op::End => 0x0B,
        Op::Br => 0x0C,
        Op::BrIf => 0x0D,
        Op::BrTable => 0x0E,
        Op::Return => 0x0F,
        Op::Call => 0x10,
        Op::CallIndirect => 0x11,
        Op::Drop => 0x1A,
        Op::Select => 0x1B,
        Op::LocalGet => 0x20,
        Op::LocalSet => 0x21,
        Op::LocalTee => 0x22,
        Op::GlobalGet => 0x23,
        Op::GlobalSet => 0x24,
        Op::TableGet => 0x25,
        Op::TableSet => 0x26,
        Op::Load(NumType::I32, LoadOp::INNLoad) => 0x28,
        Op::Load(NumType::I64, LoadOp::INNLoad) => 0x29,
        Op::Load(NumType::F32, LoadOp::FNNLoad) => 0x2A,
        Op::Load(NumType::F64, LoadOp::FNNLoad) => 0x2B,
        Op::Load(NumType::I32, LoadOp::INNLoad8S) => 0x2C,
        Op::Load(NumType::I32, LoadOp::INNLoad8U) => 0x2D,
        Op::Load(NumType::I32, LoadOp::INNLoad16S) => 0x2E,
        Op::Load(NumType::I32, LoadOp::INNLoad16U) => 0x2F,
        Op::Load(NumType::I64, LoadOp::INNLoad8S) => 0x30,
        Op::Load(NumType::I64, LoadOp::INNLoad8U) => 0x31,
        Op::Load(NumType::I64, LoadOp::INNLoad16S) => 0x32,
        Op::Load(NumType::I64, LoadOp::INNLoad16U) => 0x33,
        Op::Load(NumType::I64, LoadOp::INNLoad32S) => 0x34,
        Op::Load(NumType::I64, LoadOp::INNLoad32U) => 0x35,
        Op::Store(NumType::I32, StoreOp::INNStore) => 0x36,
        Op::Store(NumType::I64, StoreOp::INNStore) => 0x37,
        Op::Store(NumType::F32, StoreOp::FNNStore) => 0x38,
        Op::Store(NumType::F64, StoreOp::FNNStore) => 0x39,
        Op::Store(NumType::I32, StoreOp::INNStore8) => 0x3A,
        Op::Store(NumType::I32, StoreOp::INNStore16) => 0x3B,
        Op::Store(NumType::I64, StoreOp::INNStore8) => 0x3C,
        Op::Store(NumType::I64, StoreOp::INNStore16) => 0x3D,
        Op::Store(NumType::I64, StoreOp::INNStore32) => 0x3E,
        Op::MemorySize => 0x3F,
        Op::MemoryGrow => 0x40,
        Op::I32Const => 0x41,
        Op::I64Const => 0x42,
        Op::F32Const => 0x43,
        Op::F64Const => 0x44,
        Op::TestZero(NumType::I32) => 0x45,
        Op::IRel(IRelationalOp::Eq, NumType::I32) => 0x46,
        Op::IRel(IRelationalOp::Ne, NumType::I32) => 0x47,
        Op::IRel(IRelationalOp::LtS, NumType::I32) => 0x48,
        Op::IRel(IRelationalOp::LtU, NumType::I32) => 0x49,
        Op::IRel(IRelationalOp::GtS, NumType::I32) => 0x4A,
        Op::IRel(IRelationalOp::GtU, NumType::I32) => 0x4B,
        Op::IRel(IRelationalOp::LeS, NumType::I32) => 0x4C,
        Op::IRel(IRelationalOp::LeU, NumType::I32) => 0x4D,
        Op::IRel(IRelationalOp::GeS, NumType::I32) => 0x4E,
        Op::IRel(IRelationalOp::GeU, NumType::I32) => 0x4F,
        Op::TestZero(NumType::I64) => 0x50,
        Op::IRel(IRelationalOp::Eq, NumType::I64) => 0x51,
        Op::IRel(IRelationalOp::Ne, NumType::I64) => 0x52,
        Op::IRel(IRelationalOp::LtS, NumType::I64) => 0x53,
        Op::IRel(IRelationalOp::LtU, NumType::I64) => 0x54,
        Op::IRel(IRelationalOp::GtS, NumType::I64) => 0x55,
        Op::IRel(IRelationalOp::GtU, NumType::I64) => 0x56,
        Op::IRel(IRelationalOp::LeS, NumType::I64) => 0x57,
        Op::IRel(IRelationalOp::LeU, NumType::I64) => 0x58,
        Op::IRel(IRelationalOp::GeS, NumType::I64) => 0x59,
        Op::IRel(IRelationalOp::GeU, NumType::I64) => 0x5A,
        Op::FRel(FRelationalOp::Eq, NumType::F32) => 0x5B,
        Op::FRel(FRelationalOp::Ne, NumType::F32) => 0x5C,
        Op::FRel(FRelationalOp::Lt, NumType::F32) => 0x5D,
        Op::FRel(FRelationalOp::Gt, NumType::F32) => 0x5E,
        Op::FRel(FRelationalOp::Le, NumType::F32) => 0x5F,
        Op::FRel(FRelationalOp::Ge, NumType::F32) => 0x60,
        Op::FRel(FRelationalOp::Eq, NumType::F64) => 0x61,
        Op::FRel(FRelationalOp::Ne, NumType::F64) => 0x62,
        Op::FRel(FRelationalOp::Lt, NumType::F64) => 0x63,
        Op::FRel(FRelationalOp::Gt, NumType::F64) => 0x64,
        Op::FRel(FRelationalOp::Le, NumType::F64) => 0x65,
        Op::FRel(FRelationalOp::Ge, NumType::F64) => 0x66,
        Op::IUnary(IUnaryOp::Clz, NumType::I32) => 0x67,
        Op::IUnary(IUnaryOp::Ctz, NumType::I32) => 0x68,
        Op::IUnary(IUnaryOp::Popcnt, NumType::I32) => 0x69,
        Op::IBinary(IBinaryOp::Add, NumType::I32) => 0x6A,
        Op::IBinary(IBinaryOp::Sub, NumType::I32) => 0x6B,
        Op::IBinary(IBinaryOp::Mul, NumType::I32) => 0x6C,
        Op::IBinary(IBinaryOp::DivS, NumType::I32) => 0x6D,
        Op::IBinary(IBinaryOp::DivU, NumType::I32) => 0x6E,
        Op::IBinary(IBinaryOp::RemS, NumType::I32) => 0x6F,
        Op::IBinary(IBinaryOp::RemU, NumType::I32) => 0x70,
        Op::IBinary(IBinaryOp::And, NumType::I32) => 0x71,
        Op::IBinary(IBinaryOp::Or, NumType::I32) => 0x72,
        Op::IBinary(IBinaryOp::Xor, NumType::I32) => 0x73,
        Op::IBinary(IBinaryOp::Shl, NumType::I32) => 0x74,
        Op::IBinary(IBinaryOp::ShrS, NumType::I32) => 0x75,
        Op::IBinary(IBinaryOp::ShrU, NumType::I32) => 0x76,
        Op::IBinary(IBinaryOp::Rotl, NumType::I32) => 0x77,
        Op::IBinary(IBinaryOp::Rotr, NumType::I32) => 0x78,
        Op::IUnary(IUnaryOp::Clz, NumType::I64) => 0x79,
        Op::IUnary(IUnaryOp::Ctz, NumType::I64) => 0x7A,
        Op::IUnary(IUnaryOp::Popcnt, NumType::I64) => 0x7B,
        Op::IBinary(IBinaryOp::Add, NumType::I64) => 0x7C,
        Op::IBinary(IBinaryOp::Sub, NumType::I64) => 0x7D,
        Op::IBinary(IBinaryOp::Mul, NumType::I64) => 0x7E,
        Op::IBinary(IBinaryOp::DivS, NumType::I64) => 0x7F,
        Op::IBinary(IBinaryOp::DivU, NumType::I64) => 0x80,
        Op::IBinary(IBinaryOp::RemS, NumType::I64) => 0x81,
        Op::IBinary(IBinaryOp::RemU, NumType::I64) => 0x82,
        Op::IBinary(IBinaryOp::And, NumType::I64) => 0x83,
        Op::IBinary(IBinaryOp::Or, NumType::I64) => 0x84,
        Op::IBinary(IBinaryOp::Xor, NumType::I64) => 0x85,
        Op::IBinary(IBinaryOp::Shl, NumType::I64) => 0x86,
        Op::IBinary(IBinaryOp::ShrS, NumType::I64) => 0x87,
        Op::IBinary(IBinaryOp::ShrU, NumType::I64) => 0x88,
        Op::IBinary(IBinaryOp::Rotl, NumType::I64) => 0x89,
        Op::IBinary(IBinaryOp::Rotr, NumType::I64) => 0x8A,
        Op::FUnary(FUnaryOp::Abs, NumType::F32) => 0x8B,
        Op::FUnary(FUnaryOp::Neg, NumType::F32) => 0x8C,
        Op::FUnary(FUnaryOp::Ceil, NumType::F32) => 0x8D,
        Op::FUnary(FUnaryOp::Floor, NumType::F32) => 0x8E,
        Op::FUnary(FUnaryOp::Trunc, NumType::F32) => 0x8F,
        Op::FUnary(FUnaryOp::Nearest, NumType::F32) => 0x90,
        Op::FUnary(FUnaryOp::Sqrt, NumType::F32) => 0x91,
        Op::FBinary(FBinaryOp::Add, NumType::F32) => 0x92,
        Op::FBinary(FBinaryOp::Sub, NumType::F32) => 0x93,
        Op::FBinary(FBinaryOp::Mul, NumType::F32) => 0x94,
        Op::FBinary(FBinaryOp::Div, NumType::F32) => 0x95,
        Op::FBinary(FBinaryOp::Min, NumType::F32) => 0x96,
        Op::FBinary(FBinaryOp::Max, NumType::F32) => 0x97,
        Op::FBinary(FBinaryOp::Copysign, NumType::F32) => 0x98,
        Op::FUnary(FUnaryOp::Abs, NumType::F64) => 0x99,
        Op::FUnary(FUnaryOp::Neg, NumType::F64) => 0x9A,
        Op::FUnary(FUnaryOp::Ceil, NumType::F64) => 0x9B,
        Op::FUnary(FUnaryOp::Floor, NumType::F64) => 0x9C,
        Op::FUnary(FUnaryOp::Trunc, NumType::F64) => 0x9D,
        Op::FUnary(FUnaryOp::Nearest, NumType::F64) => 0x9E,
        Op::FUnary(FUnaryOp::Sqrt, NumType::F64) => 0x9F,
        Op::FBinary(FBinaryOp::Add, NumType::F64) => 0xA0,
        Op::FBinary(FBinaryOp::Sub, NumType::F64) => 0xA1,
        Op::FBinary(FBinaryOp::Mul, NumType::F64) => 0xA2,
        Op::FBinary(FBinaryOp::Div, NumType::F64) => 0xA3,
        Op::FBinary(FBinaryOp::Min, NumType::F64) => 0xA4,
        Op::FBinary(FBinaryOp::Max, NumType::F64) => 0xA5,
        Op::FBinary(FBinaryOp::Copysign, NumType::F64) => 0xA6,
        Op::Wrap => 0xA7,
        Op::Trunc(NumType::F32, NumType::I32, true) => 0xA8,
        Op::Trunc(NumType::F32, NumType::I32, false) => 0xA9,
        Op::Trunc(NumType::F64, NumType::I32, true) => 0xAA,
        Op::Trunc(NumType::F64, NumType::I32, false) => 0xAB,
        Op::ExtendType(true) => 0xAC,
        Op::ExtendType(false) => 0xAD,
        Op::Trunc(NumType::F32, NumType::I64, true) => 0xAE,
        Op::Trunc(NumType::F32, NumType::I64, false) => 0xAF,
        Op::Trunc(NumType::F64, NumType::I64, true) => 0xB0,
        Op::Trunc(NumType::F64, NumType::I64, false) => 0xB1,
        Op::Convert(NumType::I32, NumType::F32, true) => 0xB2,
        Op::Convert(NumType::I32, NumType::F32, false) => 0xB3,
        Op::Convert(NumType::I64, NumType::F32, true) => 0xB4,
        Op::Convert(NumType::I64, NumType::F32, false) => 0xB5,
        Op::Demote => 0xB6,
        Op::Convert(NumType::I32, NumType::F64, true) => 0xB7,
        Op::Convert(NumType::I32, NumType::F64, false) => 0xB8,
        Op::Convert(NumType::I64, NumType::F64, true) => 0xB9,
        Op::Convert(NumType::I64, NumType::F64, false) => 0xBA,
        Op::Promote => 0xBB,
        Op::Reinterpret(NumType::F32, NumType::I32) => 0xBC,
        Op::Reinterpret(NumType::F64, NumType::I64) => 0xBD,
        Op::Reinterpret(NumType::I32, NumType::F32) => 0xBE,
        Op::Reinterpret(NumType::I64, NumType::F64) => 0xBF,
        Op::Extend(8, NumType::I32) => 0xC0,
        Op::Extend(16, NumType::I32) => 0xC1,
        Op::Extend(8, NumType::I64) => 0xC2,
        Op::Extend(16, NumType::I64) => 0xC3,
        Op::Extend(32, NumType::I64) => 0xC4,
        Op::RefNull => 0xD0,
        Op::RefIsNull => 0xD1,
        Op::RefFunc => 0xD2,
        _ => 256,
    }
}

/// The sub-opcode, after the `0xFC` prefix, of an instruction that has one; -1 for the others.
spec fn fc_code(op: Op) -> int {
    match op {
        Op::TruncSat(NumType::F32, NumType::I32, true) => 0,
        Op::TruncSat(NumType::F32, NumType::I32, false) => 1,
        Op::TruncSat(NumType::F64, NumType::I32, true) => 2,
        Op::TruncSat(NumType::F64, NumType::I32, false) => 3,
        Op::TruncSat(NumType::F32, NumType::I64, true) => 4,
        Op::TruncSat(NumType::F32, NumType::I64, false) => 5,
        Op::TruncSat(NumType::F64, NumType::I64, true) => 6,
        Op::TruncSat(NumType::F64, NumType::I64, false) => 7,
        Op::MemoryInit => 8,
        Op::DataDrop => 9,
        Op::MemoryCopy => 0x0A,
        Op::MemoryFill => 0x0B,
        Op::TableInit => 0x0C,
        Op::ElemDrop => 0x0D,
        Op::TableCopy => 0x0E,
        Op::TableGrow => 0x0F,
        Op::TableSize => 0x10,
        Op::TableFill => 0x11,
        _ => -1,
    }
}

#[verifier::spinoff_prover]
proof fn lemma_byte_code_00(b: u8)
    requires
        0x00 <= b < 0x10,
    ensures
        op_of_byte(b) matches Some(op) ==> byte_code(op) == b && fc_code(op) == -1,
{
}

#[verifier::spinoff_prover]
proof fn lemma_byte_code_10(b: u8)
    requires
        0x10 <= b < 0x20,
    ensures
        op_of_byte(b) matches Some(op) ==> byte_code(op) == b && fc_code(op) == -1,
{
}

#[verifier::spinoff_prover]
proof fn lemma_byte_code_20(b: u8)
    requires
        0x20 <= b < 0x30,
    ensures
        op_of_byte(b) matches Some(op) ==> byte_code(op) == b && fc_code(op) == -1,
{
}

#[verifier::spinoff_prover]
proof fn lemma_byte_code_30(b: u8)
    requires
        0x30 <= b < 0x40,
    ensures
        op_of_byte(b) matches Some(op) ==> byte_code(op) == b && fc_code(op) == -1,
{
}

#[verifier::spinoff_prover]
proof fn lemma_byte_code_40(b: u8)
    requires
        0x40 <= b < 0x50,
    ensures
        op_of_byte(b) matches Some(op) ==> byte_code(op) == b && fc_code(op) == -1,
{
}

#[verifier::spinoff_prover]
proof fn lemma_byte_code_50(b: u8)
    requires
        0x50 <= b < 0x60,
    ensures
        op_of_byte(b) matches Some(op) ==> byte_code(op) == b && fc_code(op) == -1,
{
}

#[verifier::spinoff_prover]
proof fn lemma_byte_code_60(b: u8)
    requires
        0x60 <= b < 0x70,
    ensures
        op_of_byte(b) matches Some(op) ==> byte_code(op) == b && fc_code(op) == -1,
{
}

#[verifier::spinoff_prover]
proof fn lemma_byte_code_70(b: u8)
    requires
        0x70 <= b < 0x80,
    ensures
        op_of_byte(b) matches Some(op) ==> byte_code(op) == b && fc_code(op) == -1,
{
}

#[verifier::spinoff_prover]
proof fn lemma_byte_code_80(b: u8)
    requires
        0x80 <= b < 0x90,
    ensures
        op_of_byte(b) matches Some(op) ==> byte_code(op) == b && fc_code(op) == -1,
{
}

#[verifier::spinoff_prover]
proof fn lemma_byte_code_90(b: u8)
    requires
        0x90 <= b < 0xA0,
    ensures
        op_of_byte(b) matches Some(op) ==> byte_code(op) == b && fc_code(op) == -1,
{
}

#[verifier::spinoff_prover]
proof fn lemma_byte_code_a0(b: u8)
    requires
        0xA0 <= b < 0xB0,
    ensures
        op_of_byte(b) matches Some(op) ==> byte_code(op) == b && fc_code(op) == -1,
{
}

#[verifier::spinoff_prover]
proof fn lemma_byte_code_b0(b: u8)
    requires
        0xB0 <= b < 0xC0,
    ensures
        op_of_byte(b) matches Some(op) ==> byte_code(op) == b && fc_code(op) == -1,
{
}

#[verifier::spinoff_prover]
proof fn lemma_byte_code_c0(b: u8)
    requires
        0xC0 <= b < 0xD0,
    ensures
        op_of_byte(b) matches Some(op) ==> byte_code(op) == b && fc_code(op) == -1,
{
}

#[verifier::spinoff_prover]
proof fn lemma_byte_code_d0(b: u8)
    requires
        0xD0 <= b < 0x100,
    ensures
        op_of_byte(b) matches Some(op) ==> byte_code(op) == b && fc_code(op) == -1,
{
}

/// Decoding an opcode byte and encoding the instruction back give the byte.
proof fn lemma_byte_code(b: u8)
    ensures
        op_of_byte(b) matches Some(op) ==> byte_code(op) == b && fc_code(op) == -1,
{
    if b < 0x10 {
        lemma_byte_code_00(b);
    } else if b < 0x20 {
        lemma_byte_code_10(b);
    } else if b < 0x30 {
        lemma_byte_code_20(b);
    } else if b < 0x40 {
        lemma_byte_code_30(b);
    } else if b < 0x50 {
        lemma_byte_code_40(b);
    } else if b < 0x60 {
        lemma_byte_code_50(b);
    } else if b < 0x70 {
        lemma_byte_code_60(b);
    } else if b < 0x80 {
        lemma_byte_code_70(b);
    } else if b < 0x90 {
        lemma_byte_code_80(b);
    } else if b < 0xA0 {
        lemma_byte_code_90(b);
    } else if b < 0xB0 {
        lemma_byte_code_a0(b);
    } else if b < 0xC0 {
        lemma_byte_code_b0(b);
    } else if b < 0xD0 {
        lemma_byte_code_c0(b);
    } else {
        lemma_byte_code_d0(b);
    }
}

proof fn lemma_fc_code(sub: u32)
    ensures
        fc_op(sub) matches Some(op) ==> fc_code(op) == sub && byte_code(op) == 256,
{
}

/// Distinct opcodes stand for distinct instructions: no two opcode bytes, no two sub-opcodes
/// after `0xFC`, and no byte and sub-opcode, decode to the same instruction.
pub proof fn law_opcodes_distinct(b1: u8, b2: u8, s1: u32, s2: u32)
    ensures
        op_of_byte(b1) is Some && op_of_byte(b1) == op_of_byte(b2) ==> b1 == b2,
        fc_op(s1) is Some && fc_op(s1) == fc_op(s2) ==> s1 == s2,
        op_of_byte(b1) is Some ==> op_of_byte(b1) != fc_op(s1),
{
    lemma_byte_code(b1);
    lemma_byte_code(b2);
    lemma_fc_code(s1);
    lemma_fc_code(s2);
}


/// The integer binary operators, in the order that their opcodes follow in the binary format.
pub open spec fn int_binary_ops() -> Seq<IBinaryOp> {
    seq![
        IBinaryOp::Add, IBinaryOp::Sub, IBinaryOp::Mul, IBinaryOp::DivS, IBinaryOp::DivU,
        IBinaryOp::RemS, IBinaryOp::RemU, IBinaryOp::And, IBinaryOp::Or, IBinaryOp::Xor,
        IBinaryOp::Shl, IBinaryOp::ShrS, IBinaryOp::ShrU, IBinaryOp::Rotl, IBinaryOp::Rotr,
    ]
}

/// The integer comparisons, in the order of their opcodes.
pub open spec fn int_relational_ops() -> Seq<IRelationalOp> {
    seq![
        IRelationalOp::Eq, IRelationalOp::Ne, IRelationalOp::LtS, IRelationalOp::LtU, IRelationalOp::GtS,
        IRelationalOp::GtU, IRelationalOp::LeS, IRelationalOp::LeU, IRelationalOp::GeS, IRelationalOp::GeU,
    ]
}

/// The float comparisons, in the order of their opcodes.
pub open spec fn float_relational_ops() -> Seq<FRelationalOp> {
    seq![FRelationalOp::Eq, FRelationalOp::Ne, FRelationalOp::Lt, FRelationalOp::Gt, FRelationalOp::Le, FRelationalOp::Ge]
}

/// The integer unary operators, in the order of their opcodes.
pub open spec fn int_unary_ops() -> Seq<IUnaryOp> {
    seq![IUnaryOp::Clz, IUnaryOp::Ctz, IUnaryOp::Popcnt]
}

/// The float unary operators, in the order of their opcodes.
pub open spec fn float_unary_ops() -> Seq<FUnaryOp> {
    seq![FUnaryOp::Abs, FUnaryOp::Neg, FUnaryOp::Ceil, FUnaryOp::Floor, FUnaryOp::Trunc, FUnaryOp::Nearest, FUnaryOp::Sqrt]
}

/// The float binary operators, in the order of their opcodes.
pub open spec fn float_binary_ops() -> Seq<FBinaryOp> {
    seq![FBinaryOp::Add, FBinaryOp::Sub, FBinaryOp::Mul, FBinaryOp::Div, FBinaryOp::Min, FBinaryOp::Max, FBinaryOp::Copysign]
}

/// The numeric opcodes follow the layout of the WebAssembly binary format: each group of
/// operators starts at its first opcode (`i32.eqz` 0x45, `i32.eq` 0x46, `i64.eqz` 0x50,
/// `i64.eq` 0x51, `f32.eq` 0x5B, `f64.eq` 0x61, `i32.clz` 0x67, `i32.add` 0x6A, `i64.clz` 0x79,
/// `i64.add` 0x7C, `f32.abs` 0x8B, `f32.add` 0x92, `f64.abs` 0x99, `f64.add` 0xA0) and lists
/// its operators in the order the specification gives them.
pub proof fn law_numeric_opcodes(k: int)
    ensures
        op_of_byte(0x45) == Some(Op::TestZero(NumType::I32)),
        op_of_byte(0x50) == Some(Op::TestZero(NumType::I64)),
        0 <= k < 10 ==> op_of_byte((0x46 + k) as u8) == Some(Op::IRel(int_relational_ops()[k], NumType::I32))
            && op_of_byte((0x51 + k) as u8) == Some(Op::IRel(int_relational_ops()[k], NumType::I64)),
        0 <= k < 6 ==> op_of_byte((0x5B + k) as u8) == Some(Op::FRel(float_relational_ops()[k], NumType::F32))
            && op_of_byte((0x61 + k) as u8) == Some(Op::FRel(float_relational_ops()[k], NumType::F64)),
        0 <= k < 3 ==> op_of_byte((0x67 + k) as u8) == Some(Op::IUnary(int_unary_ops()[k], NumType::I32))
            && op_of_byte((0x79 + k) as u8) == Some(Op::IUnary(int_unary_ops()[k], NumType::I64)),
        0 <= k < 15 ==> op_of_byte((0x6A + k) as u8) == Some(Op::IBinary(int_binary_ops()[k], NumType::I32))
            && op_of_byte((0x7C + k) as u8) == Some(Op::IBinary(int_binary_ops()[k], NumType::I64)),
        0 <= k < 7 ==> op_of_byte((0x8B + k) as u8) == Some(Op::FUnary(float_unary_ops()[k], NumType::F32))
            && op_of_byte((0x99 + k) as u8) == Some(Op::FUnary(float_unary_ops()[k], NumType::F64))
            && op_of_byte((0x92 + k) as u8) == Some(Op::FBinary(float_binary_ops()[k], NumType::F32))
            && op_of_byte((0xA0 + k) as u8) == Some(Op::FBinary(float_binary_ops()[k], NumType::F64)),
{
        if k == 0 {
        } else if k == 1 {
        } else if k == 2 {
        } else if k == 3 {
        } else if k == 4 {
        } else if k == 5 {
        } else if k == 6 {
        } else if k == 7 {
        } else if k == 8 {
        } else if k == 9 {
        } else if k == 10 {
        } else if k == 11 {
        } else if k == 12 {
        } else if k == 13 {
        } else if k == 14 {
        }
}

/// The opcode of a truncation from float to integer (`i32.trunc_f32_s` 0xA8 onwards): integer
/// target first (`i32` from 0xA8, `i64` from 0xAE), then float source (`f32` before `f64`),
/// then signed before unsigned.
pub open spec fn trunc_byte(from: NumType, to: NumType, signed: bool) -> int {
    (if to == NumType::I32 { 0xA8int } else { 0xAEint }) + (if from == NumType::F32 { 0int } else { 2int }) + (if signed {
        0int
    } else {
        1int
    })
}

/// The opcode of a conversion from integer to float (`f32.convert_i32_s` 0xB2 onwards): float
/// target first (`f32` from 0xB2, `f64` from 0xB7), then integer source, then signed first.
pub open spec fn convert_byte(from: NumType, to: NumType, signed: bool) -> int {
    (if to == NumType::F32 { 0xB2int } else { 0xB7int }) + (if from == NumType::I32 { 0int } else { 2int }) + (if signed {
        0int
    } else {
        1int
    })
}

/// Truncations and conversions between integers and floats sit at the opcodes the binary
/// format gives them, and so do the saturating truncations after `0xFC` (sub-opcodes 0 to 7,
/// in the same order as the truncations).
pub proof fn law_conversion_opcodes(from: NumType, to: NumType, signed: bool)
    ensures
        (from == NumType::F32 || from == NumType::F64) && (to == NumType::I32 || to == NumType::I64)
            ==> op_of_byte(trunc_byte(from, to, signed) as u8) == Some(Op::Trunc(from, to, signed))
            && fc_op((trunc_byte(from, to, signed) - 0xA8 - (if to == NumType::I64 { 2int } else { 0int })) as u32)
            == Some(Op::TruncSat(from, to, signed)),
        (from == NumType::I32 || from == NumType::I64) && (to == NumType::F32 || to == NumType::F64)
            ==> op_of_byte(convert_byte(from, to, signed) as u8) == Some(Op::Convert(from, to, signed)),
{
}


/// The loads, in the order of their opcodes from `i32.load` (0x28).
pub open spec fn load_ops() -> Seq<(NumType, LoadOp)> {
    seq![
        (NumType::I32, LoadOp::INNLoad), (NumType::I64, LoadOp::INNLoad), (NumType::F32, LoadOp::FNNLoad),
        (NumType::F64, LoadOp::FNNLoad), (NumType::I32, LoadOp::INNLoad8S), (NumType::I32, LoadOp::INNLoad8U),
        (NumType::I32, LoadOp::INNLoad16S), (NumType::I32, LoadOp::INNLoad16U), (NumType::I64, LoadOp::INNLoad8S),
        (NumType::I64, LoadOp::INNLoad8U), (NumType::I64, LoadOp::INNLoad16S), (NumType::I64, LoadOp::INNLoad16U),
        (NumType::I64, LoadOp::INNLoad32S), (NumType::I64, LoadOp::INNLoad32U),
    ]
}

/// The stores, in the order of their opcodes from `i32.store` (0x36).
pub open spec fn store_ops() -> Seq<(NumType, StoreOp)> {
    seq![
        (NumType::I32, StoreOp::INNStore), (NumType::I64, StoreOp::INNStore), (NumType::F32, StoreOp::FNNStore),
        (NumType::F64, StoreOp::FNNStore), (NumType::I32, StoreOp::INNStore8), (NumType::I32, StoreOp::INNStore16),
        (NumType::I64, StoreOp::INNStore8), (NumType::I64, StoreOp::INNStore16), (NumType::I64, StoreOp::INNStore32),
    ]
}

/// The control, parametric, variable, memory and constant instructions sit at the opcodes of
/// the binary format: `unreachable nop block loop if else` from 0x00, `end` 0x0B, `br br_if
/// br_table return call call_indirect` from 0x0C, `drop select` 0x1A, `local.get local.set
/// local.tee global.get global.set table.get table.set` from 0x20, the loads from 0x28, the
/// stores from 0x36, `memory.size memory.grow` 0x3F, the constants from 0x41, and the
/// reference instructions from 0xD0.
pub proof fn law_structural_opcodes(k: int)
    ensures
        0 <= k < 6 ==> op_of_byte(k as u8) == Some(seq![Op::Unreachable, Op::Nop, Op::Block, Op::Loop, Op::If, Op::Else][k]),
        op_of_byte(0x0B) == Some(Op::End),
        0 <= k < 6 ==> op_of_byte((0x0C + k) as u8) == Some(
            seq![Op::Br, Op::BrIf, Op::BrTable, Op::Return, Op::Call, Op::CallIndirect][k],
        ),
        op_of_byte(0x1A) == Some(Op::Drop) && op_of_byte(0x1B) == Some(Op::Select),
        0 <= k < 7 ==> op_of_byte((0x20 + k) as u8) == Some(
            seq![Op::LocalGet, Op::LocalSet, Op::LocalTee, Op::GlobalGet, Op::GlobalSet, Op::TableGet, Op::TableSet][k],
        ),
        0 <= k < 14 ==> op_of_byte((0x28 + k) as u8) == Some(Op::Load(load_ops()[k].0, load_ops()[k].1)),
        0 <= k < 9 ==> op_of_byte((0x36 + k) as u8) == Some(Op::Store(store_ops()[k].0, store_ops()[k].1)),
        op_of_byte(0x3F) == Some(Op::MemorySize) && op_of_byte(0x40) == Some(Op::MemoryGrow),
        0 <= k < 4 ==> op_of_byte((0x41 + k) as u8) == Some(seq![Op::I32Const, Op::I64Const, Op::F32Const, Op::F64Const][k]),
        0 <= k < 3 ==> op_of_byte((0xD0 + k) as u8) == Some(seq![Op::RefNull, Op::RefIsNull, Op::RefFunc][k]),
{
    if k == 0 {
    } else if k == 1 {
    } else if k == 2 {
    } else if k == 3 {
    } else if k == 4 {
    } else if k == 5 {
    } else if k == 6 {
    } else if k == 7 {
    } else if k == 8 {
    } else if k == 9 {
    } else if k == 10 {
    } else if k == 11 {
    } else if k == 12 {
    } else if k == 13 {
    }
}


/// The remaining numeric conversions and the instructions after the `0xFC` prefix sit at the
/// opcodes of the binary format: `i32.wrap_i64` 0xA7, `i64.extend_i32_s`/`_u` 0xAC and 0xAD,
/// `f32.demote_f64` 0xB6, `f64.promote_f32` 0xBB, the reinterpretations from 0xBC, the sign
/// extensions from 0xC0, and after `0xFC`, from sub-opcode 8, `memory.init data.drop
/// memory.copy memory.fill table.init elem.drop table.copy table.grow table.size table.fill`.
pub proof fn law_other_opcodes(k: int)
    ensures
        op_of_byte(0xA7) == Some(Op::Wrap),
        op_of_byte(0xAC) == Some(Op::ExtendType(true)) && op_of_byte(0xAD) == Some(Op::ExtendType(false)),
        op_of_byte(0xB6) == Some(Op::Demote) && op_of_byte(0xBB) == Some(Op::Promote),
        0 <= k < 4 ==> op_of_byte((0xBC + k) as u8) == Some(
            seq![
                Op::Reinterpret(NumType::F32, NumType::I32),
                Op::Reinterpret(NumType::F64, NumType::I64),
                Op::Reinterpret(NumType::I32, NumType::F32),
                Op::Reinterpret(NumType::I64, NumType::F64),
            ][k],
        ),
        0 <= k < 5 ==> op_of_byte((0xC0 + k) as u8) == Some(
            seq![
                Op::Extend(8, NumType::I32),
                Op::Extend(16, NumType::I32),
                Op::Extend(8, NumType::I64),
                Op::Extend(16, NumType::I64),
                Op::Extend(32, NumType::I64),
            ][k],
        ),
        0 <= k < 10 ==> fc_op((8 + k) as u32) == Some(
            seq![
                Op::MemoryInit,
                Op::DataDrop,
                Op::MemoryCopy,
                Op::MemoryFill,
                Op::TableInit,
                Op::ElemDrop,
                Op::TableCopy,
                Op::TableGrow,
                Op::TableSize,
                Op::TableFill,
            ][k],
        ),
{
    if k == 0 {
    } else if k == 1 {
    } else if k == 2 {
    } else if k == 3 {
    } else if k == 4 {
    } else if k == 5 {
    } else if k == 6 {
    } else if k == 7 {
    } else if k == 8 {
    } else if k == 9 {
    }
}

} // verus!
