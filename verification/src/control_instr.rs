//! Control instructions: each reads its immediates and ends the current basic block with a
//! control instruction; the basic block parser then acts on it.
use crate::context::Context;
use crate::decode::{
    BT_BAD_INDEX, advanced, blocktype_dec, leb_err, lemma_rest_advance, read_blocktype,
    read_u32_imm, read_u32_pair, u32_dec, u32_pair_dec,
};
use crate::error::ParserError;
use crate::instructions::{ParseResult, enc_same, terminated};
use crate::ir::{ControlInstruction, InstructionEncoder};
use crate::reader::{LEB_EOF, LEB_INVALID, LEB_OK, WasmBinaryReader, rest};
use crate::types::{BlockType, LabelIdx};
use vstd::prelude::*;

verus! {

/// What every control instruction keeps: the context is untouched.
pub open spec fn ctx_untouched(c0: &Context, c1: &Context) -> bool {
    &&& c1.module == c0.module
    &&& c1.locals@ == c0.locals@
    &&& c1.stack == c0.stack
    &&& c1.var_count == c0.var_count
    &&& c1.poison == c0.poison
}

/// A structured instruction with a block type (`block`, `loop`, `if`): on success the block ends
/// with `make(block type)`.
pub open spec fn blocktype_post(
    i0: WasmBinaryReader,
    i1: WasmBinaryReader,
    ntypes: nat,
    o0: InstructionEncoder,
    o1: InstructionEncoder,
    r: ParseResult,
    t: Option<ControlInstruction>,
) -> bool {
    let d = blocktype_dec(i0.remaining(), ntypes);
    &&& advanced(i0, i1, d.2)
    &&& d.0 == LEB_OK() ==> r is Ok
    &&& d.0 == LEB_EOF() || d.0 == LEB_INVALID() ==> r == Err::<(), ParserError>(leb_err(d.0))
    &&& d.0 == BT_BAD_INDEX() ==> (r matches Err(ParserError::Msg(_)))
    &&& r is Ok ==> t is Some && terminated(o0, o1, t->0)
    &&& r is Err ==> enc_same(o0, o1)
}

/// `block`
pub fn block(ctxt: &mut Context, i: &mut WasmBinaryReader, o: &mut InstructionEncoder) -> (r: ParseResult)
    ensures
        block_post(*old(i), *final(i), &*old(ctxt), &*final(ctxt), *old(o), *final(o), r),
{
    let block_type = read_blocktype(i, ctxt.module)?;
    o.write_terminator(ControlInstruction::Block(block_type));
    Ok(())
}

/// `loop`
pub fn loop_block(ctxt: &mut Context, i: &mut WasmBinaryReader, o: &mut InstructionEncoder) -> (r: ParseResult)
    ensures
        loop_block_post(*old(i), *final(i), &*old(ctxt), &*final(ctxt), *old(o), *final(o), r),
{
    let block_type = read_blocktype(i, ctxt.module)?;
    o.write_terminator(ControlInstruction::Loop(block_type));
    Ok(())
}

/// `if`: the condition is popped when the block is set up.
pub fn if_else(ctxt: &mut Context, i: &mut WasmBinaryReader, o: &mut InstructionEncoder) -> (r: ParseResult)
    ensures
        if_else_post(*old(i), *final(i), &*old(ctxt), &*final(ctxt), *old(o), *final(o), r),
{
    let block_type = read_blocktype(i, ctxt.module)?;
    o.write_terminator(ControlInstruction::IfElse(block_type));
    Ok(())
}

/// An instruction with one index immediate ending the block with `make(index)`.
pub open spec fn index_post(
    i0: WasmBinaryReader,
    i1: WasmBinaryReader,
    o0: InstructionEncoder,
    o1: InstructionEncoder,
    r: ParseResult,
    t: ControlInstruction,
) -> bool {
    let d = u32_dec(i0.remaining());
    &&& advanced(i0, i1, d.2)
    &&& d.0 != LEB_OK() ==> r == Err::<(), ParserError>(leb_err(d.0)) && enc_same(o0, o1)
    &&& d.0 == LEB_OK() ==> r is Ok && terminated(o0, o1, t)
}

/// `br`
pub fn br(ctxt: &mut Context, i: &mut WasmBinaryReader, o: &mut InstructionEncoder) -> (r: ParseResult)
    ensures
        br_post(*old(i), *final(i), &*old(ctxt), &*final(ctxt), *old(o), *final(o), r),
{
    let label_idx = read_u32_imm(i)?;
    o.write_terminator(ControlInstruction::Br(label_idx));
    Ok(())
}

/// `br_if`: the condition is popped when the block is ended.
pub fn br_if(ctxt: &mut Context, i: &mut WasmBinaryReader, o: &mut InstructionEncoder) -> (r: ParseResult)
    ensures
        br_if_post(*old(i), *final(i), &*old(ctxt), &*final(ctxt), *old(o), *final(o), r),
{
    let label_idx = read_u32_imm(i)?;
    o.write_terminator(ControlInstruction::BrIf(label_idx));
    Ok(())
}

/// `call`
pub fn call(ctxt: &mut Context, i: &mut WasmBinaryReader, o: &mut InstructionEncoder) -> (r: ParseResult)
    ensures
        call_post(*old(i), *final(i), &*old(ctxt), &*final(ctxt), *old(o), *final(o), r),
{
    let func_idx = read_u32_imm(i)?;
    o.write_terminator(ControlInstruction::Call(func_idx));
    Ok(())
}

/// `call_indirect`: type index, then table index.
pub fn call_indirect(ctxt: &mut Context, i: &mut WasmBinaryReader, o: &mut InstructionEncoder) -> (r: ParseResult)
    ensures
        call_indirect_post(*old(i), *final(i), &*old(ctxt), &*final(ctxt), *old(o), *final(o), r),
{
    let (type_idx, table_idx) = read_u32_pair(i)?;
    o.write_terminator(ControlInstruction::CallIndirect(type_idx, table_idx));
    Ok(())
}

/// `(outcome, labels, bytes read)` of `n` label indices in a row; decoding stops at the first
/// malformed one.
pub open spec fn labels_dec(s: Seq<u8>, n: nat) -> (nat, Seq<LabelIdx>, nat)
    decreases n,
{
    if n == 0 {
        (LEB_OK(), Seq::empty(), 0)
    } else {
        let a = u32_dec(s);
        if a.0 != LEB_OK() {
            (a.0, Seq::empty(), a.2)
        } else {
            let b = labels_dec(rest(s, a.2 as int), (n - 1) as nat);
            (b.0, seq![a.1] + b.1, a.2 + b.2)
        }
    }
}

/// `(outcome, default label, labels, bytes read)` of a `br_table` immediate: the number of
/// labels, the labels, then the default label.
pub open spec fn br_table_dec(s: Seq<u8>) -> (nat, LabelIdx, Seq<LabelIdx>, nat) {
    let c = u32_dec(s);
    if c.0 != LEB_OK() {
        (c.0, 0, Seq::empty(), c.2)
    } else {
        let l = labels_dec(rest(s, c.2 as int), c.1 as nat);
        if l.0 != LEB_OK() {
            (l.0, 0, Seq::empty(), c.2 + l.2)
        } else {
            let d = u32_dec(rest(s, (c.2 + l.2) as int));
            (d.0, d.1, l.1, c.2 + l.2 + d.2)
        }
    }
}

proof fn lemma_labels_dec_len(s: Seq<u8>, n: nat)
    ensures
        labels_dec(s, n).2 <= s.len(),
        labels_dec(s, n).0 == LEB_OK() ==> labels_dec(s, n).1.len() == n,
    decreases n,
{
    crate::reader::lemma_leb_status(s, 32, false);
    if n > 0 {
        let a = u32_dec(s);
        if a.0 == LEB_OK() {
            lemma_labels_dec_len(rest(s, a.2 as int), (n - 1) as nat);
        }
    }
}

/// Reads `n` label indices.
fn read_labels(i: &mut WasmBinaryReader, n: u32) -> (r: Result<Vec<LabelIdx>, ParserError>)
    ensures
        ({
            let d = labels_dec(old(i).remaining(), n as nat);
            &&& advanced(*old(i), *final(i), d.2)
            &&& d.0 == LEB_OK() ==> (r matches Ok(v) && v@ == d.1)
            &&& d.0 != LEB_OK() ==> r == Err::<Vec<LabelIdx>, ParserError>(leb_err(d.0))
        }),
{
    let ghost s0 = old(i).remaining();
    let ghost p0 = old(i).position();
    let mut labels: Vec<LabelIdx> = Vec::new();
    let mut k: u32 = 0;
    proof {
        old(i).lemma_position();
    }
    while k < n
        invariant
            k <= n,
            i.source() == old(i).source(),
            p0 == old(i).position(),
            s0 == old(i).remaining(),
            i.position() >= p0,
            ({
                let t = labels_dec(i.remaining(), (n - k) as nat);
                labels_dec(s0, n as nat) == (t.0, labels@ + t.1, ((i.position() - p0) + t.2) as nat)
            }),
        decreases n - k,
    {
        let ghost cur = i.remaining();
        let ghost pos = i.position();
        proof {
            i.lemma_position();
            crate::reader::lemma_leb_status(cur, 32, false);
            lemma_rest_advance(i.source(), pos, u32_dec(cur).2);
        }
        let l = match read_u32_imm(i) {
            Ok(l) => l,
            Err(e) => {
                proof {
                    assert(labels@ + Seq::<LabelIdx>::empty() =~= labels@);
                }
                return Err(e);
            },
        };
        proof {
            let a = u32_dec(cur);
            assert(rest(cur, a.2 as int) == i.remaining()) by {
                i.lemma_position();
                if pos <= i.source().len() {
                    assert(rest(cur, a.2 as int) =~= rest(i.source(), pos + a.2));
                }
            }
            let b = labels_dec(i.remaining(), (n - k - 1) as nat);
            assert(labels@.push(l) + b.1 =~= labels@ + (seq![l] + b.1));
        }
        labels.push(l);
        k = k + 1;
    }
    proof {
        assert(labels@ + Seq::<LabelIdx>::empty() =~= labels@);
    }
    Ok(labels)
}

/// `br_table`: the block ends with `BrTable(default label, labels)`.
pub fn br_table(ctxt: &mut Context, i: &mut WasmBinaryReader, o: &mut InstructionEncoder) -> (r: ParseResult)
    ensures
        br_table_post(*old(i), *final(i), &*old(ctxt), &*final(ctxt), *old(o), *final(o), r),
{
    let ghost s0 = i.remaining();
    let ghost p0 = i.position();
    proof {
        i.lemma_position();
    }
    let num_labels = read_u32_imm(i)?;
    proof {
        lemma_rest_advance(i.source(), p0, u32_dec(s0).2);
    }
    let ghost p1 = i.position();
    let label_indices = read_labels(i, num_labels);
    let label_indices = match label_indices {
        Ok(v) => v,
        Err(e) => {
            return Err(e);
        },
    };
    proof {
        lemma_labels_dec_len(rest(s0, u32_dec(s0).2 as int), num_labels as nat);
        lemma_rest_advance(i.source(), p1, labels_dec(rest(s0, u32_dec(s0).2 as int), num_labels as nat).2);
        lemma_rest_advance(i.source(), p0, u32_dec(s0).2 + labels_dec(rest(s0, u32_dec(s0).2 as int), num_labels as nat).2);
        crate::reader::lemma_leb_status(s0, 32, false);
        lemma_rest_advance(s0, 0, u32_dec(s0).2);
    }
    let default_label_idx = read_u32_imm(i)?;
    o.write_terminator(ControlInstruction::BrTable(default_label_idx, label_indices));
    Ok(())
}

/// `nop`: nothing happens.
pub fn nop(ctxt: &mut Context, i: &mut WasmBinaryReader, o: &mut InstructionEncoder) -> (r: ParseResult)
    ensures
        nop_post(*old(i), *final(i), &*old(ctxt), &*final(ctxt), *old(o), *final(o), r),
{
    Ok(())
}

/// A control instruction without immediates.
pub open spec fn plain_post(
    i0: WasmBinaryReader,
    i1: WasmBinaryReader,
    o0: InstructionEncoder,
    o1: InstructionEncoder,
    r: ParseResult,
    t: ControlInstruction,
) -> bool {
    &&& advanced(i0, i1, 0)
    &&& r is Ok
    &&& terminated(o0, o1, t)
}

/// `unreachable`
pub fn unreachable_(ctxt: &mut Context, i: &mut WasmBinaryReader, o: &mut InstructionEncoder) -> (r: ParseResult)
    ensures
        unreachable_post(*old(i), *final(i), &*old(ctxt), &*final(ctxt), *old(o), *final(o), r),
{
    o.write_terminator(ControlInstruction::Unreachable);
    Ok(())
}

/// `return`
pub fn return_(ctxt: &mut Context, i: &mut WasmBinaryReader, o: &mut InstructionEncoder) -> (r: ParseResult)
    ensures
        return_post(*old(i), *final(i), &*old(ctxt), &*final(ctxt), *old(o), *final(o), r),
{
    o.write_terminator(ControlInstruction::Return);
    Ok(())
}

/// `else`
pub fn else_(ctxt: &mut Context, i: &mut WasmBinaryReader, o: &mut InstructionEncoder) -> (r: ParseResult)
    ensures
        else_post(*old(i), *final(i), &*old(ctxt), &*final(ctxt), *old(o), *final(o), r),
{
    o.write_terminator(ControlInstruction::Else);
    Ok(())
}

/// `end`
pub fn end(ctxt: &mut Context, i: &mut WasmBinaryReader, o: &mut InstructionEncoder) -> (r: ParseResult)
    ensures
        end_post(*old(i), *final(i), &*old(ctxt), &*final(ctxt), *old(o), *final(o), r),
{
    o.write_terminator(ControlInstruction::End);
    Ok(())
}

/// What `block` does.
pub open spec fn block_post(
    i0: WasmBinaryReader,
    i1: WasmBinaryReader,
    x0: &Context,
    x1: &Context,
    o0: InstructionEncoder,
    o1: InstructionEncoder,
    r: ParseResult,
) -> bool {
    &&& (ctx_untouched(x0, x1))
    &&& ({
                let d = blocktype_dec(i0.remaining(), x0.module.function_types@.len());
                blocktype_post(
                    i0,
                    i1,
                    x0.module.function_types@.len(),
                    o0,
                    o1,
                    r,
                    Some(ControlInstruction::Block(d.1)),
                )
            })
}

/// What `loop_block` does.
pub open spec fn loop_block_post(
    i0: WasmBinaryReader,
    i1: WasmBinaryReader,
    x0: &Context,
    x1: &Context,
    o0: InstructionEncoder,
    o1: InstructionEncoder,
    r: ParseResult,
) -> bool {
    &&& (ctx_untouched(x0, x1))
    &&& ({
                let d = blocktype_dec(i0.remaining(), x0.module.function_types@.len());
                blocktype_post(
                    i0,
                    i1,
                    x0.module.function_types@.len(),
                    o0,
                    o1,
                    r,
                    Some(ControlInstruction::Loop(d.1)),
                )
            })
}

/// What `if_else` does.
pub open spec fn if_else_post(
    i0: WasmBinaryReader,
    i1: WasmBinaryReader,
    x0: &Context,
    x1: &Context,
    o0: InstructionEncoder,
    o1: InstructionEncoder,
    r: ParseResult,
) -> bool {
    &&& (ctx_untouched(x0, x1))
    &&& ({
                let d = blocktype_dec(i0.remaining(), x0.module.function_types@.len());
                blocktype_post(
                    i0,
                    i1,
                    x0.module.function_types@.len(),
                    o0,
                    o1,
                    r,
                    Some(ControlInstruction::IfElse(d.1)),
                )
            })
}

/// What `br` does.
pub open spec fn br_post(
    i0: WasmBinaryReader,
    i1: WasmBinaryReader,
    x0: &Context,
    x1: &Context,
    o0: InstructionEncoder,
    o1: InstructionEncoder,
    r: ParseResult,
) -> bool {
    &&& (ctx_untouched(x0, x1))
    &&& (index_post(
                i0,
                i1,
                o0,
                o1,
                r,
                ControlInstruction::Br(u32_dec(i0.remaining()).1),
            ))
}

/// What `br_if` does.
pub open spec fn br_if_post(
    i0: WasmBinaryReader,
    i1: WasmBinaryReader,
    x0: &Context,
    x1: &Context,
    o0: InstructionEncoder,
    o1: InstructionEncoder,
    r: ParseResult,
) -> bool {
    &&& (ctx_untouched(x0, x1))
    &&& (index_post(
                i0,
                i1,
                o0,
                o1,
                r,
                ControlInstruction::BrIf(u32_dec(i0.remaining()).1),
            ))
}

/// What `call` does.
pub open spec fn call_post(
    i0: WasmBinaryReader,
    i1: WasmBinaryReader,
    x0: &Context,
    x1: &Context,
    o0: InstructionEncoder,
    o1: InstructionEncoder,
    r: ParseResult,
) -> bool {
    &&& (ctx_untouched(x0, x1))
    &&& (index_post(
                i0,
                i1,
                o0,
                o1,
                r,
                ControlInstruction::Call(u32_dec(i0.remaining()).1),
            ))
}

/// What `call_indirect` does.
pub open spec fn call_indirect_post(
    i0: WasmBinaryReader,
    i1: WasmBinaryReader,
    x0: &Context,
    x1: &Context,
    o0: InstructionEncoder,
    o1: InstructionEncoder,
    r: ParseResult,
) -> bool {
    &&& (ctx_untouched(x0, x1))
    &&& ({
                let d = u32_pair_dec(i0.remaining());
                &&& advanced(i0, i1, d.3)
                &&& d.0 != LEB_OK() ==> r == Err::<(), ParserError>(leb_err(d.0)) && enc_same(o0, o1)
                &&& d.0 == LEB_OK() ==> r is Ok && terminated(
                    o0,
                    o1,
                    ControlInstruction::CallIndirect(d.1, d.2),
                )
            })
}

/// What `br_table` does.
pub open spec fn br_table_post(
    i0: WasmBinaryReader,
    i1: WasmBinaryReader,
    x0: &Context,
    x1: &Context,
    o0: InstructionEncoder,
    o1: InstructionEncoder,
    r: ParseResult,
) -> bool {
    &&& (ctx_untouched(x0, x1))
    &&& ({
                let d = br_table_dec(i0.remaining());
                &&& advanced(i0, i1, d.3)
                &&& d.0 != LEB_OK() ==> r == Err::<(), ParserError>(leb_err(d.0)) && enc_same(o0, o1)
                &&& d.0 == LEB_OK() ==> r is Ok && (o1.terminator_spec() matches Some(
                    ControlInstruction::BrTable(def, v),
                ) && def == d.1 && v@ == d.2 && o1.instructions() == o0.instructions())
            })
}

/// What `nop` does.
pub open spec fn nop_post(
    i0: WasmBinaryReader,
    i1: WasmBinaryReader,
    x0: &Context,
    x1: &Context,
    o0: InstructionEncoder,
    o1: InstructionEncoder,
    r: ParseResult,
) -> bool {
    &&& (ctx_untouched(x0, x1))
    &&& (advanced(i0, i1, 0))
    &&& (enc_same(o0, o1))
    &&& (r is Ok)
}

/// What `unreachable_` does.
pub open spec fn unreachable_post(
    i0: WasmBinaryReader,
    i1: WasmBinaryReader,
    x0: &Context,
    x1: &Context,
    o0: InstructionEncoder,
    o1: InstructionEncoder,
    r: ParseResult,
) -> bool {
    &&& (ctx_untouched(x0, x1))
    &&& (plain_post(i0, i1, o0, o1, r, ControlInstruction::Unreachable))
}

/// What `return_` does.
pub open spec fn return_post(
    i0: WasmBinaryReader,
    i1: WasmBinaryReader,
    x0: &Context,
    x1: &Context,
    o0: InstructionEncoder,
    o1: InstructionEncoder,
    r: ParseResult,
) -> bool {
    &&& (ctx_untouched(x0, x1))
    &&& (plain_post(i0, i1, o0, o1, r, ControlInstruction::Return))
}

/// What `else_` does.
pub open spec fn else_post(
    i0: WasmBinaryReader,
    i1: WasmBinaryReader,
    x0: &Context,
    x1: &Context,
    o0: InstructionEncoder,
    o1: InstructionEncoder,
    r: ParseResult,
) -> bool {
    &&& (ctx_untouched(x0, x1))
    &&& (plain_post(i0, i1, o0, o1, r, ControlInstruction::Else))
}

/// What `end` does.
pub open spec fn end_post(
    i0: WasmBinaryReader,
    i1: WasmBinaryReader,
    x0: &Context,
    x1: &Context,
    o0: InstructionEncoder,
    o1: InstructionEncoder,
    r: ParseResult,
) -> bool {
    &&& (ctx_untouched(x0, x1))
    &&& (plain_post(i0, i1, o0, o1, r, ControlInstruction::End))
}

} // verus!
