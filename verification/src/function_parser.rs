//! Parses the code of a function into its IR: the local declarations, then the body as basic
//! blocks, starting in an entry block and leaving through an exit block that returns.
use crate::basic_blocks::{
    starts_with_end, straight_run, run_pos, straight_block, extract_result,
    Label, builder_step, parse_basic_blocks, validate_and_extract_result_from_stack,
};
use crate::ir::InstructionEncoder;
use crate::context::{Context, CtxModel};
use crate::decode::{dec_err, read_u32_imm, read_valtype, u32_dec, valtype_dec};
use crate::error::ParserError;
use crate::opcodes::lemma_instr_det;
use crate::function_builder::{FunctionIRBuilder, NO_BB, m_create_all};
use crate::ir::{BasicBlockID, ControlInstruction, FunctionIR, INVALID_VAR};
use crate::module::{FunctionSource, ModuleMetadata};
use crate::reader::{LEB_EOF, LEB_OK, WasmBinaryReader, rest};
use crate::stack::ParserStack;
use crate::types::{FuncIdx, ValType};
use smallvec::SmallVec;
use vstd::prelude::*;

verus! {

/// Declarations of locals, held in a `SmallVec` of the `smallvec` crate that keeps its first
/// two items inline.
#[verifier::external_body]
pub struct LocalDecls {
    inner: SmallVec<[(u32, ValType); 2]>,
}

/// The items of a small vector of local declarations, in order.
pub uninterp spec fn local_defs_items(v: LocalDecls) -> Seq<(u32, ValType)>;

/// `SmallVec::new` of the `smallvec` crate: an empty vector.
#[verifier::external_body]
fn local_defs_new() -> (v: LocalDecls)
    ensures
        local_defs_items(v) == Seq::<(u32, ValType)>::empty(),
{
    LocalDecls { inner: SmallVec::new() }
}

/// `SmallVec::push` of the `smallvec` crate: appends an item at the end.
#[verifier::external_body]
fn local_defs_push(v: &mut LocalDecls, d: (u32, ValType))
    ensures
        local_defs_items(*final(v)) == local_defs_items(*old(v)).push(d),
{
    v.inner.push(d)
}

/// `SmallVec::len` of the `smallvec` crate: the number of items.
#[verifier::external_body]
fn local_defs_len(v: &LocalDecls) -> (n: usize)
    ensures
        n == local_defs_items(*v).len(),
{
    v.inner.len()
}

/// Indexing a `SmallVec` of the `smallvec` crate: the item at `k`, which the call requires to
/// be in range.
#[verifier::external_body]
fn local_defs_get(v: &LocalDecls, k: usize) -> (d: (u32, ValType))
    requires
        k < local_defs_items(*v).len(),
    ensures
        d == local_defs_items(*v)[k as int],
{
    v.inner[k]
}

/// `(outcome, (count, type), bytes read)` of one declaration of locals.
pub open spec fn local_decl_dec(s: Seq<u8>) -> (nat, (u32, ValType), nat) {
    let c = u32_dec(s);
    if c.0 != LEB_OK() {
        (c.0, (0, ValType::VecType), c.2)
    } else {
        let t = valtype_dec(rest(s, c.2 as int));
        (t.0, (c.1, t.1), c.2 + t.2)
    }
}

/// `(outcome, declarations, bytes read)` of `n` declarations of locals; decoding stops at the
/// first malformed one.
pub open spec fn local_decls_dec(s: Seq<u8>, n: nat) -> (nat, Seq<(u32, ValType)>, nat)
    decreases n,
{
    if n == 0 {
        (LEB_OK(), Seq::empty(), 0)
    } else {
        let a = local_decl_dec(s);
        if a.0 != LEB_OK() {
            (a.0, Seq::empty(), a.2)
        } else {
            let b = local_decls_dec(rest(s, a.2 as int), (n - 1) as nat);
            (b.0, seq![a.1] + b.1, a.2 + b.2)
        }
    }
}

/// `(outcome, declarations, bytes read)` of the locals of a function body: their number, then
/// the declarations.
pub open spec fn locals_dec(s: Seq<u8>) -> (nat, Seq<(u32, ValType)>, nat) {
    let c = u32_dec(s);
    if c.0 != LEB_OK() {
        (c.0, Seq::empty(), c.2)
    } else {
        let d = local_decls_dec(rest(s, c.2 as int), c.1 as nat);
        (d.0, d.1, c.2 + d.2)
    }
}

/// The locals that declarations declare, in order.
pub open spec fn expand_locals(defs: Seq<(u32, ValType)>) -> Seq<ValType>
    decreases defs.len(),
{
    if defs.len() == 0 {
        Seq::empty()
    } else {
        expand_locals(defs.drop_last()) + Seq::new(defs.last().0 as nat, |k: int| defs.last().1)
    }
}

/// The number of locals that declarations declare.
pub open spec fn total_locals(defs: Seq<(u32, ValType)>) -> nat
    decreases defs.len(),
{
    if defs.len() == 0 {
        0
    } else {
        (total_locals(defs.drop_last()) + defs.last().0) as nat
    }
}

proof fn lemma_local_decl_dec_len(s: Seq<u8>)
    ensures
        local_decl_dec(s).2 <= s.len(),
{
    crate::reader::lemma_leb_status(s, 32, false);
}

/// The locals of a prefix of the declarations are no more than all of them.
proof fn lemma_total_prefix(defs: Seq<(u32, ValType)>, j: int)
    requires
        0 <= j <= defs.len(),
    ensures
        total_locals(defs.subrange(0, j)) <= total_locals(defs),
    decreases defs.len(),
{
    if j < defs.len() {
        assert(defs.drop_last().subrange(0, j) =~= defs.subrange(0, j));
        lemma_total_prefix(defs.drop_last(), j);
    } else {
        assert(defs.subrange(0, j) =~= defs);
    }
}

/// The context in which a body starts: an empty stack in one block, no poison, and the
/// variables that stand for the function's results, created first.
pub open spec fn entry_model(results: Seq<ValType>) -> CtxModel {
    m_create_all(CtxModel { stack: Seq::empty(), stash: seq![0usize], var_count: 0, poisoned: false }, results).0
}

/// A body with no control flow: a run of instructions (see `straight_run`) from position
/// `start` of `src`, followed by the `end` of the function, starting in the context of
/// `entry_model(results)` with the module and locals given, and an empty entry block.
pub open spec fn straight_body(
    src: Seq<u8>,
    start: int,
    module: &ModuleMetadata,
    locals: Seq<ValType>,
    results: Seq<ValType>,
    rs: Seq<WasmBinaryReader>,
    re: Seq<WasmBinaryReader>,
    xs: Seq<Context>,
    os: Seq<InstructionEncoder>,
) -> bool {
    let e = run_pos(start, re, rs.len() as int);
    &&& straight_run(src, start, rs, re, xs, os)
    &&& xs[0].model() == entry_model(results)
    &&& xs[0].module == module
    &&& xs[0].locals@ == locals
    &&& os[0].instructions() == Seq::<crate::ir::Instruction>::empty()
    &&& os[0].terminator_spec() is None
    &&& 0 <= e < src.len()
    &&& src[e] == 0x0Bu8
}

/// Two runs of instructions read from the same bytes and started alike agree, step by step, on
/// where each instruction begins, on the context model and on the instructions written.
proof fn lemma_runs_agree(
    src: Seq<u8>,
    start: int,
    rs1: Seq<WasmBinaryReader>,
    re1: Seq<WasmBinaryReader>,
    xs1: Seq<Context>,
    os1: Seq<InstructionEncoder>,
    rs2: Seq<WasmBinaryReader>,
    re2: Seq<WasmBinaryReader>,
    xs2: Seq<Context>,
    os2: Seq<InstructionEncoder>,
    k: int,
)
    requires
        straight_run(src, start, rs1, re1, xs1, os1),
        straight_run(src, start, rs2, re2, xs2, os2),
        xs1[0].model() == xs2[0].model(),
        xs1[0].module == xs2[0].module,
        xs1[0].locals@ == xs2[0].locals@,
        os1[0].instructions() == os2[0].instructions(),
        os1[0].terminator_spec() is None,
        os2[0].terminator_spec() is None,
        0 <= k <= rs1.len(),
        k <= rs2.len(),
    ensures
        run_pos(start, re1, k) == run_pos(start, re2, k),
        xs1[k].model() == xs2[k].model(),
        os1[k].instructions() == os2[k].instructions(),
    decreases k,
{
    if k > 0 {
        let j = k - 1;
        lemma_runs_agree(src, start, rs1, re1, xs1, os1, rs2, re2, xs2, os2, j);
        let b = src[run_pos(start, re1, j)];
        assert(rs1[j].source() == src && rs2[j].source() == src);
        assert(xs1[j].module == xs1[0].module && xs2[j].module == xs2[0].module);
        if j > 0 {
            assert(rs1[j - 1].source() == src && rs2[j - 1].source() == src);
        }
        lemma_instr_det(
            b,
            rs1[j],
            re1[j],
            &xs1[j],
            &xs1[j + 1],
            os1[j],
            os1[j + 1],
            Ok(()),
            rs2[j],
            re2[j],
            &xs2[j],
            &xs2[j + 1],
            os2[j],
            os2[j + 1],
            Ok(()),
        );
    }
}

/// A body with no control flow has one outcome: any two descriptions of it as a run of
/// instructions (see `straight_body`) have the same number of instructions, the same context
/// after them and the same instructions written.
pub proof fn law_straight_body_outcome_unique(
    src: Seq<u8>,
    start: int,
    module: &ModuleMetadata,
    locals: Seq<ValType>,
    results: Seq<ValType>,
    rs1: Seq<WasmBinaryReader>,
    re1: Seq<WasmBinaryReader>,
    xs1: Seq<Context>,
    os1: Seq<InstructionEncoder>,
    rs2: Seq<WasmBinaryReader>,
    re2: Seq<WasmBinaryReader>,
    xs2: Seq<Context>,
    os2: Seq<InstructionEncoder>,
)
    requires
        straight_body(src, start, module, locals, results, rs1, re1, xs1, os1),
        straight_body(src, start, module, locals, results, rs2, re2, xs2, os2),
    ensures
        rs1.len() == rs2.len(),
        xs1.last().model() == xs2.last().model(),
        os1.last().instructions() == os2.last().instructions(),
{
    let n1 = rs1.len() as int;
    let n2 = rs2.len() as int;
    if n1 < n2 {
        lemma_runs_agree(src, start, rs1, re1, xs1, os1, rs2, re2, xs2, os2, n1);
        assert(rs2[n1].source() == src);
        assert(false);
    } else if n2 < n1 {
        lemma_runs_agree(src, start, rs2, re2, xs2, os2, rs1, re1, xs1, os1, n2);
        assert(rs1[n2].source() == src);
        assert(false);
    } else {
        lemma_runs_agree(src, start, rs1, re1, xs1, os1, rs2, re2, xs2, os2, n1);
    }
}

/// Creating variables while ids remain counts them.
proof fn lemma_create_all_count(m: CtxModel, ts: Seq<ValType>)
    requires
        m.var_count + ts.len() <= INVALID_VAR,
    ensures
        m_create_all(m, ts).0.var_count == m.var_count + ts.len(),
    decreases ts.len(),
{
    if ts.len() > 0 {
        lemma_create_all_count(m, ts.drop_last());
    }
}

/// Creating variables leaves the stack and its block boundaries as they are.
proof fn lemma_create_all_keeps_stack(m: CtxModel, ts: Seq<ValType>)
    ensures
        m_create_all(m, ts).0.stack == m.stack,
        m_create_all(m, ts).0.stash == m.stash,
    decreases ts.len(),
{
    if ts.len() > 0 {
        lemma_create_all_keeps_stack(m, ts.drop_last());
    }
}

/// Reads one declaration of locals.
fn read_local_decl(i: &mut WasmBinaryReader) -> (r: Result<(u32, ValType), ParserError>)
    ensures
        ({
            let d = local_decl_dec(old(i).remaining());
            &&& final(i).source() == old(i).source()
            &&& final(i).position() == old(i).position() + d.2
            &&& d.0 == LEB_OK() ==> r == Ok::<(u32, ValType), ParserError>(d.1)
            &&& d.0 != LEB_OK() ==> r == Err::<(u32, ValType), ParserError>(dec_err(d.0))
        }),
{
    let ghost s = old(i).remaining();
    proof {
        old(i).lemma_position();
        crate::reader::lemma_leb_status(s, 32, false);
    }
    let count = read_u32_imm(i)?;
    proof {
        crate::decode::lemma_rest_advance(old(i).source(), old(i).position(), u32_dec(s).2);
        i.lemma_position();
    }
    let t = read_valtype(i)?;
    Ok((count, t))
}

/// The function parser.
pub struct FunctionParser;

impl FunctionParser {
    /// Parses the code of function `function_idx`, which lies at `function_unparsed` in `source`,
    /// into `builder`. The locals are the parameters, then the declared locals. The body must
    /// validate: a validation error met anywhere in it is returned. For a body without control
    /// flow (`straight_body`) the outcome is exact: it succeeds if and only if the run leaves an
    /// unpoisoned context whose stack holds exactly the results, else the validation error is
    /// returned; on success the variable count is the run's and the entry block holds the
    /// run's instructions.
    pub fn parse_single_function(
        source: &[u8],
        function_idx: FuncIdx,
        offset: usize,
        size: usize,
        module: &ModuleMetadata,
        builder: &mut FunctionIRBuilder,
    ) -> (r: Result<(), ParserError>)
        requires
            old(builder).wf(),
        ensures
            offset as int + size as int > source@.len() ==> r == Err::<(), ParserError>(
                ParserError::UnexpectedEOF,
            ),
            function_idx >= module.functions@.len() ==> r is Err,
            function_idx < module.functions@.len() && module.functions@[function_idx as int].type_idx
                >= module.function_types@.len() ==> r is Err,
            ({
                let code = rest(source@.subrange(0, offset + size), offset as int);
                let d = locals_dec(code);
                &&& offset + size <= source@.len() && function_idx < module.functions@.len()
                    && module.functions@[function_idx as int].type_idx < module.function_types@.len()
                    && d.0 != LEB_OK() ==> r == Err::<(), ParserError>(dec_err(d.0))
                &&& r is Ok ==> {
                    let ft = module.function_types@[module.functions@[function_idx as int].type_idx as int];
                    &&& d.0 == LEB_OK()
                    &&& total_locals(d.1) <= u32::MAX
                    &&& final(builder).wf()
                    &&& final(builder).live(final(builder).current())
                    &&& final(builder).func_type_spec()@ == ft@
                    &&& final(builder).locals_spec() == old(builder).locals_spec() + ft@.0
                        + expand_locals(d.1)
                    &&& final(builder).current() == old(builder).count() + 1
                    &&& final(builder).live(old(builder).count() as BasicBlockID)
                    &&& final(builder).block(final(builder).current()).terminator is Return
                    &&& ft@.1.len() < INVALID_VAR ==> final(builder).num_vars_spec() >= ft@.1.len()
                }
                &&& offset + size <= source@.len() && function_idx < module.functions@.len()
                    && module.functions@[function_idx as int].type_idx < module.function_types@.len()
                    && d.0 == LEB_OK() && total_locals(d.1) <= u32::MAX && module.function_types@[module.functions@[
                    function_idx as int].type_idx as int]@.1.len() == 0 && starts_with_end(rest(code, d.2 as int))
                    && old(builder).count() + 2 < NO_BB ==> r is Ok
                &&& offset + size <= source@.len() && function_idx < module.functions@.len()
                    && module.functions@[function_idx as int].type_idx < module.function_types@.len()
                    && d.0 == LEB_OK() && total_locals(d.1) <= u32::MAX && module.function_types@[module.functions@[
                    function_idx as int].type_idx as int]@.1.len() > 0 && starts_with_end(rest(code, d.2 as int))
                    && old(builder).count() + 2 < NO_BB ==> (r matches Err(ParserError::ValidationError(_)))
                &&& offset + size <= source@.len() && function_idx < module.functions@.len()
                    && module.functions@[function_idx as int].type_idx < module.function_types@.len()
                    && d.0 == LEB_OK() && total_locals(d.1) > u32::MAX ==> {
                    &&& (r matches Err(ParserError::Msg(m)) && m@ == "too many locals"@)
                    &&& final(builder).locals_spec() == old(builder).locals_spec() + module.function_types@[
                        module.functions@[function_idx as int].type_idx as int]@.0
                }
                &&& offset + size <= source@.len() && function_idx < module.functions@.len()
                    && module.functions@[function_idx as int].type_idx < module.function_types@.len()
                    && d.0 == LEB_OK() && total_locals(d.1) <= u32::MAX && old(builder).count() + 2 < NO_BB
                    ==> {
                    let ft = module.function_types@[module.functions@[function_idx as int].type_idx as int];
                    forall|rs: Seq<WasmBinaryReader>, re: Seq<WasmBinaryReader>, xs: Seq<Context>, os: Seq<InstructionEncoder>|
                        #[trigger] straight_body(source@.subrange(0, offset + size), offset + d.2, module,
                            ft@.0 + expand_locals(d.1), ft@.1, rs, re, xs, os) ==> {
                            let m = xs.last().model();
                            &&& (r is Ok <==> !m.poisoned && extract_result(m, ft@.1, true) is Some)
                            &&& r is Err ==> (r matches Err(ParserError::ValidationError(_)))
                            &&& r is Ok ==> final(builder).num_vars_spec() == m.var_count
                            &&& r is Ok ==> final(builder).stored(old(builder).count() as BasicBlockID).instructions()
                                == os.last().instructions()
                        }
                }
            }),
            r is Err ==> final(builder).num_vars_spec() == old(builder).num_vars_spec(),
    {
        if offset > source.len() || size > source.len() - offset {
            return Err(ParserError::UnexpectedEOF);
        }
        let mut binary_source = WasmBinaryReader::new(source);
        binary_source.advance(offset);
        binary_source.set_limit(offset + size);
        proof {
            binary_source.lemma_position();
        }
        if function_idx as usize >= module.functions.len() {
            return Err(ParserError::msg("function index out of bounds"));
        }
        let type_idx = module.functions[function_idx as usize].type_idx;
        if type_idx as usize >= module.function_types.len() {
            return Err(ParserError::msg("function type index out of bounds"));
        }
        let function_type = module.function_types[type_idx as usize].clone();
        builder.init(function_type);
        builder.begin_locals();
        let ghost code = binary_source.remaining();
        let ghost src = binary_source.source();
        let ghost p0 = binary_source.position();
        proof {
            crate::reader::lemma_leb_status(code, 32, false);
        }
        let num_locals = read_u32_imm(&mut binary_source)?;
        proof {
            crate::decode::lemma_rest_advance(binary_source.source(), p0, u32_dec(code).2);
        }
        let ghost p1 = binary_source.position();
        let ghost s1 = binary_source.remaining();
        proof {
            assert(s1 == rest(code, u32_dec(code).2 as int));
        }
        let mut local_defs: LocalDecls = local_defs_new();
        let mut num_declared_locals: u64 = 0;
        let mut k: u32 = 0;
        while k < num_locals
            invariant
                k <= num_locals,
                offset + size <= source@.len(),
                function_idx < module.functions@.len(),
                type_idx == module.functions@[function_idx as int].type_idx,
                type_idx < module.function_types@.len(),
                src == source@.subrange(0, offset + size),
                code == rest(src, offset as int),
                p0 == offset,
                u32_dec(code).0 == LEB_OK(),
                num_locals == u32_dec(code).1,
                p1 == p0 + u32_dec(code).2,
                s1 == rest(code, u32_dec(code).2 as int),
                builder.wf(),
                builder.locals_spec() == old(builder).locals_spec() + module.function_types@[type_idx as int]@.0,
                builder.count() == old(builder).count(),
                builder.current() == old(builder).current(),
                builder.num_vars_spec() == old(builder).num_vars_spec(),
                builder.func_type_spec()@ == module.function_types@[type_idx as int]@,
                binary_source.source() == src,
                binary_source.position() >= p1,
                s1 == rest(binary_source.source(), p1),
                ({
                    let t = local_decls_dec(binary_source.remaining(), (num_locals - k) as nat);
                    local_decls_dec(s1, num_locals as nat) == (t.0, local_defs_items(local_defs) + t.1, ((
                    binary_source.position() - p1) + t.2) as nat)
                }),
                local_defs_items(local_defs).len() == k,
                num_declared_locals == total_locals(local_defs_items(local_defs)),
                num_declared_locals <= k as int * 0xFFFF_FFFF,
            decreases num_locals - k,
        {
            let ghost cur = binary_source.remaining();
            let ghost pos = binary_source.position();
            proof {
                binary_source.lemma_position();
                lemma_local_decl_dec_len(cur);
            }
            let def = match read_local_decl(&mut binary_source) {
                Ok(def) => def,
                Err(e) => {
                    proof {
                        assert(local_defs_items(local_defs) + Seq::<(u32, ValType)>::empty() =~= local_defs_items(local_defs));
                    }
                    return Err(e);
                },
            };
            proof {
                let a = local_decl_dec(cur);
                assert(rest(cur, a.2 as int) == binary_source.remaining()) by {
                    binary_source.lemma_position();
                    if pos <= binary_source.source().len() {
                        assert(rest(cur, a.2 as int) =~= rest(binary_source.source(), pos + a.2));
                    }
                }
                let b = local_decls_dec(binary_source.remaining(), (num_locals - k - 1) as nat);
                assert(local_defs_items(local_defs).push(def) + b.1 =~= local_defs_items(local_defs) + (seq![def] + b.1));
                assert(local_defs_items(local_defs).push(def).drop_last() =~= local_defs_items(local_defs));
                assert((k as int + 1) * 0xFFFF_FFFF == k as int * 0xFFFF_FFFF + 0xFFFF_FFFF) by (nonlinear_arith);
                assert(k as int * 0xFFFF_FFFF <= 0xFFFF_FFFE * 0xFFFF_FFFF) by (nonlinear_arith)
                    requires
                        k < 0xFFFF_FFFF,
                ;
            }
            local_defs_push(&mut local_defs, def);
            num_declared_locals = num_declared_locals + def.0 as u64;
            k = k + 1;
        }
        proof {
            assert(local_defs_items(local_defs) + Seq::<(u32, ValType)>::empty() =~= local_defs_items(local_defs));
            assert(binary_source.position() == p0 + locals_dec(code).2);
            crate::decode::lemma_rest_advance(src, p0, locals_dec(code).2);
            binary_source.lemma_position();
            if starts_with_end(rest(code, locals_dec(code).2 as int)) {
                assert(binary_source.remaining() == rest(code, locals_dec(code).2 as int));
            }
        }
        if num_declared_locals > 0xFFFF_FFFF {
            return Err(ParserError::msg("too many locals"));
        }
        let mut ctxt_locals = module.function_types[type_idx as usize].params();
        let ghost params = ctxt_locals@;
        proof {
            assert(local_defs_items(local_defs).subrange(0, 0) =~= Seq::<(u32, ValType)>::empty());
            assert(ctxt_locals@ =~= params + expand_locals(local_defs_items(local_defs).subrange(0, 0)));
        }
        let mut local_idx: u32 = 0;
        let mut j: usize = 0;
        while j < local_defs_len(&local_defs)
            invariant
                j <= local_defs_items(local_defs).len(),
                params == module.function_types@[type_idx as int]@.0,
                ctxt_locals@ == params + expand_locals(local_defs_items(local_defs).subrange(0, j as int)),
                builder.wf(),
                builder.locals_spec() == old(builder).locals_spec() + params + expand_locals(
                    local_defs_items(local_defs).subrange(0, j as int),
                ),
                builder.count() == old(builder).count(),
                builder.current() == old(builder).current(),
                builder.num_vars_spec() == old(builder).num_vars_spec(),
                builder.func_type_spec()@ == module.function_types@[type_idx as int]@,
                total_locals(local_defs_items(local_defs)) <= 0xFFFF_FFFF,
                local_idx == total_locals(local_defs_items(local_defs).subrange(0, j as int)),
            decreases local_defs_items(local_defs).len() - j,
        {
            let (count, val_type) = local_defs_get(&local_defs, j);
            proof {
                lemma_total_prefix(local_defs_items(local_defs), j + 1);
                assert(local_defs_items(local_defs).subrange(0, j + 1).drop_last() =~= local_defs_items(local_defs).subrange(0, j as int));
            }
            let ghost base = ctxt_locals@;
            let mut c: u32 = 0;
            while c < count
                invariant
                    c <= count,
                    local_idx as int + count <= 0xFFFF_FFFF,
                    ctxt_locals@ == base + Seq::new(c as nat, |k: int| val_type),
                    builder.wf(),
                    builder.locals_spec() == old(builder).locals_spec() + ctxt_locals@,
                    builder.count() == old(builder).count(),
                    builder.current() == old(builder).current(),
                    builder.num_vars_spec() == old(builder).num_vars_spec(),
                    builder.func_type_spec()@ == module.function_types@[type_idx as int]@,
                decreases count - c,
            {
                builder.add_local(local_idx + c, val_type);
                ctxt_locals.push(val_type);
                c = c + 1;
                proof {
                    assert(ctxt_locals@ =~= base + Seq::new(c as nat, |k: int| val_type));
                }
            }
            local_idx = local_idx + count;
            j = j + 1;
            proof {
                assert(params + expand_locals(local_defs_items(local_defs).subrange(0, j as int)) =~= base + Seq::new(count as nat, |k: int| val_type));
            }
        }
        proof {
            assert(local_defs_items(local_defs).subrange(0, j as int) =~= local_defs_items(local_defs));
        }
        builder.end_locals();
        let mut ctxt = Context {
            module,
            stack: ParserStack::new(),
            locals: ctxt_locals,
            var_count: 0,
            poison: None,
        };
        let entry_basic_block = builder.try_reserve_bb()?;
        let exit_basic_block = builder.try_reserve_bb()?;
        let results = module.function_types[type_idx as usize].results();
        let ghost m0 = ctxt.model();
        builder.set_bb_phi_inputs(exit_basic_block, &mut ctxt, &results);
        let mut labels: Vec<Label> = Vec::new();
        labels.push(
            Label {
                bb_id: exit_basic_block,
                loop_after_bb_id: None,
                loop_after_result_type: None,
                result_type: module.function_types[type_idx as usize].results(),
            },
        );
        proof {
            assert(builder.stored(entry_basic_block).terminator_spec() is None);
            assert(builder.current() != entry_basic_block);
        }
        builder.continue_bb(entry_basic_block);
        proof {
            assert(builder.live(exit_basic_block));
            assert(builder.current_bb_instrs.terminator_spec() is None);
        }
        let ghost b1 = *builder;
        let ghost m1 = ctxt.model();
        proof {
            if module.function_types@[type_idx as int]@.1.len() == 0 {
                assert(results@.len() == 0);
                assert(labels@.len() == 1);
                assert(labels@[0].result_type@.len() == 0);
                assert(ctxt.poison is None);
                assert(crate::context::m_depth(m1) == 0);
                assert(crate::basic_blocks::extract_result(m1, labels@[0].result_type@, true) is Some);
            }
            if module.function_types@[type_idx as int]@.1.len() > 0 {
                lemma_create_all_keeps_stack(m0, results@);
                assert(results@.len() > 0);
                assert(labels@.len() == 1);
                assert(labels@[0].result_type@ == results@);
                assert(crate::context::m_depth(m1) == 0);
                assert(crate::basic_blocks::extract_result(m1, labels@[0].result_type@, true) is None);
            }
        }
        let ghost fe = starts_with_end(binary_source.remaining());
        let ghost lab0 = labels@;
        let ghost cx0 = ctxt;
        let ghost ob0 = builder.current_bb_instrs;
        let ghost bs0 = binary_source;
        let ghost src_f = source@.subrange(0, offset + size);
        let ghost st = offset + locals_dec(code).2;
        let ghost ft = module.function_types@[type_idx as int];
        let ghost locs = ft@.0 + expand_locals(locals_dec(code).1);
        proof {
            assert(locals_dec(code).1 == local_defs_items(local_defs));
            assert(results@ == ft@.1);
            assert(lab0.len() == 1 && lab0[0].result_type@ == results@);
            assert(m1 == entry_model(ft@.1));
            assert forall|rs: Seq<WasmBinaryReader>, re: Seq<WasmBinaryReader>, xs: Seq<Context>, os: Seq<InstructionEncoder>|
                #[trigger] straight_body(src_f, st, module, locs, ft@.1, rs, re, xs, os)
                implies straight_block(bs0.source(), bs0.position(), &cx0, ob0, rs, re, xs, os) by {
            }
        }
        match parse_basic_blocks(&mut binary_source, &mut ctxt, &mut labels, builder) {
            Ok(()) => {},
            Err(e) => {
                proof {
                    assert forall|rs: Seq<WasmBinaryReader>, re: Seq<WasmBinaryReader>, xs: Seq<Context>, os: Seq<InstructionEncoder>|
                        #[trigger] straight_body(src_f, st, module, locs, ft@.1, rs, re, xs, os) implies false by {
                        assert(straight_block(bs0.source(), bs0.position(), &cx0, ob0, rs, re, xs, os));
                    }
                }
                return Err(e);
            },
        }
        let ghost mpb = ctxt.model();
        let ghost ipb = builder.current_bb_instrs;
        proof {
            if ft@.1.len() < INVALID_VAR {
                lemma_create_all_count(m0, ft@.1);
                assert(ctxt.var_count >= ft@.1.len());
            }
        }
        proof {
            if fe && module.function_types@[type_idx as int]@.1.len() > 0 {
                assert(!crate::basic_blocks::end_validates(m1, labels@));
                assert(ctxt.model() == crate::basic_blocks::end_model(m1, labels@));
                assert(ctxt.model().poisoned);
                assert(ctxt.poison is Some);
            }
            assert(b1.live(exit_basic_block));
            assert(builder.live(exit_basic_block));
            assert forall|rs: Seq<WasmBinaryReader>, re: Seq<WasmBinaryReader>, xs: Seq<Context>, os: Seq<InstructionEncoder>|
                #[trigger] straight_body(src_f, st, module, locs, ft@.1, rs, re, xs, os)
                implies mpb == crate::basic_blocks::end_model(xs.last().model(), lab0)
                    && ipb.instructions() == os.last().instructions()
                    && ipb.terminator_spec() == Some(ControlInstruction::End)
                    && builder.current() == entry_basic_block by {
                assert(straight_block(bs0.source(), bs0.position(), &cx0, ob0, rs, re, xs, os));
            }
        }
        let ends_flow = match builder.current_bb_instrs.peek_terminator() {
            ControlInstruction::Unreachable | ControlInstruction::Return => true,
            _ => false,
        };
        if !ends_flow {
            let _ = validate_and_extract_result_from_stack(&mut ctxt, &results, false);
        }
        let ghost mv = ctxt.model();
        proof {
            assert forall|rs: Seq<WasmBinaryReader>, re: Seq<WasmBinaryReader>, xs: Seq<Context>, os: Seq<InstructionEncoder>|
                #[trigger] straight_body(src_f, st, module, locs, ft@.1, rs, re, xs, os)
                implies (mv.poisoned <==> (xs.last().model().poisoned || extract_result(xs.last().model(), ft@.1, true) is None))
                    && mv.var_count == xs.last().model().var_count by {
                let m = xs.last().model();
                assert(mpb == crate::basic_blocks::end_model(m, lab0));
                assert(!ends_flow);
                assert(extract_result(mpb, ft@.1, false) == extract_result(m, ft@.1, false));
                if extract_result(m, ft@.1, true) is Some {
                    assert(extract_result(m, ft@.1, false) is Some);
                }
            }
        }
        let ghost cur_pb = builder.current();
        proof {
            assert(b1.live(entry_basic_block));
            assert(builder.live(entry_basic_block));
            assert(entry_basic_block != exit_basic_block);
        }
        builder.continue_bb(exit_basic_block);
        proof {
            if cur_pb == entry_basic_block {
                assert(builder.stored(entry_basic_block) == ipb);
            }
        }
        let return_vars = builder.current_bb_input_var_ids_get();
        let ghost b2 = *builder;
        proof {
            assert(b2.live(entry_basic_block));
        }
        builder.terminate_return(return_vars);
        proof {
            assert(builder.live(entry_basic_block) == b2.live(entry_basic_block));
            assert(builder.stored(entry_basic_block) == b2.stored(entry_basic_block));
            assert(exit_basic_block == old(builder).count() + 1);
            assert(builder.block(builder.current()).terminator is Return);
            if cur_pb == entry_basic_block {
                assert(builder.stored(entry_basic_block) == ipb);
            }
        }
        match ctxt.poison {
            Some(poison) => {
                return Err(ParserError::ValidationError(poison));
            },
            None => {},
        }
        builder.set_var_count(ctxt.var_count);
        proof {
            let d = locals_dec(code);
            assert(d.1 == local_defs_items(local_defs));
            assert(d.0 == LEB_OK());
            assert(total_locals(d.1) <= u32::MAX);
            assert(builder.wf());
            assert(builder.live(builder.current()));
            assert(builder.live(entry_basic_block));
            assert(builder.func_type_spec()@ == module.function_types@[type_idx as int]@);
            assert(builder.locals_spec() == old(builder).locals_spec() + module.function_types@[type_idx as int]@.0 + expand_locals(d.1));
        }
        Ok(())
    }
}

} // verus!
