//! Splits a function body into basic blocks: instructions are parsed into the current block
//! until a control instruction ends it, which then opens, joins or leaves blocks.
use crate::context::{Context, CtxModel, m_create, m_depth, m_poison, m_pop_typed, poison_if};
use crate::error::{ParserError, ValidationError};
use crate::function_builder::{FunctionIRBuilder, NO_BB, m_create_all};
use crate::module::ModuleMetadata;
use crate::ir::{BasicBlockGlue, BasicBlockID, ControlInstruction, Instruction, InstructionEncoder, Variable, VariableID};
use crate::opcodes::{instr_post, lemma_instr_det, parse_instruction, same_end, same_start};
use crate::reader::{LEB_OK, WasmBinaryReader};
use crate::decode::u32_dec;
use crate::stack::ParserStack;
use crate::types::{BlockType, NumType, RefType, ValType};
use vstd::prelude::*;

verus! {

/// A jump target of the enclosing structured instructions.
#[derive(Debug, Clone)]
pub struct Label {
    /// The block that a branch to this label jumps to.
    pub bb_id: BasicBlockID,
    /// The types of the values that a branch to this label carries.
    pub result_type: Vec<ValType>,
    /// For a loop: the block after the loop, which its `end` jumps to.
    pub loop_after_bb_id: Option<BasicBlockID>,
    /// For a loop: the types of the values that its `end` carries.
    pub loop_after_result_type: Option<Vec<ValType>>,
}

/// What checking the topmost values of the innermost block against `outs` gives: their ids, or
/// `None` if there are too few, too many (when `check_empty` is set) or one of the wrong type.
pub open spec fn extract_result(m: CtxModel, outs: Seq<ValType>, check_empty: bool) -> Option<
    Seq<VariableID>,
> {
    let n = outs.len();
    let top = m.stack.len() - n;
    if m_depth(m) < n || (check_empty && m_depth(m) > n) {
        None
    } else if exists|k: int| 0 <= k < n && (#[trigger] m.stack[top + k]).type_ != outs[k] {
        None
    } else {
        Some(Seq::new(n, |k: int| m.stack[top + k].id))
    }
}

/// The message for values of the types `found` left at the end of a block that should end with
/// values of the types `expected`, as `format!` writes it with both lists in std's `Debug` form.
pub uninterp spec fn stack_state_text(found: Seq<ValType>, expected: Seq<ValType>) -> Seq<char>;

/// The types of the values of the innermost block of `m`, bottom first.
pub open spec fn block_types(m: CtxModel) -> Seq<ValType> {
    m.stack.subrange(m.stash.last() as int, m.stack.len() as int).map_values(|v: Variable| v.type_)
}

/// The message for values `found` left at the end of a block that should end with `expected`:
/// both lists in std's `Debug` form, through `format!`. The text is named, not stated: it is
/// `stack_state_text` of the two lists, in that order.
#[verifier::external_body]
fn stack_state_message(found: &Vec<ValType>, expected: &Vec<ValType>) -> (r: String)
    ensures
        r@ == stack_state_text(found@, expected@),
{
    format!("unexpected stack state at end of function: {:?}, expected {:?}", found, expected)
}

/// Checks the topmost values of the innermost block against `out_params` and returns their
/// ids; on a mismatch the context is poisoned and no id is returned.
pub fn validate_and_extract_result_from_stack(
    ctxt: &mut Context,
    out_params: &Vec<ValType>,
    check_empty_stack: bool,
) -> (r: Vec<VariableID>)
    requires
        old(ctxt).wf(),
    ensures
        old(ctxt).frame(&*final(ctxt)),
        extract_result(old(ctxt).model(), out_params@, check_empty_stack) matches Some(ids) ==> r@
            == ids && final(ctxt).model() == old(ctxt).model() && final(ctxt).poison == old(ctxt).poison,
        extract_result(old(ctxt).model(), out_params@, check_empty_stack) is None ==> r@
            == Seq::<VariableID>::empty() && final(ctxt).model() == m_poison(old(ctxt).model()),
        old(ctxt).poison is None && check_empty_stack && m_depth(old(ctxt).model()) > out_params@.len()
            ==> (final(ctxt).poison matches Some(ValidationError::Msg(text)) && text@ == stack_state_text(
            block_types(old(ctxt).model()),
            out_params@,
        )),
{
    let mut return_vars: Vec<VariableID> = Vec::new();
    let stack_depth = ctxt.stack.len();
    let n = out_params.len();
    if stack_depth < n {
        ctxt.poison_msg("stack underflow in target label");
        return Vec::new();
    }
    if check_empty_stack && stack_depth > n {
        let total = ctxt.stack.stack.len();
        let base = total - stack_depth;
        let mut found: Vec<ValType> = Vec::new();
        let mut j: usize = 0;
        while j < stack_depth
            invariant
                ctxt.wf(),
                ctxt.stack.wf(),
                stack_depth == ctxt.stack.depth(),
                base + stack_depth == total,
                total == ctxt.stack.stack@.len(),
                j <= stack_depth,
                *ctxt == *old(ctxt),
                base == ctxt.stack.stash@.last(),
                found@ == ctxt.stack.stack@.subrange(base as int, base + j).map_values(|v: Variable| v.type_),
            decreases stack_depth - j,
        {
            found.push(ctxt.stack.stack[base + j].type_);
            j = j + 1;
            proof {
                assert(found@ =~= ctxt.stack.stack@.subrange(base as int, base + j).map_values(|v: Variable| v.type_));
            }
        }
        proof {
            assert(found@ =~= block_types(ctxt.model()));
        }
        let message = stack_state_message(&found, out_params);
        ctxt.poison(ValidationError::Msg(message));
        return Vec::new();
    }
    let ghost m = ctxt.model();
    let ghost top = m.stack.len() - n;
    let mut k: usize = 0;
    while k < n
        invariant
            k <= n,
            n == out_params@.len(),
            n <= stack_depth,
            !(check_empty_stack && stack_depth > n),
            stack_depth == m_depth(m),
            ctxt.wf(),
            ctxt.model() == m,
            m == old(ctxt).model(),
            *ctxt == *old(ctxt),
            top == m.stack.len() - n,
            forall|j: int| 0 <= j < k ==> (#[trigger] m.stack[top + j]).type_ == out_params@[j],
            return_vars@ == Seq::new(k as nat, |j: int| m.stack[top + j].id),
        decreases n - k,
    {
        let idx = stack_depth - n + k;
        let v = ctxt.stack.get(idx);
        if v.type_ != out_params[k] {
            proof {
                assert(m.stack[top + k].type_ != out_params@[k as int]);
            }
            ctxt.poison_msg("mismatched return type in target label");
            return Vec::new();
        }
        return_vars.push(v.id);
        k = k + 1;
        proof {
            assert(return_vars@ =~= Seq::new(k as nat, |j: int| m.stack[top + j].id));
        }
    }
    return_vars
}

/// The parameter types of a block type, in a module with function types `types`.
pub open spec fn bt_inputs(bt: BlockType, types: Seq<crate::functypes::FuncType>) -> Seq<ValType> {
    match bt {
        BlockType::FunctionSig(idx) => if idx < types.len() {
            types[idx as int]@.0
        } else {
            Seq::empty()
        },
        _ => Seq::empty(),
    }
}

/// The result types of a block type, in a module with function types `types`.
pub open spec fn bt_returns(bt: BlockType, types: Seq<crate::functypes::FuncType>) -> Seq<ValType> {
    match bt {
        BlockType::Empty => Seq::empty(),
        BlockType::ShorthandFunc(t) => seq![t],
        BlockType::FunctionSig(idx) => if idx < types.len() {
            types[idx as int]@.1
        } else {
            Seq::empty()
        },
    }
}

/// The ids of those of the first `k` values in `vars` whose type is the one in `types`.
pub open spec fn matching_ids(vars: Seq<Variable>, types: Seq<ValType>, k: nat) -> Seq<VariableID>
    decreases k,
{
    if k == 0 {
        Seq::empty()
    } else {
        let p = matching_ids(vars, types, (k - 1) as nat);
        if vars[k - 1].type_ == types[k - 1] {
            p.push(vars[k - 1].id)
        } else {
            p
        }
    }
}

/// Whether one of the first `k` values in `vars` has another type than the one in `types`.
pub open spec fn mismatch_below(vars: Seq<Variable>, types: Seq<ValType>, k: nat) -> bool
    decreases k,
{
    k > 0 && (mismatch_below(vars, types, (k - 1) as nat) || vars[k - 1].type_ != types[k - 1])
}

/// Opening a block with parameters `inputs`: its topmost values become the block's own (as far
/// as there are enough), and the ids of those of the right type are handed to it. Too few values
/// or a value of the wrong type poison the context.
pub open spec fn setup_effect(m: CtxModel, inputs: Seq<ValType>) -> (CtxModel, Seq<VariableID>) {
    let n = inputs.len();
    let keep: int = if n <= m_depth(m) {
        n as int
    } else {
        m_depth(m)
    };
    let base = m.stack.len() - keep;
    let vars = m.stack.subrange(base, m.stack.len() as int);
    let bad = n > m_depth(m) || mismatch_below(vars, inputs, keep as nat);
    let m1 = CtxModel { stash: m.stash.push(base as usize), ..m };
    (poison_if(m1, bad), matching_ids(vars, inputs, keep as nat))
}

/// A block type together with the operations that need the module's function types.
pub struct BTWrapper(pub BlockType);

impl BTWrapper {
    pub fn block_returns(&self, ctxt: &Context) -> (r: Vec<ValType>)
        ensures
            r@ == bt_returns(self.0, ctxt.module.function_types@),
    {
        match self.0 {
            BlockType::Empty => Vec::new(),
            BlockType::ShorthandFunc(val_type) => {
                let mut v = Vec::new();
                v.push(val_type);
                proof {
                    assert(v@ =~= seq![val_type]);
                }
                v
            },
            BlockType::FunctionSig(idx) => {
                if (idx as usize) < ctxt.module.function_types.len() {
                    ctxt.module.function_types[idx as usize].results()
                } else {
                    Vec::new()
                }
            },
        }
    }

    pub fn block_returns_count(&self, ctxt: &Context) -> (n: usize)
        ensures
            n == bt_returns(self.0, ctxt.module.function_types@).len(),
    {
        match self.0 {
            BlockType::Empty => 0,
            BlockType::ShorthandFunc(_) => 1,
            BlockType::FunctionSig(idx) => {
                if (idx as usize) < ctxt.module.function_types.len() {
                    ctxt.module.function_types[idx as usize].num_results()
                } else {
                    0
                }
            },
        }
    }

    pub fn block_inputs(&self, ctxt: &Context) -> (r: Vec<ValType>)
        ensures
            r@ == bt_inputs(self.0, ctxt.module.function_types@),
    {
        match self.0 {
            BlockType::FunctionSig(idx) => {
                if (idx as usize) < ctxt.module.function_types.len() {
                    ctxt.module.function_types[idx as usize].params()
                } else {
                    Vec::new()
                }
            },
            _ => Vec::new(),
        }
    }

    pub fn block_inputs_count(&self, ctxt: &Context) -> (n: usize)
        ensures
            n == bt_inputs(self.0, ctxt.module.function_types@).len(),
    {
        match self.0 {
            BlockType::FunctionSig(idx) => {
                if (idx as usize) < ctxt.module.function_types.len() {
                    ctxt.module.function_types[idx as usize].num_params()
                } else {
                    0
                }
            },
            _ => 0,
        }
    }

    /// Opens the block on the operand stack (see `setup_effect`).
    pub fn setup_block_stack(&self, ctxt: &mut Context) -> (r: Vec<VariableID>)
        requires
            old(ctxt).wf(),
        ensures
            final(ctxt).wf(),
            final(ctxt).var_count >= old(ctxt).var_count,
            final(ctxt).module == old(ctxt).module,
            final(ctxt).locals@ == old(ctxt).locals@,
            old(ctxt).poison.is_some() ==> final(ctxt).poison == old(ctxt).poison,
            ({
                let (m, ids) = setup_effect(
                    old(ctxt).model(),
                    bt_inputs(self.0, old(ctxt).module.function_types@),
                );
                &&& final(ctxt).model() == m
                &&& r@ == ids
            }),
    {
        let inputs = self.block_inputs(ctxt);
        let ghost m = ctxt.model();
        let input_length = inputs.len();
        let depth = ctxt.stack.len();
        let keep = if input_length <= depth {
            input_length
        } else {
            ctxt.poison_msg("stack underflow in block inputs");
            depth
        };
        ctxt.stack.stash_with_keep(keep);
        proof {
            assert(keep <= m_depth(m));
            assert(m.stash.last() <= m.stack.len());
            assert(keep <= m.stack.len());
            assert(ctxt.stack.stack.len() == m.stack.len());
            assert(ctxt.stack.stash@.last() == (m.stack.len() - keep) as usize);
            assert(ctxt.stack.stash@.last() == m.stack.len() - keep);
            assert(ctxt.stack.depth() == keep);
        }
        let ghost vars = m.stack.subrange(m.stack.len() - keep, m.stack.len() as int);
        let mut input_vars: Vec<VariableID> = Vec::new();
        let mut k: usize = 0;
        while k < keep
            invariant
                k <= keep,
                keep <= inputs@.len(),
                inputs@ == bt_inputs(self.0, old(ctxt).module.function_types@),
                keep == if inputs@.len() <= m_depth(m) {
                    inputs@.len() as int
                } else {
                    m_depth(m)
                },
                m == old(ctxt).model(),
                ctxt.wf(),
                ctxt.module == old(ctxt).module,
                ctxt.locals@ == old(ctxt).locals@,
                old(ctxt).poison.is_some() ==> ctxt.poison == old(ctxt).poison,
                ctxt.stack.stack@ == m.stack,
                ctxt.stack.stash@ == m.stash.push((m.stack.len() - keep) as usize),
                ctxt.var_count == m.var_count,
                vars == m.stack.subrange(m.stack.len() - keep, m.stack.len() as int),
                ctxt.stack.depth() == keep,
                ctxt.model().poisoned == (m.poisoned || inputs@.len() > m_depth(m) || mismatch_below(
                    vars,
                    inputs@,
                    k as nat,
                )),
                input_vars@ == matching_ids(vars, inputs@, k as nat),
            decreases keep - k,
        {
            let v = ctxt.stack.get(k);
            proof {
                assert(v == vars[k as int]);
            }
            if v.type_ != inputs[k] {
                ctxt.poison_msg("mismatched input signature in target label");
            } else {
                input_vars.push(v.id);
            }
            k = k + 1;
        }
        proof {
            let (mm, ids) = setup_effect(m, inputs@);
            assert(ctxt.model().stack == mm.stack);
            assert(ctxt.model().stash == mm.stash);
            assert(ctxt.model().var_count == mm.var_count);
            assert(ctxt.model().poisoned == mm.poisoned);
        }
        input_vars
    }
}


/// What parsing basic blocks keeps of the builder, up to the liveness of its current block: its
/// well-formedness, a current block that is either the one it started with or a new one, the
/// live blocks, the instructions stored for every other block, and the function data.
pub open spec fn builder_progress(b0: &FunctionIRBuilder, b1: &FunctionIRBuilder) -> bool {
    &&& b1.wf()
    &&& b1.count() >= b0.count()
    &&& (b1.current() == b0.current() || b1.current() >= b0.count())
    &&& forall|id: BasicBlockID| #[trigger] b0.live(id) ==> b1.live(id)
    &&& forall|id: BasicBlockID|
        b0.live(id) && id != b0.current() ==> #[trigger] b1.stored(id) == b0.stored(id)
    &&& forall|id: BasicBlockID|
        b0.live(id) && id != b0.current() ==> (#[trigger] b1.block(id)).terminator == b0.block(id).terminator
    &&& b1.locals_spec() == b0.locals_spec()
    &&& b1.num_vars_spec() == b0.num_vars_spec()
    &&& b1.func_type_spec() == b0.func_type_spec()
}

/// What parsing basic blocks keeps of the builder (see `builder_progress`), with a live current
/// block.
pub open spec fn builder_step(b0: &FunctionIRBuilder, b1: &FunctionIRBuilder) -> bool {
    &&& builder_progress(b0, b1)
    &&& b1.live(b1.current())
}

/// How block `id` of `b` ends.
pub open spec fn term_of(b: &FunctionIRBuilder, id: BasicBlockID) -> BasicBlockGlue {
    b.block(id).terminator
}

/// Whether `s` starts with the `end` opcode.
pub open spec fn starts_with_end(s: Seq<u8>) -> bool {
    s.len() > 0 && s[0] == 0x0Bu8
}

/// The block that a branch to label `l` (counted from the innermost) jumps to.
pub open spec fn label_target(labels: Seq<Label>, l: u32) -> BasicBlockID {
    labels[labels.len() - 1 - l].bb_id
}

/// The types that a branch to label `l` carries.
pub open spec fn label_types(labels: Seq<Label>, l: u32) -> Seq<ValType> {
    labels[labels.len() - 1 - l].result_type@
}

/// Where the `end` of the innermost label's block jumps: after the loop for a loop, else the
/// label's block.
pub open spec fn end_target(l: Label) -> BasicBlockID {
    match l.loop_after_bb_id {
        Some(id) => id,
        None => l.bb_id,
    }
}

/// The types that the `end` of the innermost label's block carries.
pub open spec fn end_types(l: Label) -> Seq<ValType> {
    match l.loop_after_result_type {
        Some(t) => t@,
        None => l.result_type@,
    }
}

/// The types that an `end` checks the stack against: the function's results at function scope,
/// else what the innermost block carries.
pub open spec fn end_result_types(labels: Seq<Label>) -> Seq<ValType> {
    if labels.len() == 1 {
        labels[0].result_type@
    } else {
        end_types(labels.last())
    }
}

/// Whether an `end` validates: with no label there is nothing to check; else the stack must
/// hold exactly the types of `end_result_types`.
pub open spec fn end_validates(m: CtxModel, labels: Seq<Label>) -> bool {
    labels.len() == 0 || extract_result(m, end_result_types(labels), true) is Some
}

/// The context after an `end`: unchanged where it validates, else poisoned.
pub open spec fn end_model(m: CtxModel, labels: Seq<Label>) -> CtxModel {
    poison_if(m, !end_validates(m, labels))
}

/// The ids of the values that a branch carrying `outs` takes from the stack; none where they
/// do not validate.
pub open spec fn extracted(m: CtxModel, outs: Seq<ValType>, check_empty: bool) -> Seq<VariableID> {
    match extract_result(m, outs, check_empty) {
        Some(ids) => ids,
        None => Seq::empty(),
    }
}

pub proof fn lemma_progress_refl(b: &FunctionIRBuilder)
    requires
        b.wf(),
    ensures
        builder_progress(b, b),
{
}

/// Progress composes.
pub proof fn lemma_progress_trans(b0: &FunctionIRBuilder, b1: &FunctionIRBuilder, b2: &FunctionIRBuilder)
    requires
        builder_progress(b0, b1),
        builder_progress(b1, b2),
    ensures
        builder_progress(b0, b2),
{
    assert forall|id: BasicBlockID| b0.live(id) && id != b0.current() implies #[trigger] b2.stored(id) == b0.stored(id) by {
        assert(b1.live(id));
        assert(id < b0.count());
        assert(id != b1.current());
        assert(b1.stored(id) == b0.stored(id));
    }
    assert forall|id: BasicBlockID| #[trigger] b0.live(id) implies b2.live(id) by {
        assert(b1.live(id));
    }
}

/// A step that changes nothing but the blocks `changed` (their phi nodes and terminators).
pub proof fn lemma_progress_same_but(b0: &FunctionIRBuilder, b1: &FunctionIRBuilder, b2: &FunctionIRBuilder, changed: Set<BasicBlockID>)
    requires
        builder_progress(b0, b1),
        b2.wf(),
        b2.same_but(b1, changed),
    ensures
        builder_progress(b0, b2),
{
    assert forall|id: BasicBlockID| b0.live(id) && id != b0.current() implies #[trigger] b2.stored(id) == b0.stored(id) by {
        assert(b1.live(id));
        assert(b1.stored(id) == b0.stored(id));
    }
    assert forall|id: BasicBlockID| #[trigger] b0.live(id) implies b2.live(id) by {
        assert(b1.live(id));
    }
    assert forall|id: BasicBlockID| b0.live(id) && id != b0.current() implies (#[trigger] b2.block(id)).terminator
        == b0.block(id).terminator by {
        assert(b1.live(id));
        assert(id < b0.count());
        assert(id != b1.current());
        assert(b2.live(id));
        assert(b1.block(id).terminator == b0.block(id).terminator);
    }
}

/// Reserving a block.
pub proof fn lemma_progress_reserve(b0: &FunctionIRBuilder, b1: &FunctionIRBuilder, b2: &FunctionIRBuilder)
    requires
        builder_progress(b0, b1),
        b2.wf(),
        b2.count() == b1.count() + 1,
        b2.current() == b1.current(),
        b2.locals_spec() == b1.locals_spec(),
        b2.num_vars_spec() == b1.num_vars_spec(),
        b2.func_type_spec() == b1.func_type_spec(),
        forall|k: BasicBlockID|
            #[trigger] b1.live(k) ==> b2.live(k) && b2.block(k) == b1.block(k) && b2.stored(k) == b1.stored(k),
    ensures
        builder_progress(b0, b2),
{
    assert forall|id: BasicBlockID| b0.live(id) && id != b0.current() implies #[trigger] b2.stored(id) == b0.stored(id) by {
        assert(b1.live(id));
        assert(b1.stored(id) == b0.stored(id));
    }
    assert forall|id: BasicBlockID| #[trigger] b0.live(id) implies b2.live(id) by {
        assert(b1.live(id));
    }
}

/// Continuing with block `x`, the starting block or a new one.
pub proof fn lemma_progress_continue(b0: &FunctionIRBuilder, b1: &FunctionIRBuilder, b2: &FunctionIRBuilder, x: BasicBlockID)
    requires
        builder_progress(b0, b1),
        x == b0.current() || x >= b0.count(),
        b2.wf(),
        b2.current() == x,
        b2.count() == b1.count(),
        b2.locals_spec() == b1.locals_spec(),
        b2.num_vars_spec() == b1.num_vars_spec(),
        b2.func_type_spec() == b1.func_type_spec(),
        forall|k: BasicBlockID| #[trigger] b2.live(k) == b1.live(k),
        forall|k: BasicBlockID|
            b1.live(k) && k != x && k != b1.current() ==> #[trigger] b2.stored(k) == b1.stored(k),
        forall|k: BasicBlockID| b1.live(k) ==> #[trigger] b2.block(k) == b1.block(k),
    ensures
        builder_progress(b0, b2),
{
    assert forall|id: BasicBlockID| b0.live(id) && id != b0.current() implies #[trigger] b2.stored(id) == b0.stored(id) by {
        assert(b1.live(id));
        assert(id < b0.count());
        assert(id != b1.current());
        assert(b1.stored(id) == b0.stored(id));
    }
    assert forall|id: BasicBlockID| #[trigger] b0.live(id) implies b2.live(id) by {
        assert(b1.live(id));
    }
}

/// Eliminating the current block, a new one.
pub proof fn lemma_progress_eliminate(b0: &FunctionIRBuilder, b1: &FunctionIRBuilder, b2: &FunctionIRBuilder)
    requires
        builder_progress(b0, b1),
        b1.current() >= b0.count(),
        b2.wf(),
        b2.current() == NO_BB,
        b2.count() == b1.count(),
        b2.locals_spec() == b1.locals_spec(),
        b2.num_vars_spec() == b1.num_vars_spec(),
        b2.func_type_spec() == b1.func_type_spec(),
        forall|k: BasicBlockID| k != b1.current() ==> #[trigger] b2.live(k) == b1.live(k),
        forall|k: BasicBlockID|
            k != b1.current() && b1.live(k) ==> #[trigger] b2.block(k) == b1.block(k) && b2.stored(k) == b1.stored(k),
    ensures
        builder_progress(b0, b2),
{
    assert forall|id: BasicBlockID| b0.live(id) && id != b0.current() implies #[trigger] b2.stored(id) == b0.stored(id) by {
        assert(b1.live(id));
        assert(id < b0.count());
        assert(id != b1.current());
        assert(b1.stored(id) == b0.stored(id));
        assert(b2.block(id) == b1.block(id));
    }
    assert forall|id: BasicBlockID| #[trigger] b0.live(id) implies b2.live(id) by {
        assert(b1.live(id));
        assert(id < b0.count());
        assert(id != b1.current());
    }
}

/// What parsing basic blocks keeps of the context: the module, the locals, the block boundaries
/// of the stack, its well-formedness, and a poison once set.
pub open spec fn ctxt_step(c0: &Context, c1: &Context) -> bool {
    &&& c1.module == c0.module
    &&& c1.locals@ == c0.locals@
    &&& c1.wf()
    &&& c1.stack.stash@ == c0.stack.stash@
    &&& c0.poison.is_some() ==> c1.poison == c0.poison
    &&& c1.var_count >= c0.var_count
}

/// Reading on never makes more bytes left.
pub proof fn lemma_remaining_shrinks(i0: WasmBinaryReader, i1: WasmBinaryReader)
    requires
        i1.source() == i0.source(),
        i1.position() >= i0.position(),
    ensures
        i1.remaining().len() <= i0.remaining().len(),
{
    i0.lemma_position();
    i1.lemma_position();
}

/// The label `depth` levels out from the innermost one, if there is one.
fn label_at(labels: &Vec<Label>, depth: u32) -> (r: Option<usize>)
    ensures
        depth < labels@.len() ==> r == Some((labels@.len() - 1 - depth) as usize),
        depth < labels@.len() ==> r is Some && r->0 == labels@.len() - 1 - depth,
        depth >= labels@.len() ==> r is None,
{
    if (depth as usize) < labels.len() {
        Some(labels.len() - 1 - depth as usize)
    } else {
        None
    }
}

/// `b1` is `b0` with one more block, now current, that holds nothing and ends with an `else`
/// marker that carries no variables.
pub open spec fn else_marked(b0: &FunctionIRBuilder, b1: &FunctionIRBuilder) -> bool {
    &&& b1.count() == b0.count() + 1
    &&& b1.current() == b0.count()
    &&& b1.current_bb_instrs.instructions() == Seq::<Instruction>::empty()
    &&& (term_of(b1, b1.current()) matches BasicBlockGlue::ElseMarker { output_vars } && output_vars@.len() == 0)
}

/// Parses the instructions that follow an unconditional branch up to the `end` of the enclosing
/// block, without keeping what they build: the stack and the poison are restored afterwards. If
/// that code ends with `else`, the current block gets an empty `else` marker of its own.
pub fn parse_until_next_end(
    i: &mut WasmBinaryReader,
    ctxt: &mut Context,
    labels: &mut Vec<Label>,
    builder: &mut FunctionIRBuilder,
) -> (r: Result<(), ParserError>)
    requires
        old(builder).wf(),
        old(builder).live(old(builder).current()),
        old(ctxt).wf(),
    ensures
        final(builder).num_vars_spec() == old(builder).num_vars_spec(),
        final(i).source() == old(i).source(),
        final(i).position() >= old(i).position(),
        r is Ok ==> {
            &&& builder_step(&*old(builder), &*final(builder))
            &&& ctxt_step(&*old(ctxt), &*final(ctxt))
            &&& final(ctxt).stack.stack@ == old(ctxt).stack.stack@
            &&& final(ctxt).poison == old(ctxt).poison
            &&& final(labels)@ == old(labels)@
            &&& final(builder).block(old(builder).current()) == old(builder).block(old(builder).current())
            &&& final(i).position() > old(i).position()
            &&& *final(builder) == *old(builder) || else_marked(&*old(builder), &*final(builder))
        },
        starts_with_end(old(i).remaining()) ==> {
            &&& r is Ok
            &&& final(i).position() == old(i).position() + 1
            &&& *final(builder) == *old(builder)
        },
    decreases old(i).remaining().len(), 1nat,
{
    let mut saved_stack = ParserStack::new();
    let saved_poison = ctxt.poison.take();
    let mut trash_builder = FunctionIRBuilder::new();
    let id = trash_builder.reserve_bb();
    trash_builder.continue_bb(id);
    std::mem::swap(&mut saved_stack, &mut ctxt.stack);
    parse_basic_blocks(i, ctxt, labels, &mut trash_builder)?;
    ctxt.poison = saved_poison;
    ctxt.stack = saved_stack;
    let is_else = match trash_builder.try_get_current_terminator() {
        Some(BasicBlockGlue::ElseMarker { .. }) => true,
        _ => false,
    };
    let ghost b0 = *builder;
    let ghost mut bq = *builder;
    proof {
        lemma_progress_refl(&b0);
    }
    let ghost c = b0.current();
    if is_else {
        let id = builder.try_reserve_bb()?;
        proof {
            lemma_progress_reserve(&b0, &bq, &*builder);
            bq = *builder;
            assert(builder.block(c) == b0.block(c));
        }
        builder.continue_bb(id);
        proof {
            lemma_progress_continue(&b0, &bq, &*builder, id);
            assert(builder.block(c) == b0.block(c));
            bq = *builder;
        }
        builder.terminate_else(Vec::new());
        proof {
            lemma_progress_same_but(&b0, &bq, &*builder, set![bq.current()]);
            assert(id != c);
            assert(!set![bq.current()].contains(c));
            assert(builder.block(c) == b0.block(c));
        }
    }
    Ok(())
}

/// Where the `k`-th instruction of a run that starts at `start` begins: at `start`, or where
/// the one before it ended.
pub open spec fn run_pos(start: int, re: Seq<WasmBinaryReader>, k: int) -> int {
    if k == 0 {
        start
    } else {
        re[k - 1].position()
    }
}

/// A run of `rs.len()` instructions that do not end the block, read one after the other from
/// position `start` of `src`. The `k`-th one has its opcode byte at `run_pos(start, re, k)`;
/// `rs[k]` is the reader just after that byte and `re[k]` the reader after the instruction; it
/// succeeds and takes the context and encoder from `xs[k]`, `os[k]` to `xs[k + 1]`, `os[k + 1]`
/// as `instr_post` says; the module and locals stay those of `xs[0]`.
pub open spec fn straight_run(
    src: Seq<u8>,
    start: int,
    rs: Seq<WasmBinaryReader>,
    re: Seq<WasmBinaryReader>,
    xs: Seq<Context>,
    os: Seq<InstructionEncoder>,
) -> bool {
    &&& re.len() == rs.len()
    &&& xs.len() == rs.len() + 1
    &&& os.len() == rs.len() + 1
    &&& forall|k: int| 0 <= k <= rs.len() ==> #[trigger] xs[k].module == xs[0].module && xs[k].locals@ == xs[0].locals@
    &&& forall|k: int|
        0 <= k < rs.len() ==> {
            &&& 0 <= run_pos(start, re, k) < src.len()
            &&& (#[trigger] rs[k]).source() == src
            &&& rs[k].position() == run_pos(start, re, k) + 1
            &&& instr_post(src[run_pos(start, re, k)], rs[k], re[k], &xs[k], &xs[k + 1], os[k], os[k + 1], Ok(()))
            &&& os[k + 1].terminator_spec() is None
        }
}

/// A straight-line block: a run of instructions (see `straight_run`) from position `start` of
/// `src`, starting from the context `x0` and encoder `o0`, followed by `end`.
pub open spec fn straight_block(
    src: Seq<u8>,
    start: int,
    x0: &Context,
    o0: InstructionEncoder,
    rs: Seq<WasmBinaryReader>,
    re: Seq<WasmBinaryReader>,
    xs: Seq<Context>,
    os: Seq<InstructionEncoder>,
) -> bool {
    let e = run_pos(start, re, rs.len() as int);
    &&& straight_run(src, start, rs, re, xs, os)
    &&& xs[0].model() == x0.model()
    &&& xs[0].module == x0.module
    &&& xs[0].locals@ == x0.locals@
    &&& os[0].instructions() == o0.instructions()
    &&& os[0].terminator_spec() == o0.terminator_spec()
    &&& 0 <= e < src.len()
    &&& src[e] == 0x0Bu8
}

/// Where a run of straight-line instructions stands after `kk` steps of parsing: before the
/// run's `kk`-th instruction, with its context model and instructions, while `kk` is at most the
/// run's length; one past its `end`, which ended the block, after the step that reads it.
pub open spec fn run_state(
    kk: int,
    start: int,
    rs: Seq<WasmBinaryReader>,
    re: Seq<WasmBinaryReader>,
    xs: Seq<Context>,
    os: Seq<InstructionEncoder>,
    pos: int,
    m: CtxModel,
    o: InstructionEncoder,
) -> bool {
    let n = rs.len() as int;
    &&& 0 <= kk <= n + 1
    &&& kk <= n ==> pos == run_pos(start, re, kk) && m == xs[kk].model() && o.instructions() == os[kk].instructions()
        && o.terminator_spec() is None
    &&& kk == n + 1 ==> pos == run_pos(start, re, n) + 1 && m == xs[n].model() && o.instructions()
        == os[n].instructions() && o.terminator_spec() == Some(ControlInstruction::End)
}

/// Whether the bytes `s` start with a `br` whose label index decodes.
pub open spec fn leading_br(s: Seq<u8>) -> bool {
    s.len() > 0 && s[0] == 0x0Cu8 && u32_dec(s.drop_first()).0 == LEB_OK()
}

/// Parses instructions into the current block until a control instruction ends it, then acts on
/// that control instruction.
#[verifier::rlimit(40)]
#[verifier::spinoff_prover]
pub fn parse_basic_blocks(
    i: &mut WasmBinaryReader,
    ctxt: &mut Context,
    labels: &mut Vec<Label>,
    builder: &mut FunctionIRBuilder,
) -> (r: Result<(), ParserError>)
    requires
        old(builder).wf(),
        old(builder).live(old(builder).current()),
        old(builder).current_bb_instrs.terminator_spec() is None,
        old(ctxt).wf(),
    ensures
        final(builder).num_vars_spec() == old(builder).num_vars_spec(),
        final(i).source() == old(i).source(),
        final(i).position() >= old(i).position(),
        r is Ok ==> {
            &&& builder_step(&*old(builder), &*final(builder))
            &&& ctxt_step(&*old(ctxt), &*final(ctxt))
            &&& final(labels)@ == old(labels)@
            &&& final(i).position() > old(i).position()
        },
        starts_with_end(old(i).remaining()) ==> {
            &&& r is Ok
            &&& final(i).position() == old(i).position() + 1
            &&& final(builder).current() == old(builder).current()
            &&& !(term_of(final(builder), old(builder).current()) is ElseMarker)
            &&& old(labels)@.len() == 1 && extract_result(old(ctxt).model(), old(labels)@[0].result_type@, true) is Some
                ==> final(ctxt).poison == old(ctxt).poison && final(ctxt).model() == old(ctxt).model()
            &&& final(ctxt).model() == end_model(old(ctxt).model(), old(labels)@)
            &&& end_validates(old(ctxt).model(), old(labels)@) ==> final(ctxt).poison == old(ctxt).poison
            &&& old(labels)@.len() == 1 ==> (term_of(final(builder), old(builder).current()) matches BasicBlockGlue::Return {
                return_vars,
            } && return_vars@ == extracted(old(ctxt).model(), old(labels)@[0].result_type@, true))
            &&& old(labels)@.len() > 1 ==> (term_of(final(builder), old(builder).current()) matches BasicBlockGlue::Jmp {
                target,
                ..
            } && target == end_target(old(labels)@.last()))
        },
        forall|rs: Seq<WasmBinaryReader>, re: Seq<WasmBinaryReader>, xs: Seq<Context>, os: Seq<InstructionEncoder>|
            #[trigger] straight_block(old(i).source(), old(i).position(), &*old(ctxt), old(builder).current_bb_instrs, rs, re, xs, os)
                ==> {
                &&& r is Ok
                &&& final(i).position() == run_pos(old(i).position(), re, rs.len() as int) + 1
                &&& final(ctxt).model() == end_model(xs.last().model(), old(labels)@)
                &&& final(builder).current() == old(builder).current()
                &&& final(builder).current_bb_instrs.instructions() == os.last().instructions()
                &&& final(builder).current_bb_instrs.terminator_spec() == Some(ControlInstruction::End)
                &&& old(labels)@.len() > 1 ==> (term_of(final(builder), old(builder).current()) matches BasicBlockGlue::Jmp {
                    target,
                    ..
                } && target == end_target(old(labels)@.last()))
            },
        leading_br(old(i).remaining()) && r is Ok ==> (term_of(final(builder), old(builder).current()) matches BasicBlockGlue::Jmp {
            target,
            ..
        } && target == label_target(old(labels)@, u32_dec(old(i).remaining().drop_first()).1))
            && u32_dec(old(i).remaining().drop_first()).1 < old(labels)@.len(),
    decreases old(i).remaining().len(), 0nat,
{
    let ghost rem0 = i.remaining().len();
    let ghost fe = starts_with_end(old(i).remaining());
    let ghost fb = leading_br(old(i).remaining());
    let ghost lb = u32_dec(old(i).remaining().drop_first()).1;
    proof {
        i.lemma_position();
    }
    let ghost mut kk: int = 0;
    proof {
        assert forall|rs: Seq<WasmBinaryReader>, re: Seq<WasmBinaryReader>, xs: Seq<Context>, os: Seq<InstructionEncoder>|
            #[trigger] straight_block(old(i).source(), old(i).position(), &*old(ctxt), old(builder).current_bb_instrs, rs, re, xs, os)
            implies run_state(0, old(i).position(), rs, re, xs, os, i.position(), ctxt.model(), builder.current_bb_instrs) by {
        }
    }
    while !builder.current_bb_instrs.is_finished()
        invariant
            i.source() == old(i).source(),
            i.position() >= old(i).position(),
            rem0 == old(i).remaining().len(),
            i.remaining().len() <= rem0,
            builder.current_bb_instrs.terminator_spec() is None || i.remaining().len() < rem0,
            builder.bbs@ == old(builder).bbs@,
            builder.current_bb == old(builder).current_bb,
            builder.locals@ == old(builder).locals@,
            builder.num_vars == old(builder).num_vars,
            builder.func_type == old(builder).func_type,
            old(ctxt).frame(&*ctxt),
            old(ctxt).wf(),
            fe == starts_with_end(old(i).remaining()),
            fb == leading_br(old(i).remaining()),
            lb == u32_dec(old(i).remaining().drop_first()).1,
            fb ==> (i.position() == old(i).position() && builder.current_bb_instrs.terminator_spec() is None)
                || builder.current_bb_instrs.terminator_spec() == Some(ControlInstruction::Br(lb)),
            fe ==> ctxt.model() == old(ctxt).model() && ctxt.poison == old(ctxt).poison,
            fe ==> (i.position() == old(i).position() && builder.current_bb_instrs.terminator_spec() is None) || (
            i.position() == old(i).position() + 1 && builder.current_bb_instrs.terminator_spec() == Some(
                ControlInstruction::End,
            )),
            forall|rs: Seq<WasmBinaryReader>, re: Seq<WasmBinaryReader>, xs: Seq<Context>, os: Seq<InstructionEncoder>|
                #[trigger] straight_block(old(i).source(), old(i).position(), &*old(ctxt), old(builder).current_bb_instrs, rs, re, xs, os)
                    ==> run_state(kk, old(i).position(), rs, re, xs, os, i.position(), ctxt.model(), builder.current_bb_instrs),
        decreases i.remaining().len(),
    {
        let ghost ib = *i;
        let ghost cb = *ctxt;
        let ghost ob = builder.current_bb_instrs;
        proof {
            i.lemma_position();
        }
        let opcode: u8 = match i.read_byte() {
            Ok(b) => b,
            Err(e) => {
                proof {
                    assert forall|rs: Seq<WasmBinaryReader>, re: Seq<WasmBinaryReader>, xs: Seq<Context>, os: Seq<InstructionEncoder>|
                        #[trigger] straight_block(old(i).source(), old(i).position(), &*old(ctxt), old(builder).current_bb_instrs, rs, re, xs, os)
                        implies false by {
                        assert(run_state(kk, old(i).position(), rs, re, xs, os, ib.position(), cb.model(), ob));
                        if kk < rs.len() {
                            assert(rs[kk].source() == old(i).source());
                            assert(0 <= run_pos(old(i).position(), re, kk) < old(i).source().len());
                        }
                    }
                }
                return Err(e);
            },
        };
        let ghost im = *i;
        proof {
            i.lemma_position();
            old(i).lemma_position();
            if fe {
                assert(opcode == 0x0Bu8);
            }
            if fb && ib.position() == old(i).position() {
                assert(opcode == 0x0Cu8);
                assert(im.remaining() =~= old(i).remaining().drop_first());
            }
        }
        let res = parse_instruction(opcode, ctxt, i, &mut builder.current_bb_instrs);
        proof {
            assert forall|rs: Seq<WasmBinaryReader>, re: Seq<WasmBinaryReader>, xs: Seq<Context>, os: Seq<InstructionEncoder>|
                #[trigger] straight_block(old(i).source(), old(i).position(), &*old(ctxt), old(builder).current_bb_instrs, rs, re, xs, os)
                implies res is Ok && run_state(kk + 1, old(i).position(), rs, re, xs, os, i.position(), ctxt.model(), builder.current_bb_instrs) by {
                let n = rs.len() as int;
                assert(run_state(kk, old(i).position(), rs, re, xs, os, ib.position(), cb.model(), ob));
                assert(opcode == old(i).source()[run_pos(old(i).position(), re, kk)]);
                if kk < n {
                    assert(xs[kk].module == xs[0].module && xs[kk].locals@ == xs[0].locals@);
                    assert(same_start(rs[kk], &xs[kk], os[kk], im, &cb, ob));
                    lemma_instr_det(opcode, rs[kk], re[kk], &xs[kk], &xs[kk + 1], os[kk], os[kk + 1], Ok(()), im, *i, &cb, &*ctxt, ob, builder.current_bb_instrs, res);
                }
            }
        }
        match res {
            Ok(()) => {},
            Err(e) => {
                return Err(e);
            },
        }
        proof {
            i.lemma_position();
            kk = kk + 1;
        }
    }
    let ghost b1 = *builder;
    let ghost c1 = *ctxt;
    proof {
        assert(builder_progress(&*old(builder), &b1));
        if fb {
            assert(control_of(&b1) == ControlInstruction::Br(lb));
        }
        if fe {
            assert(control_of(&b1) == ControlInstruction::End);
            assert(b1.current() == old(builder).current());
            assert(ctxt.model() == old(ctxt).model());
        }
    }
    let r = parse_terminator(i, ctxt, labels, builder);
    proof {
        if r is Ok {
            lemma_progress_trans(&*old(builder), &b1, &*builder);
        }
    }
    r
}


/// The label for a block with result types `result_type`, jumped to at `bb_id`.
fn block_label(bb_id: BasicBlockID, result_type: Vec<ValType>) -> (l: Label)
    ensures
        l.bb_id == bb_id,
        l.result_type@ == result_type@,
        l.loop_after_bb_id is None,
        l.loop_after_result_type is None,
{
    Label { bb_id, result_type, loop_after_bb_id: None, loop_after_result_type: None }
}

/// Acts on the control instruction that ended the current block: opens a structured block and
/// parses its body, ends the block with a jump, branch, call or return, and goes on with the
/// blocks that follow.
pub fn parse_terminator(
    i: &mut WasmBinaryReader,
    ctxt: &mut Context,
    labels: &mut Vec<Label>,
    builder: &mut FunctionIRBuilder,
) -> (r: Result<(), ParserError>)
    requires
        old(builder).wf(),
        old(builder).live(old(builder).current()),
        old(ctxt).wf(),
    ensures
        final(builder).num_vars_spec() == old(builder).num_vars_spec(),
        final(i).source() == old(i).source(),
        final(i).position() >= old(i).position(),
        r is Ok ==> {
            &&& builder_step(&*old(builder), &*final(builder))
            &&& ctxt_step(&*old(ctxt), &*final(ctxt))
            &&& final(labels)@ == old(labels)@
        },
        terminator_outcome(&*old(builder), &*final(builder), old(ctxt).model(), old(ctxt).module, old(labels)@, r),
        control_of(&*old(builder)) == ControlInstruction::End ==> final(i).position() == old(i).position()
            && final(builder).current() == old(builder).current() && final(builder).current_bb_instrs == old(
            builder,
        ).current_bb_instrs,
        control_of(&*old(builder)) == ControlInstruction::End && old(labels)@.len() == 1 && extract_result(
            old(ctxt).model(),
            old(labels)@[0].result_type@,
            true,
        ) is Some ==> final(ctxt).poison == old(ctxt).poison && final(ctxt).model() == old(ctxt).model(),
        control_of(&*old(builder)) == ControlInstruction::End ==> final(ctxt).model() == end_model(
            old(ctxt).model(),
            old(labels)@,
        ) && (end_validates(old(ctxt).model(), old(labels)@) ==> final(ctxt).poison == old(ctxt).poison),
        control_of(&*old(builder)) is Block && old(i).remaining().len() >= 2 && old(i).remaining()[0] == 0x0Bu8 && old(i).remaining()[1] == 0x0Bu8
            && old(builder).count() + 2 < NO_BB ==> r is Ok,
        control_of(&*old(builder)) is Loop && old(i).remaining().len() >= 2 && old(i).remaining()[0] == 0x0Bu8 && old(i).remaining()[1] == 0x0Bu8
            && old(builder).count() + 3 < NO_BB ==> r is Ok,
        control_of(&*old(builder)) is IfElse && r is Ok && starts_with_end(old(i).remaining()) && old(labels)@.len() > 0
            ==> (term_of(final(builder), (old(builder).count() + 1) as BasicBlockID) matches BasicBlockGlue::Jmp {
            target,
            ..
        } && target == old(builder).count()) && (term_of(final(builder), old(builder).current()) matches BasicBlockGlue::JmpCond {
            target_if_false,
            ..
        } && target_if_false == old(builder).count()),
        control_of(&*old(builder)) is Block && r is Ok && starts_with_end(old(i).remaining()) && old(labels)@.len() > 0
            ==> (term_of(final(builder), old(builder).count() as BasicBlockID) matches BasicBlockGlue::Jmp {
            target,
            ..
        } && target == old(builder).count() + 1),
        control_of(&*old(builder)) is Block && r is Ok && leading_br(old(i).remaining()) ==> (term_of(
            final(builder),
            old(builder).count() as BasicBlockID,
        ) matches BasicBlockGlue::Jmp { target, .. } && target == (if u32_dec(old(i).remaining().drop_first()).1 == 0 {
            (old(builder).count() + 1) as BasicBlockID
        } else {
            label_target(old(labels)@, (u32_dec(old(i).remaining().drop_first()).1 - 1) as u32)
        })),
        control_of(&*old(builder)) is Loop && r is Ok && leading_br(old(i).remaining()) ==> (term_of(
            final(builder),
            (old(builder).count() + 1) as BasicBlockID,
        ) matches BasicBlockGlue::Jmp { target, .. } && target == (if u32_dec(old(i).remaining().drop_first()).1 == 0 {
            old(builder).count() as BasicBlockID
        } else {
            label_target(old(labels)@, (u32_dec(old(i).remaining().drop_first()).1 - 1) as u32)
        })),
        control_of(&*old(builder)) is Loop && r is Ok && starts_with_end(old(i).remaining()) && old(labels)@.len() > 0
            ==> (term_of(final(builder), (old(builder).count() + 1) as BasicBlockID) matches BasicBlockGlue::Jmp {
            target,
            ..
        } && target == old(builder).count() + 2),
        control_of(&*old(builder)) is IfElse && old(i).remaining().len() >= 2 && old(i).remaining()[0] == 0x0Bu8 && old(i).remaining()[1] == 0x0Bu8
            && old(builder).count() + 2 < NO_BB ==> r is Ok,
        control_of(&*old(builder)) matches ControlInstruction::Br(l) && l < old(labels)@.len() && starts_with_end(
            old(i).remaining(),
        ) ==> r is Ok,
        control_of(&*old(builder)) matches ControlInstruction::BrIf(l) && l < old(labels)@.len()
            && old(builder).count() + 1 < NO_BB && starts_with_end(old(i).remaining()) ==> r is Ok,
        control_of(&*old(builder)) is Unreachable && starts_with_end(old(i).remaining()) ==> r is Ok,
        control_of(&*old(builder)) is Br && r is Ok ==> final(ctxt).model().poisoned == (old(ctxt).model().poisoned
            || extract_result(old(ctxt).model(), label_types(old(labels)@, control_of(&*old(builder))->Br_0), false)
            is None),
        control_of(&*old(builder)) matches ControlInstruction::Call(f) && f < old(ctxt).module.functions@.len()
            && old(ctxt).module.functions@[f as int].type_idx < old(ctxt).module.function_types@.len() && old(
            builder,
        ).count() + 1 < NO_BB && starts_with_end(old(i).remaining()) ==> r is Ok,
        control_of(&*old(builder)) matches ControlInstruction::CallIndirect(t, _) && t < old(
            ctxt,
        ).module.function_types@.len() && old(builder).count() + 1 < NO_BB && starts_with_end(old(i).remaining())
            ==> r is Ok,
        control_of(&*old(builder)) is Return && old(labels)@.len() > 0 && starts_with_end(old(i).remaining()) ==> r is Ok,
        control_of(&*old(builder)) is Else && old(labels)@.len() > 0 ==> r is Ok,
        control_of(&*old(builder)) matches ControlInstruction::BrTable(d, ls) && d < old(labels)@.len() && (forall|k: int|
            0 <= k < ls@.len() ==> #[trigger] ls@[k] < old(labels)@.len()) && starts_with_end(old(i).remaining()) ==> r is Ok,
        control_of(&*old(builder)) matches ControlInstruction::Br(l) && l >= old(labels)@.len() ==> (r matches Err(
            ParserError::Msg(m),
        ) && m@ == "label index out of bounds"@) && *final(builder) == *old(builder) && final(labels)@ == old(
            labels,
        )@ && final(i).position() == old(i).position(),
    decreases old(i).remaining().len(), 3nat,
{
    let ghost term = control_of(&*builder);
    match builder.current_bb_instrs.peek_terminator() {
        ControlInstruction::Block(bt) => {
            let bt = *bt;
            parse_block(bt, i, ctxt, labels, builder)
        },
        ControlInstruction::Loop(bt) => {
            let bt = *bt;
            parse_loop(bt, i, ctxt, labels, builder)
        },
        ControlInstruction::IfElse(bt) => {
            let bt = *bt;
            parse_if_else(bt, i, ctxt, labels, builder)
        },
        ControlInstruction::Br(label_idx) => {
            let label_idx = *label_idx;
            parse_br(label_idx, i, ctxt, labels, builder)
        },
        ControlInstruction::BrIf(label_idx) => {
            let label_idx = *label_idx;
            parse_br_if(label_idx, i, ctxt, labels, builder)
        },
        ControlInstruction::BrTable(default_label, label_table) => {
            let default_label = *default_label;
            let label_table = copy_label_table(label_table);
            parse_br_table(default_label, label_table, i, ctxt, labels, builder)
        },
        ControlInstruction::Unreachable => parse_unreachable(i, ctxt, labels, builder),
        ControlInstruction::Call(func_idx) => {
            let func_idx = *func_idx;
            parse_call(func_idx, i, ctxt, labels, builder)
        },
        ControlInstruction::CallIndirect(type_idx, table_idx) => {
            let type_idx = *type_idx;
            let table_idx = *table_idx;
            parse_call_indirect(type_idx, table_idx, i, ctxt, labels, builder)
        },
        ControlInstruction::End => parse_end(i, ctxt, labels, builder),
        ControlInstruction::Return => parse_return(i, ctxt, labels, builder),
        ControlInstruction::Else => parse_else(i, ctxt, labels, builder),
        ControlInstruction::Nop => Err(ParserError::msg("nop does not end a basic block")),
    }
}

/// A copy of the labels of a jump table.
fn copy_label_table(v: &Vec<u32>) -> (r: Vec<u32>)
    ensures
        r@ == v@,
{
    let mut r: Vec<u32> = Vec::new();
    let mut k: usize = 0;
    while k < v.len()
        invariant
            k <= v@.len(),
            r@ == v@.subrange(0, k as int),
        decreases v@.len() - k,
    {
        r.push(v[k]);
        proof {
            assert(r@ =~= v@.subrange(0, k + 1));
        }
        k = k + 1;
    }
    proof {
        assert(v@.subrange(0, v@.len() as int) =~= v@);
    }
    r
}

/// The control instruction that ended the current block of `b` (`Nop` while there is none).
pub open spec fn control_of(b: &FunctionIRBuilder) -> ControlInstruction {
    match b.current_bb_instrs.terminator_spec() {
        Some(t) => t,
        None => ControlInstruction::Nop,
    }
}

/// How parsing the control instruction that ended the current block of `b0` ended that block,
/// `b1` being the builder afterwards, `m` the context before, `labels` the labels before: the
/// terminator it writes, the blocks it jumps to, and when it fails.
pub open spec fn terminator_outcome(
    b0: &FunctionIRBuilder,
    b1: &FunctionIRBuilder,
    m: CtxModel,
    module: &ModuleMetadata,
    labels: Seq<Label>,
    r: Result<(), ParserError>,
) -> bool {
    let c = b0.current();
    let n = b0.count();
    match control_of(b0) {
        ControlInstruction::Block(_) => r is Ok ==> (term_of(b1, c) matches BasicBlockGlue::Jmp { target, .. }
            && target == n),
        ControlInstruction::Loop(_) => r is Ok ==> {
            &&& (term_of(b1, c) matches BasicBlockGlue::Jmp { target, .. } && target == n)
            &&& (term_of(b1, n as BasicBlockID) matches BasicBlockGlue::Jmp { target, .. } && target == n + 1)
        },
        ControlInstruction::IfElse(_) => r is Ok ==> (term_of(b1, c) matches BasicBlockGlue::JmpCond {
            target_if_true,
            target_if_false,
            ..
        } && target_if_true == n + 1 && (target_if_false == n || target_if_false >= n + 2)),
        ControlInstruction::Br(l) => {
            &&& l >= labels.len() ==> (r matches Err(ParserError::Msg(_)))
            &&& r is Ok ==> l < labels.len() && (term_of(b1, c) matches BasicBlockGlue::Jmp { target, output_vars }
                && target == label_target(labels, l) && output_vars@ == extracted(m, label_types(labels, l), false))
        },
        ControlInstruction::BrIf(l) => {
            &&& l >= labels.len() ==> r is Err
            &&& r is Ok ==> l < labels.len() && (term_of(b1, c) matches BasicBlockGlue::JmpCond {
                cond_var,
                target_if_true,
                target_if_false,
                output_vars,
            } && target_if_true == label_target(labels, l) && target_if_false == n
                && br_if_outputs(m, labels, l, cond_var, output_vars@))
        },
        ControlInstruction::BrTable(d, ls) => {
            &&& d >= labels.len() ==> (r matches Err(ParserError::Msg(_)))
            &&& (exists|k: int| 0 <= k < ls@.len() && #[trigger] ls@[k] >= labels.len()) ==> r is Err
            &&& r is Ok ==> (term_of(b1, c) matches BasicBlockGlue::JmpTable {
                selector_var,
                targets,
                targets_output_vars,
                default_target,
                default_output_vars,
            } && default_target == label_target(labels, d) && targets@ == Seq::new(
                ls@.len(),
                |k: int| label_target(labels, ls@[k]),
            ) && br_table_vars(m, labels, d, ls@, selector_var, targets_output_vars@, default_output_vars@))
        },
        ControlInstruction::Unreachable => r is Ok ==> term_of(b1, c) == BasicBlockGlue::Unreachable,
        ControlInstruction::Call(f) => {
            &&& f >= module.functions@.len() ==> (r matches Err(ParserError::Msg(_)))
            &&& f < module.functions@.len() && module.functions@[f as int].type_idx >= module.function_types@.len()
                ==> (r matches Err(ParserError::Msg(_)))
            &&& r is Ok ==> (term_of(b1, c) matches BasicBlockGlue::Call { func_idx, return_bb, call_params, return_vars }
                && func_idx == f && return_bb == n && call_params@ == extracted(
                m,
                module.function_types@[module.functions@[f as int].type_idx as int]@.0,
                false,
            ) && return_vars@ == fresh_ids(m, module.function_types@[module.functions@[f as int].type_idx as int]@.1))
        },
        ControlInstruction::CallIndirect(t, tab) => {
            &&& t >= module.function_types@.len() ==> (r matches Err(ParserError::Msg(_)))
            &&& r is Ok ==> (term_of(b1, c) matches BasicBlockGlue::CallIndirect {
                type_idx,
                selector_var,
                table_idx,
                return_bb,
                call_params,
                return_vars,
            } && type_idx == t && table_idx == tab && return_bb == n && call_indirect_vars(
                m,
                module.function_types@[t as int]@,
                selector_var,
                call_params@,
                return_vars@,
            ))
        },
        ControlInstruction::End => r is Ok && {
            &&& labels.len() == 0 ==> term_of(b1, c) == BasicBlockGlue::Unreachable
            &&& labels.len() == 1 ==> (term_of(b1, c) matches BasicBlockGlue::Return { return_vars }
                && return_vars@ == extracted(m, labels[0].result_type@, true))
            &&& labels.len() > 1 ==> (term_of(b1, c) matches BasicBlockGlue::Jmp { target, output_vars }
                && target == end_target(labels.last()) && output_vars@ == extracted(m, end_types(labels.last()), true))
        },
        ControlInstruction::Return => {
            &&& labels.len() == 0 ==> (r matches Err(ParserError::Msg(_)))
            &&& r is Ok ==> (term_of(b1, c) matches BasicBlockGlue::Return { return_vars } && return_vars@
                == extracted(m, labels[0].result_type@, false))
        },
        ControlInstruction::Else => {
            &&& labels.len() == 0 ==> (r matches Err(ParserError::Msg(_)))
            &&& r is Ok ==> (term_of(b1, c) matches BasicBlockGlue::ElseMarker { output_vars } && output_vars@
                == extracted(m, labels.last().result_type@, false))
        },
        ControlInstruction::Nop => r matches Err(ParserError::Msg(_)),
    }
}

/// `block`: opens a block, parses its body, and goes on after it.
fn parse_block(
    bt: BlockType,
    i: &mut WasmBinaryReader,
    ctxt: &mut Context,
    labels: &mut Vec<Label>,
    builder: &mut FunctionIRBuilder,
) -> (r: Result<(), ParserError>)
    requires
        old(builder).wf(),
        old(builder).live(old(builder).current()),
        old(ctxt).wf(),
    ensures
        final(builder).num_vars_spec() == old(builder).num_vars_spec(),
        final(i).source() == old(i).source(),
        final(i).position() >= old(i).position(),
        r is Ok ==> {
            &&& builder_step(&*old(builder), &*final(builder))
            &&& ctxt_step(&*old(ctxt), &*final(ctxt))
            &&& final(labels)@ == old(labels)@
            &&& (term_of(final(builder), old(builder).current()) matches BasicBlockGlue::Jmp { target, .. }
                && target == old(builder).count())
        },
        r is Ok ==> final(i).position() >= old(i).position() + 2,
        old(i).remaining().len() >= 2 && old(i).remaining()[0] == 0x0Bu8 && old(i).remaining()[1] == 0x0Bu8
            && old(builder).count() + 2 < NO_BB ==> r is Ok && final(i).position() == old(i).position() + 2,
        r is Ok && starts_with_end(old(i).remaining()) && old(labels)@.len() > 0 ==> (term_of(
            final(builder),
            old(builder).count() as BasicBlockID,
        ) matches BasicBlockGlue::Jmp { target, .. } && target == old(builder).count() + 1),
        r is Ok && leading_br(old(i).remaining()) ==> (term_of(
            final(builder),
            old(builder).count() as BasicBlockID,
        ) matches BasicBlockGlue::Jmp { target, .. } && target == (if u32_dec(old(i).remaining().drop_first()).1 == 0 {
            (old(builder).count() + 1) as BasicBlockID
        } else {
            label_target(old(labels)@, (u32_dec(old(i).remaining().drop_first()).1 - 1) as u32)
        })),
    decreases old(i).remaining().len(), 2nat,
{
    let ghost b0 = *builder;
    let ghost mut bp = *builder;
    proof {
        lemma_progress_refl(&b0);
        i.lemma_position();
    }
    let block_type = BTWrapper(bt);
    let block_input_vars = block_type.setup_block_stack(ctxt);
    let first_nested_block_id = builder.try_reserve_bb()?;
    proof {
        lemma_progress_reserve(&b0, &bp, &*builder);
        bp = *builder;
    }
    builder.terminate_jmp(first_nested_block_id, block_input_vars);
    let ghost c = b0.current();
    let ghost t1 = term_of(builder, c);
    proof {
        assert(t1 matches BasicBlockGlue::Jmp { target, .. } && target == b0.count());
        lemma_progress_same_but(&b0, &bp, &*builder, set![first_nested_block_id, bp.current()]);
        assert(builder.live(first_nested_block_id));
        assert(builder.stored(first_nested_block_id) == bp.stored(first_nested_block_id));
        bp = *builder;
    }
    let label_depth = labels.len();
    let after_block_bb_id = builder.try_reserve_bb()?;
    proof {
        assert(term_of(builder, c) == t1);
        lemma_progress_reserve(&b0, &bp, &*builder);
        assert(builder.live(first_nested_block_id));
        assert(builder.stored(first_nested_block_id) == bp.stored(first_nested_block_id));
        bp = *builder;
    }
    labels.push(block_label(after_block_bb_id, block_type.block_returns(ctxt)));
    let result_types = block_type.block_returns(ctxt);
    builder.set_bb_phi_inputs(after_block_bb_id, ctxt, &result_types);
    proof {
        assert(!set![after_block_bb_id].contains(c));
        assert(term_of(builder, c) == t1);
        lemma_progress_same_but(&b0, &bp, &*builder, set![after_block_bb_id]);
        assert(builder.live(first_nested_block_id));
        assert(builder.live(after_block_bb_id));
        assert(builder.stored(first_nested_block_id) == bp.stored(first_nested_block_id));
        assert(builder.stored(after_block_bb_id) == bp.stored(after_block_bb_id));
        bp = *builder;
    }
    builder.continue_bb(first_nested_block_id);
    proof {
        assert(term_of(builder, c) == t1);
        lemma_progress_continue(&b0, &bp, &*builder, first_nested_block_id);
        assert(builder.live(after_block_bb_id));
        assert(builder.stored(after_block_bb_id) == bp.stored(after_block_bb_id));
        bp = *builder;
    }
    let ghost bs = *builder;
    let ghost lb = labels@;
    let ghost bs_i = *i;
    proof {
        assert(i.remaining() == old(i).remaining());
        assert(lb.len() == old(labels)@.len() + 1);
        assert(lb.last().bb_id == after_block_bb_id);
        assert(end_target(lb.last()) == after_block_bb_id);
        assert(bs.current() == first_nested_block_id);
        assert(first_nested_block_id == b0.count());
    }
    parse_basic_blocks(i, ctxt, labels, builder)?;
    let ghost tb = term_of(builder, first_nested_block_id);
    proof {
        if leading_br(old(i).remaining()) {
            let l = u32_dec(old(i).remaining().drop_first()).1;
            assert(leading_br(bs_i.remaining()));
            assert(tb matches BasicBlockGlue::Jmp { target, .. } && target == label_target(lb, l));
            if l > 0 && l < lb.len() {
                assert(lb[lb.len() - 1 - l] == old(labels)@[old(labels)@.len() - 1 - (l - 1)]);
            }
        }
        assert(bs.live(first_nested_block_id));
        assert(builder.live(first_nested_block_id));
    }
    proof {
        assert(bs.live(c) && c != bs.current());
        assert(term_of(builder, c) == t1);
        lemma_progress_trans(&b0, &bp, &*builder);
        assert(bp.live(after_block_bb_id));
        assert(builder.live(after_block_bb_id));
        assert(builder.stored(after_block_bb_id) == bp.stored(after_block_bb_id));
        bp = *builder;
        lemma_remaining_shrinks(*old(i), *i);
    }
    labels.truncate(label_depth);
    ctxt.stack.unstash();
    builder.continue_bb(after_block_bb_id);
    proof {
        assert(term_of(builder, first_nested_block_id) == tb);
    }
    proof {
        assert(term_of(builder, c) == t1);
        lemma_progress_continue(&b0, &bp, &*builder, after_block_bb_id);
        bp = *builder;
    }
    builder.put_phi_inputs_on_stack(ctxt);
    let ghost bs2 = *builder;
    parse_basic_blocks(i, ctxt, labels, builder)?;
    proof {
        assert(bs2.live(first_nested_block_id) && first_nested_block_id != bs2.current());
        assert(term_of(builder, first_nested_block_id) == tb);
    }
    proof {
        assert(bs2.live(c) && c != bs2.current());
        assert(term_of(builder, c) == t1);
        lemma_progress_trans(&b0, &bp, &*builder);
        assert(labels@ =~= old(labels)@);
    }
    proof {
        assert(builder_progress(&*old(builder), &*builder));
        assert(builder.live(builder.current()));
        assert(ctxt.module == old(ctxt).module);
        assert(ctxt.locals@ == old(ctxt).locals@);
        assert(ctxt.wf());
        assert(ctxt.stack.stash@ == old(ctxt).stack.stash@);
        assert(old(ctxt).poison.is_some() ==> ctxt.poison == old(ctxt).poison);
        assert(labels@ == old(labels)@);
    }
    Ok(())
}

/// `loop`: opens a loop with a header block that its branches jump back to, parses its body,
/// and goes on after it.
fn parse_loop(
    bt: BlockType,
    i: &mut WasmBinaryReader,
    ctxt: &mut Context,
    labels: &mut Vec<Label>,
    builder: &mut FunctionIRBuilder,
) -> (r: Result<(), ParserError>)
    requires
        old(builder).wf(),
        old(builder).live(old(builder).current()),
        old(ctxt).wf(),
    ensures
        final(builder).num_vars_spec() == old(builder).num_vars_spec(),
        final(i).source() == old(i).source(),
        final(i).position() >= old(i).position(),
        r is Ok ==> {
            &&& builder_step(&*old(builder), &*final(builder))
            &&& ctxt_step(&*old(ctxt), &*final(ctxt))
            &&& final(labels)@ == old(labels)@
            &&& (term_of(final(builder), old(builder).current()) matches BasicBlockGlue::Jmp { target, .. }
                && target == old(builder).count())
            &&& (term_of(final(builder), old(builder).count() as BasicBlockID) matches BasicBlockGlue::Jmp { target, .. }
                && target == old(builder).count() + 1)
        },
        r is Ok ==> final(i).position() >= old(i).position() + 2,
        old(i).remaining().len() >= 2 && old(i).remaining()[0] == 0x0Bu8 && old(i).remaining()[1] == 0x0Bu8
            && old(builder).count() + 3 < NO_BB ==> r is Ok && final(i).position() == old(i).position() + 2,
        r is Ok && starts_with_end(old(i).remaining()) && old(labels)@.len() > 0 ==> (term_of(
            final(builder),
            (old(builder).count() + 1) as BasicBlockID,
        ) matches BasicBlockGlue::Jmp { target, .. } && target == old(builder).count() + 2),
        r is Ok && leading_br(old(i).remaining()) ==> (term_of(
            final(builder),
            (old(builder).count() + 1) as BasicBlockID,
        ) matches BasicBlockGlue::Jmp { target, .. } && target == (if u32_dec(old(i).remaining().drop_first()).1 == 0 {
            old(builder).count() as BasicBlockID
        } else {
            label_target(old(labels)@, (u32_dec(old(i).remaining().drop_first()).1 - 1) as u32)
        })),
    decreases old(i).remaining().len(), 2nat,
{
    let ghost b0 = *builder;
    let ghost mut bp = *builder;
    let ghost mut bq = *builder;
    proof {
        lemma_progress_refl(&b0);
        i.lemma_position();
    }
    let block_type = BTWrapper(bt);
    let block_input_vars = block_type.setup_block_stack(ctxt);
    let leading_bb_id = builder.current_bb_id_get();
    let loop_hdr_bb_id = builder.try_reserve_bb()?;
    proof {
        lemma_progress_reserve(&b0, &bq, &*builder);
        bq = *builder;
    }
    proof {
        lemma_progress_reserve(&b0, &bp, &*builder);
        bp = *builder;
    }
    let loop_body_bb_id = builder.try_reserve_bb()?;
    proof {
        lemma_progress_reserve(&b0, &bq, &*builder);
        bq = *builder;
    }
    proof {
        lemma_progress_reserve(&b0, &bp, &*builder);
        assert(builder.live(loop_hdr_bb_id));
        bp = *builder;
    }
    let loop_exit_bb_id = builder.try_reserve_bb()?;
    proof {
        lemma_progress_reserve(&b0, &bq, &*builder);
        bq = *builder;
    }
    proof {
        lemma_progress_reserve(&b0, &bp, &*builder);
        assert(builder.live(loop_hdr_bb_id));
        assert(builder.live(loop_body_bb_id));
        assert(builder.stored(loop_body_bb_id) == bp.stored(loop_body_bb_id));
        bp = *builder;
    }
    let inputs = block_type.block_inputs(ctxt);
    builder.set_bb_phi_inputs(loop_hdr_bb_id, ctxt, &inputs);
    proof {
        lemma_progress_same_but(&b0, &bq, &*builder, set![loop_hdr_bb_id]);
        bq = *builder;
    }
    proof {
        lemma_progress_same_but(&b0, &bp, &*builder, set![loop_hdr_bb_id]);
        assert(builder.live(loop_body_bb_id) && builder.live(loop_exit_bb_id) && builder.live(loop_hdr_bb_id));
        assert(builder.stored(loop_body_bb_id) == bp.stored(loop_body_bb_id));
        assert(builder.stored(loop_exit_bb_id) == bp.stored(loop_exit_bb_id));
        bp = *builder;
    }
    builder.continue_bb(loop_hdr_bb_id);
    proof {
        lemma_progress_continue(&b0, &bq, &*builder, loop_hdr_bb_id);
        bq = *builder;
    }
    proof {
        assert(builder.live(loop_body_bb_id) && builder.live(loop_exit_bb_id) && builder.live(loop_hdr_bb_id));
        assert(builder.stored(loop_body_bb_id) == bp.stored(loop_body_bb_id));
        assert(builder.stored(loop_exit_bb_id) == bp.stored(loop_exit_bb_id));
        assert(builder.live(leading_bb_id));
        bp = *builder;
    }
    builder.replace_phi_inputs_on_stack(ctxt);
    let hdr_vars = builder.current_bb_input_var_ids_get();
    builder.terminate_jmp(loop_body_bb_id, hdr_vars);
    let ghost c = b0.current();
    let ghost th = term_of(builder, loop_hdr_bb_id);
    proof {
        assert(loop_hdr_bb_id == b0.count());
        assert(th matches BasicBlockGlue::Jmp { target, .. } && target == b0.count() + 1);
        lemma_progress_same_but(&b0, &bq, &*builder, set![loop_body_bb_id, bq.current()]);
        bq = *builder;
    }
    proof {
        assert(builder.live(loop_body_bb_id) && builder.live(loop_exit_bb_id) && builder.live(loop_hdr_bb_id));
        assert(builder.stored(loop_body_bb_id) == bp.stored(loop_body_bb_id));
        assert(builder.stored(loop_exit_bb_id) == bp.stored(loop_exit_bb_id));
        assert(builder.live(leading_bb_id));
        bp = *builder;
    }
    let result_types = block_type.block_returns(ctxt);
    builder.set_bb_phi_inputs(loop_exit_bb_id, ctxt, &result_types);
    proof {
        assert(!set![loop_exit_bb_id].contains(loop_hdr_bb_id));
        assert(term_of(builder, loop_hdr_bb_id) == th);
        lemma_progress_same_but(&b0, &bq, &*builder, set![loop_exit_bb_id]);
        bq = *builder;
    }
    proof {
        assert(builder.live(loop_body_bb_id) && builder.live(loop_exit_bb_id) && builder.live(loop_hdr_bb_id));
        assert(builder.stored(loop_body_bb_id) == bp.stored(loop_body_bb_id));
        assert(builder.stored(loop_exit_bb_id) == bp.stored(loop_exit_bb_id));
        assert(builder.live(leading_bb_id));
        bp = *builder;
    }
    builder.continue_bb(leading_bb_id);
    proof {
        assert(term_of(builder, loop_hdr_bb_id) == th);
        lemma_progress_continue(&b0, &bq, &*builder, leading_bb_id);
        bq = *builder;
    }
    proof {
        assert(builder.live(loop_body_bb_id) && builder.live(loop_exit_bb_id) && builder.live(loop_hdr_bb_id));
        assert(builder.stored(loop_body_bb_id) == bp.stored(loop_body_bb_id));
        assert(builder.stored(loop_exit_bb_id) == bp.stored(loop_exit_bb_id));
        bp = *builder;
    }
    builder.terminate_jmp(loop_hdr_bb_id, block_input_vars);
    let ghost tc = term_of(builder, c);
    proof {
        assert(leading_bb_id == c);
        assert(loop_hdr_bb_id != c);
        assert(term_of(builder, loop_hdr_bb_id) == th);
        assert(tc matches BasicBlockGlue::Jmp { target, .. } && target == b0.count());
        lemma_progress_same_but(&b0, &bq, &*builder, set![loop_hdr_bb_id, bq.current()]);
        bq = *builder;
    }
    proof {
        assert(builder.live(loop_body_bb_id) && builder.live(loop_exit_bb_id));
        assert(builder.stored(loop_body_bb_id) == bp.stored(loop_body_bb_id));
        assert(builder.stored(loop_exit_bb_id) == bp.stored(loop_exit_bb_id));
        bp = *builder;
    }
    let label_depth = labels.len();
    labels.push(
        Label {
            bb_id: loop_hdr_bb_id,
            result_type: block_type.block_inputs(ctxt),
            loop_after_bb_id: Some(loop_exit_bb_id),
            loop_after_result_type: Some(block_type.block_returns(ctxt)),
        },
    );
    builder.continue_bb(loop_body_bb_id);
    proof {
        assert(term_of(builder, loop_hdr_bb_id) == th);
        assert(term_of(builder, c) == tc);
        lemma_progress_continue(&b0, &bq, &*builder, loop_body_bb_id);
        bq = *builder;
    }
    proof {
        assert(builder.live(loop_exit_bb_id));
        assert(builder.stored(loop_exit_bb_id) == bp.stored(loop_exit_bb_id));
        bp = *builder;
    }
    let ghost bs = *builder;
    let ghost lb = labels@;
    let ghost bs_i = *i;
    let ghost fe = starts_with_end(i.remaining());
    proof {
        assert(i.remaining() == old(i).remaining());
        assert(lb.len() > 1 ==> end_target(lb.last()) == loop_exit_bb_id);
        assert(lb.len() == old(labels)@.len() + 1);
    }
    parse_basic_blocks(i, ctxt, labels, builder)?;
    let ghost tb = term_of(builder, loop_body_bb_id);
    proof {
        assert(bs.current() == loop_body_bb_id);
        if fe && lb.len() > 1 {
            assert(tb matches BasicBlockGlue::Jmp { target, .. } && target == loop_exit_bb_id);
        }
        if leading_br(old(i).remaining()) {
            let l = u32_dec(old(i).remaining().drop_first()).1;
            if l > 0 && l < lb.len() {
                assert(lb[lb.len() - 1 - l] == old(labels)@[old(labels)@.len() - 1 - (l - 1)]);
            }
            assert(lb.last().bb_id == loop_hdr_bb_id);
            assert(leading_br(bs_i.remaining()));
            assert(tb matches BasicBlockGlue::Jmp { target, .. } && target == label_target(lb, l));
            assert(loop_hdr_bb_id == b0.count());
        }
        assert(bs.live(c) && c != bs.current());
        assert(bs.live(loop_hdr_bb_id) && loop_hdr_bb_id != bs.current());
        assert(term_of(builder, loop_hdr_bb_id) == th);
        assert(term_of(builder, c) == tc);
        lemma_progress_trans(&b0, &bq, &*builder);
        bq = *builder;
    }
    proof {
        assert(bp.live(loop_exit_bb_id));
        assert(builder.live(loop_exit_bb_id));
        assert(bs.live(loop_body_bb_id));
        assert(builder.live(loop_body_bb_id));
        assert(builder.stored(loop_exit_bb_id) == bp.stored(loop_exit_bb_id));
        bp = *builder;
        lemma_remaining_shrinks(*old(i), *i);
    }
    labels.truncate(label_depth);
    ctxt.stack.unstash();
    builder.continue_bb(loop_exit_bb_id);
    proof {
        assert(term_of(builder, loop_body_bb_id) == tb);
        assert(term_of(builder, loop_hdr_bb_id) == th);
        assert(term_of(builder, c) == tc);
        lemma_progress_continue(&b0, &bq, &*builder, loop_exit_bb_id);
        bq = *builder;
    }
    builder.put_phi_inputs_on_stack(ctxt);
    let ghost bs2 = *builder;
    proof {
        assert(term_of(builder, loop_body_bb_id) == tb);
    }
    parse_basic_blocks(i, ctxt, labels, builder)?;
    proof {
        assert(bs2.live(loop_body_bb_id) && loop_body_bb_id != bs2.current());
        assert(term_of(builder, loop_body_bb_id) == tb);
        assert(bs2.live(c) && c != bs2.current());
        assert(bs2.live(loop_hdr_bb_id) && loop_hdr_bb_id != bs2.current());
        assert(term_of(builder, loop_hdr_bb_id) == th);
        assert(term_of(builder, c) == tc);
        lemma_progress_trans(&b0, &bq, &*builder);
        bq = *builder;
    }
    proof {
        assert(labels@ =~= old(labels)@);
    }
    proof {
        assert(builder_progress(&*old(builder), &*builder));
        assert(builder.live(builder.current()));
        assert(ctxt.module == old(ctxt).module);
        assert(ctxt.locals@ == old(ctxt).locals@);
        assert(ctxt.wf());
        assert(ctxt.stack.stash@ == old(ctxt).stack.stash@);
        assert(old(ctxt).poison.is_some() ==> ctxt.poison == old(ctxt).poison);
        assert(labels@ == old(labels)@);
    }
    Ok(())
}

/// `if`: parses the `then` branch and, if there is one, the `else` branch, ends the block
/// before with a conditional jump, and goes on after them.
fn parse_if_else(
    bt: BlockType,
    i: &mut WasmBinaryReader,
    ctxt: &mut Context,
    labels: &mut Vec<Label>,
    builder: &mut FunctionIRBuilder,
) -> (r: Result<(), ParserError>)
    requires
        old(builder).wf(),
        old(builder).live(old(builder).current()),
        old(ctxt).wf(),
    ensures
        final(builder).num_vars_spec() == old(builder).num_vars_spec(),
        final(i).source() == old(i).source(),
        final(i).position() >= old(i).position(),
        r is Ok ==> {
            &&& builder_step(&*old(builder), &*final(builder))
            &&& ctxt_step(&*old(ctxt), &*final(ctxt))
            &&& final(labels)@ == old(labels)@
            &&& (term_of(final(builder), old(builder).current()) matches BasicBlockGlue::JmpCond {
                target_if_true,
                target_if_false,
                ..
            } && target_if_true == old(builder).count() + 1 && (target_if_false == old(builder).count()
                || target_if_false >= old(builder).count() + 2))
        },
        r is Ok ==> final(i).position() >= old(i).position() + 2,
        old(i).remaining().len() >= 2 && old(i).remaining()[0] == 0x0Bu8 && old(i).remaining()[1] == 0x0Bu8
            && old(builder).count() + 2 < NO_BB ==> r is Ok && final(i).position() == old(i).position() + 2,
        r is Ok && starts_with_end(old(i).remaining()) && old(labels)@.len() > 0 ==> (term_of(
            final(builder),
            (old(builder).count() + 1) as BasicBlockID,
        ) matches BasicBlockGlue::Jmp { target, .. } && target == old(builder).count()) && (term_of(
            final(builder),
            old(builder).current(),
        ) matches BasicBlockGlue::JmpCond { target_if_false, .. } && target_if_false == old(builder).count()),
    decreases old(i).remaining().len(), 2nat,
{
    let ghost b0 = *builder;
    let ghost mut bp = *builder;
    let ghost mut bq = *builder;
    proof {
        lemma_progress_refl(&b0);
        i.lemma_position();
    }
    let block_type = BTWrapper(bt);
    let pred_bb_id = builder.current_bb_id_get();
    let cond_var = ctxt.pop_var_with_type(ValType::i32()).id;
    let if_else_exit_bb = builder.try_reserve_bb()?;
    proof {
        lemma_progress_reserve(&b0, &bq, &*builder);
        bq = *builder;
    }
    let result_types = block_type.block_returns(ctxt);
    builder.set_bb_phi_inputs(if_else_exit_bb, ctxt, &result_types);
    proof {
        lemma_progress_same_but(&b0, &bq, &*builder, set![if_else_exit_bb]);
        bq = *builder;
    }
    proof {
        assert(builder.live(if_else_exit_bb) && builder.live(pred_bb_id));
        bp = *builder;
    }
    let label_depth = labels.len();
    labels.push(block_label(if_else_exit_bb, block_type.block_returns(ctxt)));
    let block_input_vars = block_type.setup_block_stack(ctxt);
    let target_if_true = builder.try_reserve_bb()?;
    proof {
        lemma_progress_reserve(&b0, &bq, &*builder);
        bq = *builder;
    }
    proof {
        assert(builder.live(if_else_exit_bb) && builder.live(pred_bb_id));
        assert(builder.stored(if_else_exit_bb) == bp.stored(if_else_exit_bb));
        assert(target_if_true != if_else_exit_bb && target_if_true != pred_bb_id);
        assert(if_else_exit_bb == b0.count());
        assert(target_if_true == b0.count() + 1);
        assert(builder.count() == b0.count() + 2);
        bp = *builder;
    }
    builder.continue_bb(target_if_true);
    proof {
        lemma_progress_continue(&b0, &bq, &*builder, target_if_true);
        bq = *builder;
    }
    proof {
        assert(builder.live(if_else_exit_bb) && builder.live(pred_bb_id));
        assert(builder.stored(if_else_exit_bb) == bp.stored(if_else_exit_bb));
        bp = *builder;
    }
    let ghost bs1 = *builder;
    let ghost lb = labels@;
    let ghost fe = starts_with_end(i.remaining());
    proof {
        assert(i.remaining() == old(i).remaining());
        assert(lb.len() == old(labels)@.len() + 1);
        assert(end_target(lb.last()) == if_else_exit_bb);
        assert(bs1.current() == target_if_true);
    }
    parse_basic_blocks(i, ctxt, labels, builder)?;
    let ghost tb = term_of(builder, target_if_true);
    proof {
        if fe && lb.len() > 1 {
            assert(tb matches BasicBlockGlue::Jmp { target, .. } && target == if_else_exit_bb);
            assert(builder.current() == target_if_true);
        }
        assert(bs1.live(target_if_true));
        assert(builder.live(target_if_true));
    }
    proof {
        assert(builder.count() >= bs1.count());
        assert(builder.count() >= b0.count() + 2);
        lemma_progress_trans(&b0, &bq, &*builder);
        bq = *builder;
    }
    proof {
        assert(bp.live(if_else_exit_bb) && bp.live(pred_bb_id));
        assert(builder.live(if_else_exit_bb) && builder.live(pred_bb_id));
        assert(builder.stored(if_else_exit_bb) == bp.stored(if_else_exit_bb));
        assert(builder.current() != if_else_exit_bb && builder.current() != pred_bb_id);
        bp = *builder;
        lemma_remaining_shrinks(*old(i), *i);
    }
    let ghost c = b0.current();
    let ghost mut tc = BasicBlockGlue::Unreachable;
    match builder.current_bb_get_else_marker_out_vars() {
        Some(out_vars) => {
            proof {
                if fe && lb.len() > 1 {
                    assert(false);
                }
            }
            if out_vars.len() != block_type.block_returns_count(ctxt) {
                builder.eliminate_current_bb();
                proof {
                    lemma_progress_eliminate(&b0, &bq, &*builder);
                    bq = *builder;
                    assert(builder.block(if_else_exit_bb) == bp.block(if_else_exit_bb));
                    assert(builder.block(pred_bb_id) == bp.block(pred_bb_id));
                }
            } else {
                builder.terminate_jmp(if_else_exit_bb, out_vars);
                proof {
                    lemma_progress_same_but(&b0, &bq, &*builder, set![if_else_exit_bb, bq.current()]);
                    bq = *builder;
                }
            }
            proof {
                assert(builder.live(if_else_exit_bb) && builder.live(pred_bb_id));
                assert(builder.stored(if_else_exit_bb) == bp.stored(if_else_exit_bb));
                bp = *builder;
            }
            ctxt.stack.unstash();
            ctxt.stack.stash();
            let inputs = block_type.block_inputs(ctxt);
            let mut k: usize = 0;
            while k < block_input_vars.len() && k < inputs.len()
                invariant
                    ctxt.wf(),
                    ctxt.module == old(ctxt).module,
                    ctxt.locals@ == old(ctxt).locals@,
                    ctxt.stack.stash@.len() >= 2,
                    ctxt.stack.stash@ == old(ctxt).stack.stash@.push(ctxt.stack.stash@.last()),
                    old(ctxt).poison.is_some() ==> ctxt.poison == old(ctxt).poison,
                    ctxt.var_count >= old(ctxt).var_count,
                decreases inputs.len() - k,
            {
                ctxt.push_var(Variable { id: block_input_vars[k], type_: inputs[k] });
                k = k + 1;
            }
            labels.truncate(label_depth);
            labels.push(block_label(if_else_exit_bb, block_type.block_returns(ctxt)));
            let target_if_false = builder.try_reserve_bb()?;
            proof {
                assert(target_if_false >= b0.count() + 2);
                lemma_progress_reserve(&b0, &bq, &*builder);
                bq = *builder;
            }
            proof {
                assert(target_if_false != if_else_exit_bb && target_if_false != pred_bb_id);
                assert(builder.live(if_else_exit_bb) && builder.live(pred_bb_id));
                assert(builder.stored(if_else_exit_bb) == bp.stored(if_else_exit_bb));
                bp = *builder;
            }
            builder.continue_bb(target_if_false);
            proof {
                lemma_progress_continue(&b0, &bq, &*builder, target_if_false);
                bq = *builder;
            }
            proof {
                assert(builder.live(if_else_exit_bb) && builder.live(pred_bb_id));
                assert(builder.stored(if_else_exit_bb) == bp.stored(if_else_exit_bb));
                bp = *builder;
            }
            parse_basic_blocks(i, ctxt, labels, builder)?;
            proof {
                lemma_progress_trans(&b0, &bq, &*builder);
                bq = *builder;
            }
            proof {
                assert(bp.live(if_else_exit_bb) && bp.live(pred_bb_id));
                assert(builder.live(if_else_exit_bb) && builder.live(pred_bb_id));
                assert(builder.stored(if_else_exit_bb) == bp.stored(if_else_exit_bb));
                assert(builder.current() != if_else_exit_bb && builder.current() != pred_bb_id);
                bp = *builder;
                lemma_remaining_shrinks(*old(i), *i);
            }
            builder.continue_bb(pred_bb_id);
            proof {
                lemma_progress_continue(&b0, &bq, &*builder, pred_bb_id);
                bq = *builder;
                assert(builder.live(if_else_exit_bb));
                assert(builder.stored(if_else_exit_bb) == bp.stored(if_else_exit_bb));
            }
            builder.terminate_jmp_cond(cond_var, target_if_true, target_if_false, block_input_vars);
            proof {
                tc = term_of(builder, c);
                assert(tc matches BasicBlockGlue::JmpCond { target_if_true: t, target_if_false: e, .. } && t
                    == b0.count() + 1 && e >= b0.count() + 2);
                lemma_progress_same_but(&b0, &bq, &*builder, set![target_if_true, target_if_false, bq.current()]);
                bq = *builder;
                assert(builder.live(if_else_exit_bb));
                assert(builder.stored(if_else_exit_bb) == bp.stored(if_else_exit_bb));
            }
        },
        None => {
            builder.continue_bb(pred_bb_id);
            proof {
                lemma_progress_continue(&b0, &bq, &*builder, pred_bb_id);
                bq = *builder;
                assert(builder.live(if_else_exit_bb));
                assert(builder.stored(if_else_exit_bb) == bp.stored(if_else_exit_bb));
            }
            proof {
                assert(builder.live(target_if_true) && target_if_true != builder.current());
                assert(term_of(builder, target_if_true) == tb);
            }
            builder.terminate_jmp_cond(cond_var, target_if_true, if_else_exit_bb, block_input_vars);
            proof {
                assert(term_of(builder, target_if_true) == tb);
                tc = term_of(builder, c);
                assert(tc matches BasicBlockGlue::JmpCond { target_if_true: t, target_if_false: e, .. } && t
                    == b0.count() + 1 && e == b0.count());
                lemma_progress_same_but(&b0, &bq, &*builder, set![target_if_true, if_else_exit_bb, bq.current()]);
                bq = *builder;
                assert(builder.live(if_else_exit_bb));
                assert(builder.stored(if_else_exit_bb) == bp.stored(if_else_exit_bb));
            }
        },
    }
    proof {
        assert(builder.live(if_else_exit_bb));
        assert(builder.stored(if_else_exit_bb) == bp.stored(if_else_exit_bb));
    }
    ctxt.stack.unstash();
    labels.truncate(label_depth);
    let ghost bx = *builder;
    builder.continue_bb(if_else_exit_bb);
    proof {
        if fe && lb.len() > 1 {
            assert(bx.live(target_if_true));
            assert(term_of(builder, target_if_true) == tb);
        }
        assert(term_of(builder, c) == tc);
        lemma_progress_continue(&b0, &bq, &*builder, if_else_exit_bb);
        bq = *builder;
    }
    builder.put_phi_inputs_on_stack(ctxt);
    let ghost bs2 = *builder;
    proof {
        if fe && lb.len() > 1 {
            assert(term_of(builder, target_if_true) == tb);
            assert(bs2.live(target_if_true));
        }
    }
    parse_basic_blocks(i, ctxt, labels, builder)?;
    proof {
        if fe && lb.len() > 1 {
            assert(bs2.live(target_if_true) && target_if_true != bs2.current());
            assert(term_of(builder, target_if_true) == tb);
        }
        assert(bs2.live(c) && c != bs2.current());
        assert(term_of(builder, c) == tc);
        lemma_progress_trans(&b0, &bq, &*builder);
        bq = *builder;
    }
    proof {
        assert(labels@ =~= old(labels)@);
    }
    proof {
        assert(builder_progress(&*old(builder), &*builder));
        assert(builder.live(builder.current()));
        assert(ctxt.module == old(ctxt).module);
        assert(ctxt.locals@ == old(ctxt).locals@);
        assert(ctxt.wf());
        assert(ctxt.stack.stash@ == old(ctxt).stack.stash@);
        assert(old(ctxt).poison.is_some() ==> ctxt.poison == old(ctxt).poison);
        assert(labels@ == old(labels)@);
    }
    Ok(())
}

/// `br`: jumps to a label; the code up to the next `end` is parsed away.
fn parse_br(
    label_idx: u32,
    i: &mut WasmBinaryReader,
    ctxt: &mut Context,
    labels: &mut Vec<Label>,
    builder: &mut FunctionIRBuilder,
) -> (r: Result<(), ParserError>)
    requires
        old(builder).wf(),
        old(builder).live(old(builder).current()),
        old(ctxt).wf(),
    ensures
        final(builder).num_vars_spec() == old(builder).num_vars_spec(),
        final(i).source() == old(i).source(),
        final(i).position() >= old(i).position(),
        r is Ok ==> {
            &&& builder_step(&*old(builder), &*final(builder))
            &&& ctxt_step(&*old(ctxt), &*final(ctxt))
            &&& final(labels)@ == old(labels)@
            &&& label_idx < old(labels)@.len()
            &&& (term_of(final(builder), old(builder).current()) matches BasicBlockGlue::Jmp {
                target,
                output_vars,
            } && target == label_target(old(labels)@, label_idx) && output_vars@ == extracted(
                old(ctxt).model(),
                label_types(old(labels)@, label_idx),
                false,
            ))
        },
        label_idx >= old(labels)@.len() ==> (r matches Err(ParserError::Msg(m)) && m@ == "label index out of bounds"@)
            && *final(builder) == *old(builder) && final(labels)@ == old(labels)@ && final(i).position() == old(
            i,
        ).position(),
        r is Ok ==> final(i).position() > old(i).position(),
        label_idx < old(labels)@.len() && starts_with_end(old(i).remaining()) ==> r is Ok && final(i).position()
            == old(i).position() + 1,
        r is Ok ==> final(ctxt).model().poisoned == (old(ctxt).model().poisoned || extract_result(
            old(ctxt).model(),
            label_types(old(labels)@, label_idx),
            false,
        ) is None),
    decreases old(i).remaining().len(), 2nat,
{
    let ghost b0 = *builder;
    let ghost mut bp = *builder;
    let ghost mut bq = *builder;
    proof {
        lemma_progress_refl(&b0);
        i.lemma_position();
    }
    let idx = match label_at(labels, label_idx) {
        Some(idx) => idx,
        None => {
            return Err(ParserError::msg("label index out of bounds"));
        },
    };
    let target = labels[idx].bb_id;
    proof {
        assert(labels@ == old(labels)@);
        assert(label_idx < labels@.len());
        assert(idx == old(labels)@.len() - 1 - label_idx);
        assert(labels@[idx as int].result_type@ == label_types(old(labels)@, label_idx));
        assert(ctxt.model() == old(ctxt).model());
    }
    let output_vars = validate_and_extract_result_from_stack(ctxt, &labels[idx].result_type, false);
    let ghost ov = output_vars@;
    proof {
        assert(ov == extracted(old(ctxt).model(), label_types(old(labels)@, label_idx), false));
    }
    builder.terminate_jmp(target, output_vars);
    proof {
        lemma_progress_same_but(&b0, &bq, &*builder, set![target, bq.current()]);
        bq = *builder;
    }
    let ghost t1 = term_of(builder, b0.current());
    parse_until_next_end(i, ctxt, labels, builder)?;
    proof {
        lemma_progress_trans(&b0, &bq, &*builder);
        bq = *builder;
        assert(term_of(builder, b0.current()) == t1);
    }
    proof {
        assert(builder_progress(&*old(builder), &*builder));
        assert(builder.live(builder.current()));
        assert(ctxt.module == old(ctxt).module);
        assert(ctxt.locals@ == old(ctxt).locals@);
        assert(ctxt.wf());
        assert(ctxt.stack.stash@ == old(ctxt).stack.stash@);
        assert(old(ctxt).poison.is_some() ==> ctxt.poison == old(ctxt).poison);
        assert(labels@ == old(labels)@);
    }
    Ok(())
}

/// `br_if`: jumps to a label or goes on.
fn parse_br_if(
    label_idx: u32,
    i: &mut WasmBinaryReader,
    ctxt: &mut Context,
    labels: &mut Vec<Label>,
    builder: &mut FunctionIRBuilder,
) -> (r: Result<(), ParserError>)
    requires
        old(builder).wf(),
        old(builder).live(old(builder).current()),
        old(ctxt).wf(),
    ensures
        final(builder).num_vars_spec() == old(builder).num_vars_spec(),
        final(i).source() == old(i).source(),
        final(i).position() >= old(i).position(),
        r is Ok ==> {
            &&& builder_step(&*old(builder), &*final(builder))
            &&& ctxt_step(&*old(ctxt), &*final(ctxt))
            &&& final(labels)@ == old(labels)@
            &&& label_idx < old(labels)@.len()
            &&& (term_of(final(builder), old(builder).current()) matches BasicBlockGlue::JmpCond {
                cond_var,
                target_if_true,
                target_if_false,
                output_vars,
            } && target_if_true == label_target(old(labels)@, label_idx) && target_if_false == old(
                builder,
            ).count() && br_if_outputs(old(ctxt).model(), old(labels)@, label_idx, cond_var, output_vars@))
        },
        label_idx >= old(labels)@.len() ==> r is Err,
        r is Ok ==> final(i).position() > old(i).position(),
        label_idx < old(labels)@.len() && old(builder).count() + 1 < NO_BB && starts_with_end(old(i).remaining())
            ==> r is Ok && final(i).position() == old(i).position() + 1,
    decreases old(i).remaining().len(), 2nat,
{
    let ghost b0 = *builder;
    let ghost mut bp = *builder;
    let ghost mut bq = *builder;
    proof {
        lemma_progress_refl(&b0);
        i.lemma_position();
    }
    let cond_var = ctxt.pop_var_with_type(ValType::i32()).id;
    let target_if_false = builder.try_reserve_bb()?;
    proof {
        lemma_progress_reserve(&b0, &bq, &*builder);
        bq = *builder;
    }
    let idx = match label_at(labels, label_idx) {
        Some(idx) => idx,
        None => {
            return Err(ParserError::msg("label index out of bounds"));
        },
    };
    let target = labels[idx].bb_id;
    let output_vars = validate_and_extract_result_from_stack(ctxt, &labels[idx].result_type, false);
    builder.terminate_jmp_cond(cond_var, target, target_if_false, output_vars);
    proof {
        lemma_progress_same_but(&b0, &bq, &*builder, set![target, target_if_false, bq.current()]);
        bq = *builder;
    }
    let ghost t1 = term_of(builder, b0.current());
    proof {
        assert(idx == old(labels)@.len() - 1 - label_idx);
        assert(labels@ == old(labels)@);
        assert(t1 matches BasicBlockGlue::JmpCond { cond_var, target_if_true, target_if_false, output_vars } && target_if_true
            == label_target(old(labels)@, label_idx) && target_if_false == b0.count()
            && br_if_outputs(old(ctxt).model(), old(labels)@, label_idx, cond_var, output_vars@));
    }
    builder.continue_bb(target_if_false);
    proof {
        lemma_progress_continue(&b0, &bq, &*builder, target_if_false);
        bq = *builder;
    }
    let ghost bs = *builder;
    parse_basic_blocks(i, ctxt, labels, builder)?;
    proof {
        lemma_progress_trans(&b0, &bq, &*builder);
        bq = *builder;
        assert(bs.live(b0.current()));
        assert(b0.current() != bs.current());
        assert(term_of(builder, b0.current()) == t1);
    }
    proof {
        assert(builder_progress(&*old(builder), &*builder));
        assert(builder.live(builder.current()));
        assert(ctxt.module == old(ctxt).module);
        assert(ctxt.locals@ == old(ctxt).locals@);
        assert(ctxt.wf());
        assert(ctxt.stack.stash@ == old(ctxt).stack.stash@);
        assert(old(ctxt).poison.is_some() ==> ctxt.poison == old(ctxt).poison);
        assert(labels@ == old(labels)@);
    }
    Ok(())
}

/// What `br_if` to label `l` hands on, from the context `m`: the condition is the topmost value,
/// an `i32`, and the values carried are those of the label's types below it.
pub open spec fn br_if_outputs(m: CtxModel, labels: Seq<Label>, l: u32, cond_var: VariableID, outs: Seq<VariableID>) -> bool {
    let (m1, c) = m_pop_typed(m, ValType::Number(NumType::I32));
    &&& cond_var == c.id
    &&& outs == extracted(m1, label_types(labels, l), false)
}

/// What `call_indirect` of a function of type `ft` hands on, from the context `m`: the selector
/// is the topmost value, an `i32`; the parameters are the values of `ft`'s parameter types below
/// it; the results are fresh variables.
pub open spec fn call_indirect_vars(
    m: CtxModel,
    ft: (Seq<ValType>, Seq<ValType>),
    selector: VariableID,
    call_params: Seq<VariableID>,
    return_vars: Seq<VariableID>,
) -> bool {
    let (m1, s) = m_pop_typed(m, ValType::Number(NumType::I32));
    &&& selector == s.id
    &&& call_params == extracted(m1, ft.0, false)
    &&& return_vars == fresh_ids(m, ft.1)
}

/// What `br_table` with default label `d` and labels `ls` hands on, from the context `m`: the
/// selector is the topmost value, an `i32`; each target gets the values of its label's types
/// below it.
pub open spec fn br_table_vars(
    m: CtxModel,
    labels: Seq<Label>,
    d: u32,
    ls: Seq<u32>,
    selector: VariableID,
    touts: Seq<Vec<VariableID>>,
    douts: Seq<VariableID>,
) -> bool {
    let (m1, s) = m_pop_typed(m, ValType::Number(NumType::I32));
    &&& selector == s.id
    &&& douts == extracted(m1, label_types(labels, d), false)
    &&& touts.len() == ls.len()
    &&& forall|k: int| 0 <= k < ls.len() ==> (#[trigger] touts[k])@ == extracted(m1, label_types(labels, ls[k]), false)
}

/// What is taken from the stack depends on the stack and its block boundaries alone.
proof fn lemma_extracted_same_stack(a: CtxModel, b: CtxModel, outs: Seq<ValType>, check_empty: bool)
    requires
        a.stack == b.stack,
        a.stash == b.stash,
    ensures
        extract_result(a, outs, check_empty) == extract_result(b, outs, check_empty),
        extracted(a, outs, check_empty) == extracted(b, outs, check_empty),
{
}

/// The ids of fresh variables of the types `ts`, made one after the other from the context `m`.
pub open spec fn fresh_ids(m: CtxModel, ts: Seq<ValType>) -> Seq<VariableID> {
    m_create_all(m, ts).1.map_values(|v: Variable| v.id)
}

/// The fresh variables that are made depend on the number of variables made so far alone.
proof fn lemma_fresh_ids_var_count(a: CtxModel, b: CtxModel, ts: Seq<ValType>)
    requires
        a.var_count == b.var_count,
    ensures
        m_create_all(a, ts).1 == m_create_all(b, ts).1,
        m_create_all(a, ts).0.var_count == m_create_all(b, ts).0.var_count,
        fresh_ids(a, ts) == fresh_ids(b, ts),
    decreases ts.len(),
{
    if ts.len() > 0 {
        lemma_fresh_ids_var_count(a, b, ts.drop_last());
    }
}

/// `br_table`: jumps to one of several labels; the code up to the next `end` is parsed away.
fn parse_br_table(
    default_label: u32, label_table: Vec<u32>,
    i: &mut WasmBinaryReader,
    ctxt: &mut Context,
    labels: &mut Vec<Label>,
    builder: &mut FunctionIRBuilder,
) -> (r: Result<(), ParserError>)
    requires
        old(builder).wf(),
        old(builder).live(old(builder).current()),
        old(ctxt).wf(),
    ensures
        final(builder).num_vars_spec() == old(builder).num_vars_spec(),
        final(i).source() == old(i).source(),
        final(i).position() >= old(i).position(),
        r is Ok ==> {
            &&& builder_step(&*old(builder), &*final(builder))
            &&& ctxt_step(&*old(ctxt), &*final(ctxt))
            &&& final(labels)@ == old(labels)@
            &&& default_label < old(labels)@.len()
            &&& forall|k: int| 0 <= k < label_table@.len() ==> #[trigger] label_table@[k] < old(labels)@.len()
            &&& (term_of(final(builder), old(builder).current()) matches BasicBlockGlue::JmpTable {
                selector_var,
                targets,
                targets_output_vars,
                default_target,
                default_output_vars,
            } && default_target == label_target(old(labels)@, default_label) && targets@ == Seq::new(
                label_table@.len(),
                |k: int| label_target(old(labels)@, label_table@[k]),
            ) && br_table_vars(old(ctxt).model(), old(labels)@, default_label, label_table@, selector_var,
                targets_output_vars@, default_output_vars@))
        },
        default_label >= old(labels)@.len() ==> (r matches Err(ParserError::Msg(_))),
        (exists|k: int| 0 <= k < label_table@.len() && #[trigger] label_table@[k] >= old(labels)@.len())
            ==> r is Err,
        default_label < old(labels)@.len() && (forall|k: int| 0 <= k < label_table@.len() ==> #[trigger] label_table@[k]
            < old(labels)@.len()) && starts_with_end(old(i).remaining()) ==> r is Ok && final(i).position() == old(
            i,
        ).position() + 1,
    decreases old(i).remaining().len(), 2nat,
{
    let ghost b0 = *builder;
    let ghost mut bp = *builder;
    let ghost mut bq = *builder;
    proof {
        lemma_progress_refl(&b0);
        i.lemma_position();
    }
    let selector_var = ctxt.pop_var_with_type(ValType::i32()).id;
    let ghost m1 = ctxt.model();
    let d = match label_at(labels, default_label) {
        Some(d) => d,
        None => {
            return Err(ParserError::msg("label index out of bounds"));
        },
    };
    let default_bb = labels[d].bb_id;
    let default_output_vars = validate_and_extract_result_from_stack(ctxt, &labels[d].result_type, false);
    let ghost douts = default_output_vars@;
    let mut targets: Vec<BasicBlockID> = Vec::new();
    let mut targets_output_vars: Vec<Vec<VariableID>> = Vec::new();
    let mut k: usize = 0;
    while k < label_table.len()
        invariant
            old(ctxt).wf(),
            ctxt.wf(),
            ctxt.module == old(ctxt).module,
            ctxt.locals@ == old(ctxt).locals@,
            ctxt.stack.stash@ == old(ctxt).stack.stash@,
            old(ctxt).poison.is_some() ==> ctxt.poison == old(ctxt).poison,
            ctxt.var_count >= old(ctxt).var_count,
            k <= label_table@.len(),
            labels@ == old(labels)@,
            targets@ == Seq::new(k as nat, |j: int| label_target(old(labels)@, label_table@[j])),
            forall|j: int| 0 <= j < k ==> #[trigger] label_table@[j] < old(labels)@.len(),
            ctxt.model().stack == m1.stack,
            ctxt.model().stash == m1.stash,
            targets_output_vars@.len() == k,
            forall|j: int| 0 <= j < k ==> (#[trigger] targets_output_vars@[j])@ == extracted(
                m1,
                label_types(old(labels)@, label_table@[j]),
                false,
            ),
        decreases label_table.len() - k,
    {
        let l = match label_at(labels, label_table[k]) {
            Some(l) => l,
            None => {
                proof {
                    assert(label_table@[k as int] >= old(labels)@.len());
                }
                return Err(ParserError::msg("label index out of bounds"));
            },
        };
        proof {
            assert(l == old(labels)@.len() - 1 - label_table@[k as int]);
        }
        targets.push(labels[l].bb_id);
        proof {
            assert(targets@ =~= Seq::new((k + 1) as nat, |j: int| label_target(old(labels)@, label_table@[j])));
        }
        let ghost mk = ctxt.model();
        let outs = validate_and_extract_result_from_stack(ctxt, &labels[l].result_type, false);
        proof {
            lemma_extracted_same_stack(mk, m1, label_types(old(labels)@, label_table@[k as int]), false);
        }
        targets_output_vars.push(outs);
        k = k + 1;
    }
    let ghost tgts = targets@;
    let ghost dflt = default_bb;
    let ghost touts = targets_output_vars@;
    proof {
        assert(d == old(labels)@.len() - 1 - default_label);
        assert(m1 == m_pop_typed(old(ctxt).model(), ValType::Number(NumType::I32)).0);
        assert(br_table_vars(old(ctxt).model(), old(labels)@, default_label, label_table@, selector_var, touts, douts));
    }
    builder.terminate_jmp_table(selector_var, targets, targets_output_vars, default_bb, default_output_vars);
    proof {
        lemma_progress_same_but(&b0, &bq, &*builder, Set::new(|id: BasicBlockID| tgts.contains(id) || id == dflt || id == bq.current()));
        bq = *builder;
    }
    let ghost t1 = term_of(builder, b0.current());
    proof {
        assert(d == old(labels)@.len() - 1 - default_label);
        assert(t1 matches BasicBlockGlue::JmpTable { selector_var: sv, targets, targets_output_vars: tv, default_target, default_output_vars: dv }
            && default_target == label_target(old(labels)@, default_label) && targets@ == tgts && sv == selector_var
            && tv@ == touts && dv@ == douts);
    }
    parse_until_next_end(i, ctxt, labels, builder)?;
    proof {
        lemma_progress_trans(&b0, &bq, &*builder);
        bq = *builder;
        assert(term_of(builder, b0.current()) == t1);
    }
    proof {
        assert(builder_progress(&*old(builder), &*builder));
        assert(builder.live(builder.current()));
        assert(ctxt.module == old(ctxt).module);
        assert(ctxt.locals@ == old(ctxt).locals@);
        assert(ctxt.wf());
        assert(ctxt.stack.stash@ == old(ctxt).stack.stash@);
        assert(old(ctxt).poison.is_some() ==> ctxt.poison == old(ctxt).poison);
        assert(labels@ == old(labels)@);
    }
    Ok(())
}

/// `unreachable`: the code up to the next `end` is parsed away.
fn parse_unreachable(
    i: &mut WasmBinaryReader,
    ctxt: &mut Context,
    labels: &mut Vec<Label>,
    builder: &mut FunctionIRBuilder,
) -> (r: Result<(), ParserError>)
    requires
        old(builder).wf(),
        old(builder).live(old(builder).current()),
        old(ctxt).wf(),
    ensures
        final(builder).num_vars_spec() == old(builder).num_vars_spec(),
        final(i).source() == old(i).source(),
        final(i).position() >= old(i).position(),
        r is Ok ==> {
            &&& builder_step(&*old(builder), &*final(builder))
            &&& ctxt_step(&*old(ctxt), &*final(ctxt))
            &&& final(labels)@ == old(labels)@
            &&& term_of(final(builder), old(builder).current()) == BasicBlockGlue::Unreachable
        },
        r is Ok ==> final(i).position() > old(i).position(),
        starts_with_end(old(i).remaining()) ==> r is Ok && final(i).position() == old(i).position() + 1,
    decreases old(i).remaining().len(), 2nat,
{
    let ghost b0 = *builder;
    let ghost mut bp = *builder;
    let ghost mut bq = *builder;
    proof {
        lemma_progress_refl(&b0);
        i.lemma_position();
    }
    builder.terminate_unreachable();
    let ghost t1 = term_of(builder, b0.current());
    proof {
        lemma_progress_same_but(&b0, &bq, &*builder, set![bq.current()]);
        bq = *builder;
    }
    parse_until_next_end(i, ctxt, labels, builder)?;
    proof {
        assert(term_of(builder, b0.current()) == t1);
        lemma_progress_trans(&b0, &bq, &*builder);
        bq = *builder;
    }
    proof {
        assert(builder_progress(&*old(builder), &*builder));
        assert(builder.live(builder.current()));
        assert(ctxt.module == old(ctxt).module);
        assert(ctxt.locals@ == old(ctxt).locals@);
        assert(ctxt.wf());
        assert(ctxt.stack.stash@ == old(ctxt).stack.stash@);
        assert(old(ctxt).poison.is_some() ==> ctxt.poison == old(ctxt).poison);
        assert(labels@ == old(labels)@);
    }
    Ok(())
}

/// `call`: pops the parameters, pushes the results, and goes on in a new block.
fn parse_call(
    func_idx: u32,
    i: &mut WasmBinaryReader,
    ctxt: &mut Context,
    labels: &mut Vec<Label>,
    builder: &mut FunctionIRBuilder,
) -> (r: Result<(), ParserError>)
    requires
        old(builder).wf(),
        old(builder).live(old(builder).current()),
        old(ctxt).wf(),
    ensures
        final(builder).num_vars_spec() == old(builder).num_vars_spec(),
        final(i).source() == old(i).source(),
        final(i).position() >= old(i).position(),
        r is Ok ==> {
            &&& builder_step(&*old(builder), &*final(builder))
            &&& ctxt_step(&*old(ctxt), &*final(ctxt))
            &&& final(labels)@ == old(labels)@
            &&& func_idx < old(ctxt).module.functions@.len()
            &&& (term_of(final(builder), old(builder).current()) matches BasicBlockGlue::Call {
                func_idx: f,
                return_bb,
                call_params,
                return_vars,
            } && f == func_idx && return_bb == old(builder).count() && call_params@ == extracted(
                old(ctxt).model(),
                old(ctxt).module.function_types@[old(ctxt).module.functions@[func_idx as int].type_idx as int]@.0,
                false,
            ) && return_vars@ == fresh_ids(
                old(ctxt).model(),
                old(ctxt).module.function_types@[old(ctxt).module.functions@[func_idx as int].type_idx as int]@.1,
            ))
        },
        func_idx >= old(ctxt).module.functions@.len() ==> (r matches Err(ParserError::Msg(_))),
        func_idx < old(ctxt).module.functions@.len() && old(ctxt).module.functions@[func_idx as int].type_idx
            >= old(ctxt).module.function_types@.len() ==> (r matches Err(ParserError::Msg(_))),
        func_idx < old(ctxt).module.functions@.len() && old(ctxt).module.functions@[func_idx as int].type_idx
            < old(ctxt).module.function_types@.len() && old(builder).count() + 1 < NO_BB && starts_with_end(
            old(i).remaining(),
        ) ==> r is Ok && final(i).position() == old(i).position() + 1,
    decreases old(i).remaining().len(), 2nat,
{
    let ghost b0 = *builder;
    let ghost mut bp = *builder;
    let ghost mut bq = *builder;
    proof {
        lemma_progress_refl(&b0);
        i.lemma_position();
    }
    let module = ctxt.module;
    if func_idx as usize > module.functions.len() {
        ctxt.poison_msg("call function index out of bounds");
    }
    if func_idx as usize >= module.functions.len() {
        return Err(ParserError::msg("call function index out of bounds"));
    }
    let type_idx = module.functions[func_idx as usize].type_idx;
    if type_idx as usize >= module.function_types.len() {
        return Err(ParserError::msg("call function type index out of bounds"));
    }
    let func_type = &module.function_types[type_idx as usize];
    let params = func_type.params();
    proof {
        assert(ctxt.model() == old(ctxt).model());
    }
    let call_params = validate_and_extract_result_from_stack(ctxt, &params, false);
    let ghost cp = call_params@;
    ctxt.stack.drop_top(call_params.len());
    let results = func_type.results();
    proof {
        lemma_fresh_ids_var_count(ctxt.model(), old(ctxt).model(), results@);
    }
    let return_vars = push_results(ctxt, &results);
    let ghost rv = return_vars@;
    let return_bb = builder.try_reserve_bb()?;
    proof {
        lemma_progress_reserve(&b0, &bq, &*builder);
        bq = *builder;
    }
    builder.terminate_call(func_idx, return_bb, call_params, return_vars);
    proof {
        lemma_progress_same_but(&b0, &bq, &*builder, set![bq.current()]);
        bq = *builder;
    }
    let ghost t1 = term_of(builder, b0.current());
    proof {
        assert(t1 matches BasicBlockGlue::Call { func_idx: f, return_bb: rb, call_params: ps, return_vars: vs } && f == func_idx
            && rb == b0.count() && ps@ == cp && vs@ == rv);
    }
    builder.continue_bb(return_bb);
    proof {
        lemma_progress_continue(&b0, &bq, &*builder, return_bb);
        bq = *builder;
    }
    let ghost bs = *builder;
    parse_basic_blocks(i, ctxt, labels, builder)?;
    proof {
        lemma_progress_trans(&b0, &bq, &*builder);
        bq = *builder;
        assert(bs.live(b0.current()));
        assert(b0.current() != bs.current());
        assert(term_of(builder, b0.current()) == t1);
    }
    proof {
        assert(builder_progress(&*old(builder), &*builder));
        assert(builder.live(builder.current()));
        assert(ctxt.module == old(ctxt).module);
        assert(ctxt.locals@ == old(ctxt).locals@);
        assert(ctxt.wf());
        assert(ctxt.stack.stash@ == old(ctxt).stack.stash@);
        assert(old(ctxt).poison.is_some() ==> ctxt.poison == old(ctxt).poison);
        assert(labels@ == old(labels)@);
    }
    Ok(())
}

/// `call_indirect`: pops the selector and the parameters, pushes the results, and goes on in a
/// new block.
fn parse_call_indirect(
    type_idx: u32, table_idx: u32,
    i: &mut WasmBinaryReader,
    ctxt: &mut Context,
    labels: &mut Vec<Label>,
    builder: &mut FunctionIRBuilder,
) -> (r: Result<(), ParserError>)
    requires
        old(builder).wf(),
        old(builder).live(old(builder).current()),
        old(ctxt).wf(),
    ensures
        final(builder).num_vars_spec() == old(builder).num_vars_spec(),
        final(i).source() == old(i).source(),
        final(i).position() >= old(i).position(),
        r is Ok ==> {
            &&& builder_step(&*old(builder), &*final(builder))
            &&& ctxt_step(&*old(ctxt), &*final(ctxt))
            &&& final(labels)@ == old(labels)@
            &&& type_idx < old(ctxt).module.function_types@.len()
            &&& (term_of(final(builder), old(builder).current()) matches BasicBlockGlue::CallIndirect {
                type_idx: t,
                selector_var,
                table_idx: tab,
                return_bb,
                call_params,
                return_vars,
            } && t == type_idx && tab == table_idx && return_bb == old(builder).count() && call_indirect_vars(
                old(ctxt).model(),
                old(ctxt).module.function_types@[type_idx as int]@,
                selector_var,
                call_params@,
                return_vars@,
            ))
        },
        type_idx >= old(ctxt).module.function_types@.len() ==> (r matches Err(ParserError::Msg(_))),
        type_idx < old(ctxt).module.function_types@.len() && old(builder).count() + 1 < NO_BB && starts_with_end(
            old(i).remaining(),
        ) ==> r is Ok && final(i).position() == old(i).position() + 1,
        r is Ok && (table_idx >= old(ctxt).module.tables@.len() || old(ctxt).module.tables@[table_idx as int].ty.ref_type
            != RefType::FunctionReference) ==> final(ctxt).poison is Some,
    decreases old(i).remaining().len(), 2nat,
{
    let ghost b0 = *builder;
    let ghost mut bp = *builder;
    let ghost mut bq = *builder;
    proof {
        lemma_progress_refl(&b0);
        i.lemma_position();
    }
    let module = ctxt.module;
    if table_idx as usize >= module.tables.len() {
        ctxt.poison_msg("icall table index out of bounds");
    } else if module.tables[table_idx as usize].ty.ref_type != RefType::FunctionReference {
        ctxt.poison_msg("icall table type mismatch");
    }
    if type_idx as usize > module.function_types.len() {
        ctxt.poison_msg("icall function index out of bounds");
    }
    let ghost mq = ctxt.model();
    let selector_var = ctxt.pop_var_with_type(ValType::i32()).id;
    if type_idx as usize >= module.function_types.len() {
        return Err(ParserError::msg("icall function type index out of bounds"));
    }
    let func_type = &module.function_types[type_idx as usize];
    let params = func_type.params();
    let ghost mp = ctxt.model();
    let call_params = validate_and_extract_result_from_stack(ctxt, &params, false);
    let ghost cp = call_params@;
    ctxt.stack.drop_top(call_params.len());
    let results = func_type.results();
    proof {
        assert(mq.stack == old(ctxt).model().stack && mq.stash == old(ctxt).model().stash);
        assert(mq.var_count == old(ctxt).model().var_count);
        let pm = m_pop_typed(old(ctxt).model(), ValType::Number(NumType::I32));
        assert(selector_var == pm.1.id);
        assert(mp.stack == pm.0.stack && mp.stash == pm.0.stash);
        assert(cp == extracted(pm.0, params@, false));
        lemma_fresh_ids_var_count(ctxt.model(), old(ctxt).model(), results@);
    }
    let return_vars = push_results(ctxt, &results);
    let ghost rv = return_vars@;
    let return_bb = builder.try_reserve_bb()?;
    proof {
        lemma_progress_reserve(&b0, &bq, &*builder);
        bq = *builder;
    }
    builder.terminate_call_indirect(type_idx, selector_var, table_idx, return_bb, call_params, return_vars);
    proof {
        lemma_progress_same_but(&b0, &bq, &*builder, set![bq.current()]);
        bq = *builder;
    }
    let ghost t1 = term_of(builder, b0.current());
    proof {
        assert(t1 matches BasicBlockGlue::CallIndirect { type_idx: t, selector_var: sv, table_idx: tab, return_bb: rb, call_params: ps, return_vars: vs } && t
            == type_idx && tab == table_idx && rb == b0.count() && sv == selector_var && ps@ == cp && vs@ == rv);
        assert(call_indirect_vars(old(ctxt).model(), old(ctxt).module.function_types@[type_idx as int]@, selector_var, cp, rv));
    }
    builder.continue_bb(return_bb);
    proof {
        lemma_progress_continue(&b0, &bq, &*builder, return_bb);
        bq = *builder;
    }
    let ghost bs = *builder;
    parse_basic_blocks(i, ctxt, labels, builder)?;
    proof {
        lemma_progress_trans(&b0, &bq, &*builder);
        bq = *builder;
        assert(bs.live(b0.current()));
        assert(b0.current() != bs.current());
        assert(term_of(builder, b0.current()) == t1);
    }
    proof {
        assert(builder_progress(&*old(builder), &*builder));
        assert(builder.live(builder.current()));
        assert(ctxt.module == old(ctxt).module);
        assert(ctxt.locals@ == old(ctxt).locals@);
        assert(ctxt.wf());
        assert(ctxt.stack.stash@ == old(ctxt).stack.stash@);
        assert(old(ctxt).poison.is_some() ==> ctxt.poison == old(ctxt).poison);
        assert(labels@ == old(labels)@);
    }
    Ok(())
}

/// `end`: returns from the function, or jumps to the block after the innermost structured
/// instruction.
fn parse_end(
    i: &mut WasmBinaryReader,
    ctxt: &mut Context,
    labels: &mut Vec<Label>,
    builder: &mut FunctionIRBuilder,
) -> (r: Result<(), ParserError>)
    requires
        old(builder).wf(),
        old(builder).live(old(builder).current()),
        old(ctxt).wf(),
    ensures
        final(builder).num_vars_spec() == old(builder).num_vars_spec(),
        final(i).source() == old(i).source(),
        final(i).position() >= old(i).position(),
        r is Ok ==> {
            &&& builder_step(&*old(builder), &*final(builder))
            &&& ctxt_step(&*old(ctxt), &*final(ctxt))
            &&& final(labels)@ == old(labels)@
            &&& old(labels)@.len() == 0 ==> term_of(final(builder), old(builder).current()) == BasicBlockGlue::Unreachable
            &&& old(labels)@.len() == 1 ==> (term_of(final(builder), old(builder).current()) matches BasicBlockGlue::Return {
                return_vars,
            } && return_vars@ == extracted(old(ctxt).model(), old(labels)@[0].result_type@, true))
            &&& old(labels)@.len() > 1 ==> (term_of(final(builder), old(builder).current()) matches BasicBlockGlue::Jmp {
                target,
                output_vars,
            } && target == end_target(old(labels)@.last()) && output_vars@ == extracted(
                old(ctxt).model(),
                end_types(old(labels)@.last()),
                true,
            ))
        },
        r is Ok,
        final(i).position() == old(i).position(),
        final(builder).current() == old(builder).current(),
        final(builder).current_bb_instrs == old(builder).current_bb_instrs,
        final(ctxt).model() == end_model(old(ctxt).model(), old(labels)@),
        end_validates(old(ctxt).model(), old(labels)@) ==> final(ctxt).poison == old(ctxt).poison,
        old(labels)@.len() == 1 && extract_result(old(ctxt).model(), old(labels)@[0].result_type@, true) is Some
            ==> final(ctxt).poison == old(ctxt).poison && final(ctxt).model() == old(ctxt).model(),
    decreases old(i).remaining().len(), 2nat,
{
    let ghost b0 = *builder;
    let ghost mut bp = *builder;
    let ghost mut bq = *builder;
    proof {
        lemma_progress_refl(&b0);
        i.lemma_position();
    }
    let n = labels.len();
    if n == 1 {
        let return_vars = validate_and_extract_result_from_stack(ctxt, &labels[0].result_type, true);
        let ghost rv = return_vars@;
        builder.terminate_return(return_vars);
        proof {
            assert(rv == extracted(old(ctxt).model(), old(labels)@[0].result_type@, true));
        }
        proof {
            lemma_progress_same_but(&b0, &bq, &*builder, set![bq.current()]);
            bq = *builder;
        }
    } else if n == 0 {
        builder.terminate_unreachable();
        proof {
            lemma_progress_same_but(&b0, &bq, &*builder, set![bq.current()]);
            bq = *builder;
        }
    } else {
        let last = n - 1;
        let output_vars = match &labels[last].loop_after_result_type {
            Some(t) => validate_and_extract_result_from_stack(ctxt, t, true),
            None => validate_and_extract_result_from_stack(ctxt, &labels[last].result_type, true),
        };
        let target = match labels[last].loop_after_bb_id {
            Some(id) => id,
            None => labels[last].bb_id,
        };
        let ghost ov = output_vars@;
        proof {
            assert(labels@.last() == labels@[last as int]);
            assert(ov == extracted(old(ctxt).model(), end_types(old(labels)@.last()), true));
            assert(target == end_target(old(labels)@.last()));
        }
        builder.terminate_jmp(target, output_vars);
        proof {
            lemma_progress_same_but(&b0, &bq, &*builder, set![target, bq.current()]);
            bq = *builder;
        }
    }
    proof {
        assert(builder_progress(&*old(builder), &*builder));
        assert(builder.live(builder.current()));
        assert(ctxt.module == old(ctxt).module);
        assert(ctxt.locals@ == old(ctxt).locals@);
        assert(ctxt.wf());
        assert(ctxt.stack.stash@ == old(ctxt).stack.stash@);
        assert(old(ctxt).poison.is_some() ==> ctxt.poison == old(ctxt).poison);
        assert(labels@ == old(labels)@);
    }
    Ok(())
}

/// `return`: the code up to the next `end` is parsed away.
fn parse_return(
    i: &mut WasmBinaryReader,
    ctxt: &mut Context,
    labels: &mut Vec<Label>,
    builder: &mut FunctionIRBuilder,
) -> (r: Result<(), ParserError>)
    requires
        old(builder).wf(),
        old(builder).live(old(builder).current()),
        old(ctxt).wf(),
    ensures
        final(builder).num_vars_spec() == old(builder).num_vars_spec(),
        final(i).source() == old(i).source(),
        final(i).position() >= old(i).position(),
        r is Ok ==> {
            &&& builder_step(&*old(builder), &*final(builder))
            &&& ctxt_step(&*old(ctxt), &*final(ctxt))
            &&& final(labels)@ == old(labels)@
            &&& old(labels)@.len() > 0
            &&& (term_of(final(builder), old(builder).current()) matches BasicBlockGlue::Return {
                return_vars,
            } && return_vars@ == extracted(old(ctxt).model(), old(labels)@[0].result_type@, false))
        },
        old(labels)@.len() == 0 ==> (r matches Err(ParserError::Msg(_))),
        old(labels)@.len() > 0 && starts_with_end(old(i).remaining()) ==> r is Ok && final(i).position() == old(
            i,
        ).position() + 1,
    decreases old(i).remaining().len(), 2nat,
{
    let ghost b0 = *builder;
    let ghost mut bp = *builder;
    let ghost mut bq = *builder;
    proof {
        lemma_progress_refl(&b0);
        i.lemma_position();
    }
    if labels.len() == 0 {
        return Err(ParserError::msg("return instruction outside of function scope"));
    }
    let return_vars = validate_and_extract_result_from_stack(ctxt, &labels[0].result_type, false);
    let ghost rv = return_vars@;
    proof {
        assert(rv == extracted(old(ctxt).model(), old(labels)@[0].result_type@, false));
    }
    builder.terminate_return(return_vars);
    let ghost t1 = term_of(builder, b0.current());
    proof {
        lemma_progress_same_but(&b0, &bq, &*builder, set![bq.current()]);
        bq = *builder;
    }
    parse_until_next_end(i, ctxt, labels, builder)?;
    proof {
        assert(term_of(builder, b0.current()) == t1);
        lemma_progress_trans(&b0, &bq, &*builder);
        bq = *builder;
    }
    proof {
        assert(builder_progress(&*old(builder), &*builder));
        assert(builder.live(builder.current()));
        assert(ctxt.module == old(ctxt).module);
        assert(ctxt.locals@ == old(ctxt).locals@);
        assert(ctxt.wf());
        assert(ctxt.stack.stash@ == old(ctxt).stack.stash@);
        assert(old(ctxt).poison.is_some() ==> ctxt.poison == old(ctxt).poison);
        assert(labels@ == old(labels)@);
    }
    Ok(())
}

/// `else`: ends the `then` branch with a marker that the enclosing `if` acts on.
fn parse_else(
    i: &mut WasmBinaryReader,
    ctxt: &mut Context,
    labels: &mut Vec<Label>,
    builder: &mut FunctionIRBuilder,
) -> (r: Result<(), ParserError>)
    requires
        old(builder).wf(),
        old(builder).live(old(builder).current()),
        old(ctxt).wf(),
    ensures
        final(builder).num_vars_spec() == old(builder).num_vars_spec(),
        final(i).source() == old(i).source(),
        final(i).position() >= old(i).position(),
        r is Ok ==> {
            &&& builder_step(&*old(builder), &*final(builder))
            &&& ctxt_step(&*old(ctxt), &*final(ctxt))
            &&& final(labels)@ == old(labels)@
            &&& old(labels)@.len() > 0
            &&& (term_of(final(builder), old(builder).current()) matches BasicBlockGlue::ElseMarker {
                output_vars,
            } && output_vars@ == extracted(old(ctxt).model(), old(labels)@.last().result_type@, false))
        },
        old(labels)@.len() == 0 ==> (r matches Err(ParserError::Msg(_))),
        old(labels)@.len() > 0 ==> r is Ok,
    decreases old(i).remaining().len(), 2nat,
{
    let ghost b0 = *builder;
    let ghost mut bp = *builder;
    let ghost mut bq = *builder;
    proof {
        lemma_progress_refl(&b0);
        i.lemma_position();
    }
    if labels.len() == 0 {
        return Err(ParserError::msg("else instruction outside of a block"));
    }
    let last = labels.len() - 1;
    let output_vars = validate_and_extract_result_from_stack(ctxt, &labels[last].result_type, false);
    let ghost ov = output_vars@;
    proof {
        assert(labels@.last() == labels@[last as int]);
        assert(ov == extracted(old(ctxt).model(), old(labels)@.last().result_type@, false));
    }
    builder.terminate_else(output_vars);
    proof {
        lemma_progress_same_but(&b0, &bq, &*builder, set![bq.current()]);
        bq = *builder;
    }
    proof {
        assert(builder_progress(&*old(builder), &*builder));
        assert(builder.live(builder.current()));
        assert(ctxt.module == old(ctxt).module);
        assert(ctxt.locals@ == old(ctxt).locals@);
        assert(ctxt.wf());
        assert(ctxt.stack.stash@ == old(ctxt).stack.stash@);
        assert(old(ctxt).poison.is_some() ==> ctxt.poison == old(ctxt).poison);
        assert(labels@ == old(labels)@);
    }
    Ok(())
}

/// Creates and pushes one fresh variable per result type, returning their ids.
fn push_results(ctxt: &mut Context, results: &Vec<ValType>) -> (r: Vec<VariableID>)
    requires
        old(ctxt).wf(),
    ensures
        old(ctxt).frame(&*final(ctxt)),
        r@.len() == results@.len(),
        r@ == fresh_ids(old(ctxt).model(), results@),
{
    let mut return_vars: Vec<VariableID> = Vec::new();
    let mut k: usize = 0;
    let ghost m0 = ctxt.model();
    proof {
        assert(results@.subrange(0, 0) =~= Seq::<ValType>::empty());
        assert(return_vars@ =~= fresh_ids(m0, results@.subrange(0, 0)));
    }
    while k < results.len()
        invariant
            k <= results@.len(),
            return_vars@.len() == k,
            old(ctxt).frame(&*ctxt),
            old(ctxt).wf(),
            m0 == old(ctxt).model(),
            return_vars@ == fresh_ids(m0, results@.subrange(0, k as int)),
            ctxt.model().var_count == m_create_all(m0, results@.subrange(0, k as int)).0.var_count,
        decreases results.len() - k,
    {
        let ghost mk = m_create_all(m0, results@.subrange(0, k as int)).0;
        let var = ctxt.create_var(results[k]);
        return_vars.push(var.id);
        ctxt.push_var(var);
        proof {
            let t = results@.subrange(0, k + 1);
            assert(t.drop_last() =~= results@.subrange(0, k as int));
            assert(t.last() == results@[k as int]);
            assert(m_create(mk, results@[k as int]).1.id == var.id);
            let vs = m_create_all(m0, results@.subrange(0, k as int)).1;
            assert(vs.push(m_create(mk, results@[k as int]).1).map_values(|v: Variable| v.id)
                =~= vs.map_values(|v: Variable| v.id).push(var.id));
        }
        k = k + 1;
    }
    proof {
        assert(results@.subrange(0, results@.len() as int) =~= results@);
    }
    return_vars
}

} // verus!
