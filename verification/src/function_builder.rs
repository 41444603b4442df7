//! Builds the IR of a function: basic blocks, reserved by id and filled one at a time, with the
//! phi nodes that receive the values flowing in from their predecessors.
use crate::context::{Context, CtxModel, m_create, m_pop, m_push};
use crate::error::ParserError;
use crate::functypes::FuncType;
use crate::ir::{
    BasicBlock, BasicBlockGlue, BasicBlockID, FunctionIR, Instruction, InstructionEncoder, PhiNode,
    Variable, VariableID,
};
use crate::types::{FuncIdx, LocalIdx, TableIdx, TypeIdx, ValType};
use itertools::Itertools;
use vstd::prelude::*;

verus! {

/// The id that stands for "no basic block".
pub const NO_BB: BasicBlockID = 0xFFFF_FFFF;

/// A reserved basic block and the instructions collected for it.
#[derive(Debug)]
pub struct BbEntry {
    pub bb: BasicBlock,
    pub instrs: InstructionEncoder,
}

/// The builder. Basic blocks get the ids `0, 1, 2, ...` in the order in which they are reserved;
/// an eliminated block leaves its id unused.
#[derive(Debug)]
pub struct FunctionIRBuilder {
    pub bbs: Vec<Option<BbEntry>>,
    /// The instructions of the basic block being filled.
    pub current_bb_instrs: InstructionEncoder,
    pub current_bb: BasicBlockID,
    pub locals: Vec<ValType>,
    pub num_vars: usize,
    pub func_type: FuncType,
}

/// The variables that a sequence of fresh variables of types `ts` gets, created in order.
pub open spec fn m_create_all(m: CtxModel, ts: Seq<ValType>) -> (CtxModel, Seq<Variable>)
    decreases ts.len(),
{
    if ts.len() == 0 {
        (m, Seq::empty())
    } else {
        let (m1, vs) = m_create_all(m, ts.drop_last());
        let (m2, v) = m_create(m1, ts.last());
        (m2, vs.push(v))
    }
}

/// The context after pushing the variables `vs` in order.
pub open spec fn m_push_all(m: CtxModel, vs: Seq<Variable>) -> CtxModel
    decreases vs.len(),
{
    if vs.len() == 0 {
        m
    } else {
        m_push(m_push_all(m, vs.drop_last()), vs.last())
    }
}

/// The variables that the phi nodes `phis` define.
pub open spec fn phi_vars(phis: Seq<PhiNode>) -> Seq<Variable> {
    Seq::new(phis.len(), |k: int| Variable { id: phis[k].out, type_: phis[k].type_ })
}

/// The phi nodes `new` are `old` with the value `outs[k]` flowing into the `k`-th from `from`.
pub open spec fn phis_fed(old: Seq<PhiNode>, new: Seq<PhiNode>, from: BasicBlockID, outs: Seq<VariableID>) -> bool {
    &&& new.len() == old.len()
    &&& forall|k: int|
        0 <= k < old.len() ==> {
            &&& (#[trigger] new[k]).out == old[k].out
            &&& new[k].type_ == old[k].type_
            &&& k < outs.len() ==> new[k].inputs@ == old[k].inputs@.push((from, outs[k]))
            &&& k >= outs.len() ==> new[k].inputs@ == old[k].inputs@
        }
}

/// The ids of the live blocks below `n`, ascending.
pub open spec fn live_ids_below(bbs: Seq<Option<BbEntry>>, n: nat) -> Seq<BasicBlockID>
    decreases n,
{
    if n == 0 {
        Seq::empty()
    } else {
        let p = live_ids_below(bbs, (n - 1) as nat);
        if bbs[n - 1] is Some {
            p.push((n - 1) as BasicBlockID)
        } else {
            p
        }
    }
}

/// A live block below `n` is among the live ids below `n`.
pub proof fn lemma_live_in_ids(a: Seq<Option<BbEntry>>, n: nat, id: BasicBlockID)
    requires
        id < n <= a.len(),
        a[id as int] is Some,
    ensures
        exists|j: int| 0 <= j < live_ids_below(a, n).len() && live_ids_below(a, n)[j] == id,
    decreases n,
{
    let p = live_ids_below(a, (n - 1) as nat);
    if id == n - 1 {
        assert(live_ids_below(a, n)[p.len() as int] == id);
    } else {
        lemma_live_in_ids(a, (n - 1) as nat, id);
        let j = choose|j: int| 0 <= j < p.len() && p[j] == id;
        assert(live_ids_below(a, n)[j] == id);
    }
}

/// The context after popping `n` values of any type.
pub open spec fn m_pop_n(m: CtxModel, n: nat) -> CtxModel
    decreases n,
{
    if n == 0 {
        m
    } else {
        m_pop(m_pop_n(m, (n - 1) as nat)).0
    }
}

/// Live-block lists only depend on which slots are filled.
pub proof fn lemma_live_ids_same(a: Seq<Option<BbEntry>>, b: Seq<Option<BbEntry>>, n: nat)
    requires
        n <= a.len(),
        n <= b.len(),
        forall|k: int| 0 <= k < n ==> (a[k] is Some <==> b[k] is Some),
    ensures
        live_ids_below(a, n) == live_ids_below(b, n),
    decreases n,
{
    if n > 0 {
        lemma_live_ids_same(a, b, (n - 1) as nat);
    }
}

/// The live-block list below `n` holds ascending ids below `n`.
pub proof fn lemma_live_ids_bound(a: Seq<Option<BbEntry>>, n: nat)
    requires
        n <= a.len(),
        a.len() < NO_BB,
    ensures
        forall|j: int| 0 <= j < live_ids_below(a, n).len() ==> #[trigger] live_ids_below(a, n)[j] < n
            && a[live_ids_below(a, n)[j] as int] is Some,
        live_ids_below(a, n).len() <= n,
    decreases n,
{
    if n > 0 {
        lemma_live_ids_bound(a, (n - 1) as nat);
        let p = live_ids_below(a, (n - 1) as nat);
        assert forall|j: int| 0 <= j < live_ids_below(a, n).len() implies #[trigger] live_ids_below(a, n)[j] < n
            && a[live_ids_below(a, n)[j] as int] is Some by {
            if j < p.len() {
                assert(live_ids_below(a, n)[j] == p[j]);
            } else {
                assert(a[n - 1] is Some);
                assert(live_ids_below(a, n)[j] == (n - 1) as BasicBlockID);
            }
        }
    }
}

/// The elements of `s` without repetitions, each kept at its first occurrence.
pub open spec fn first_occurrences<A>(s: Seq<A>) -> Seq<A>
    decreases s.len(),
{
    if s.len() == 0 {
        s
    } else if s.drop_last().contains(s.last()) {
        first_occurrences(s.drop_last())
    } else {
        first_occurrences(s.drop_last()).push(s.last())
    }
}

/// `Itertools::unique` of the `itertools` crate: the items without repetitions, in the order of
/// their first occurrence (the crate documents the iterator as stable and keeping the first of
/// equal items).
#[verifier::external_body]
fn unique_pairs(v: Vec<(BasicBlockID, Vec<VariableID>)>) -> (r: Vec<(BasicBlockID, Vec<VariableID>)>)
    ensures
        r.deep_view() == first_occurrences(v.deep_view()),
{
    v.into_iter().unique().collect()
}

/// Every element kept by `first_occurrences` occurs in the sequence.
pub proof fn lemma_first_occurrences_sub<A>(s: Seq<A>)
    ensures
        forall|j: int|
            0 <= j < first_occurrences(s).len() ==> exists|i: int|
                0 <= i < s.len() && s[i] == #[trigger] first_occurrences(s)[j],
    decreases s.len(),
{
    if s.len() > 0 {
        let p = s.drop_last();
        lemma_first_occurrences_sub(p);
        let f = first_occurrences(s);
        assert forall|j: int| 0 <= j < f.len() implies exists|i: int| 0 <= i < s.len() && s[i] == #[trigger] f[j] by {
            if j < first_occurrences(p).len() {
                assert(f[j] == first_occurrences(p)[j]);
                let i = choose|i: int| 0 <= i < p.len() && p[i] == first_occurrences(p)[j];
                assert(s[i] == p[i]);
            } else {
                assert(f[j] == s.last());
                assert(s[s.len() - 1] == f[j]);
            }
        }
    }
}

impl FunctionIRBuilder {
    pub open spec fn wf(&self) -> bool {
        &&& self.bbs@.len() < NO_BB
        &&& (self.current_bb == NO_BB || (self.current_bb < self.bbs@.len()
            && self.bbs@[self.current_bb as int] is Some))
        &&& forall|k: int|
            0 <= k < self.bbs@.len() && #[trigger] self.bbs@[k] is Some ==> self.bbs@[k]->0.bb.id
                == k
    }

    /// Number of ids handed out.
    pub open spec fn count(&self) -> nat {
        self.bbs@.len()
    }

    /// Whether block `id` was reserved and not eliminated.
    pub open spec fn live(&self, id: BasicBlockID) -> bool {
        id < self.bbs@.len() && self.bbs@[id as int] is Some
    }

    /// The block being filled, or `NO_BB`.
    pub open spec fn current(&self) -> BasicBlockID {
        self.current_bb
    }

    /// Block `id` as built so far (its instructions are kept apart until the end).
    pub open spec fn block(&self, id: BasicBlockID) -> BasicBlock {
        self.bbs@[id as int]->0.bb
    }

    /// The instructions stored for block `id` while another block is filled.
    pub open spec fn stored(&self, id: BasicBlockID) -> InstructionEncoder {
        self.bbs@[id as int]->0.instrs
    }

    pub open spec fn locals_spec(&self) -> Seq<ValType> {
        self.locals@
    }

    pub open spec fn num_vars_spec(&self) -> usize {
        self.num_vars
    }

    pub open spec fn func_type_spec(&self) -> FuncType {
        self.func_type
    }

    /// The ids of the live blocks, ascending.
    pub open spec fn live_ids(&self) -> Seq<BasicBlockID> {
        live_ids_below(self.bbs@, self.bbs@.len())
    }

    /// Nothing but the blocks `changed` differs between `self` and `other`; the ids, the
    /// current block, all instructions and the function data are the same.
    pub open spec fn same_but(&self, other: &Self, changed: Set<BasicBlockID>) -> bool {
        &&& other.count() == self.count()
        &&& other.current() == self.current()
        &&& other.current_bb_instrs == self.current_bb_instrs
        &&& other.locals_spec() == self.locals_spec()
        &&& other.num_vars_spec() == self.num_vars_spec()
        &&& other.func_type_spec() == self.func_type_spec()
        &&& forall|id: BasicBlockID| #[trigger] other.live(id) == self.live(id)
        &&& forall|id: BasicBlockID| self.live(id) ==> #[trigger] other.stored(id) == self.stored(id)
        &&& forall|id: BasicBlockID|
            self.live(id) && !changed.contains(id) ==> #[trigger] other.block(id) == self.block(id)
        &&& forall|id: BasicBlockID|
            self.live(id) && id != self.current() ==> (#[trigger] other.block(id)).terminator == self.block(
                id,
            ).terminator
    }

    pub fn new() -> (b: Self)
        ensures
            b.wf(),
            b.count() == 0,
            b.current() == NO_BB,
            b.current_bb_instrs.instructions() == Seq::<Instruction>::empty(),
            b.current_bb_instrs.terminator_spec() is None,
            b.locals_spec() == Seq::<ValType>::empty(),
            b.num_vars_spec() == 0,
    {
        FunctionIRBuilder {
            bbs: Vec::new(),
            current_bb_instrs: InstructionEncoder::new(),
            current_bb: NO_BB,
            locals: Vec::new(),
            num_vars: 0,
            func_type: FuncType::default(),
        }
    }

    /// Sets the type of the function being built.
    pub fn init(&mut self, func_type: FuncType)
        requires
            old(self).wf(),
        ensures
            final(self).wf(),
            final(self).func_type_spec() == func_type,
            final(self).count() == old(self).count(),
            final(self).current() == old(self).current(),
            final(self).current_bb_instrs == old(self).current_bb_instrs,
            final(self).locals_spec() == old(self).locals_spec(),
            final(self).num_vars_spec() == old(self).num_vars_spec(),
            forall|id: BasicBlockID| #[trigger] final(self).live(id) == old(self).live(id),
    {
        self.func_type = func_type;
    }

    /// The parameters of the function become its first locals.
    pub fn begin_locals(&mut self)
        requires
            old(self).wf(),
        ensures
            final(self).wf(),
            final(self).locals_spec() == old(self).locals_spec() + old(self).func_type_spec()@.0,
            final(self).func_type_spec() == old(self).func_type_spec(),
            final(self).count() == old(self).count(),
            final(self).current() == old(self).current(),
            final(self).num_vars_spec() == old(self).num_vars_spec(),
    {
        let params = self.func_type.params();
        let mut k: usize = 0;
        let ghost l0 = self.locals@;
        while k < params.len()
            invariant
                k <= params@.len(),
                params@ == self.func_type@.0,
                self.locals@ == l0 + params@.subrange(0, k as int),
                self.wf(),
                self.bbs@.len() == old(self).bbs@.len(),
                self.current_bb == old(self).current_bb,
                self.num_vars == old(self).num_vars,
                self.func_type == old(self).func_type,
            decreases params.len() - k,
        {
            self.locals.push(params[k]);
            k = k + 1;
            proof {
                assert(params@.subrange(0, k as int) =~= params@.subrange(0, k - 1).push(params@[k - 1]));
            }
        }
        proof {
            assert(params@.subrange(0, k as int) =~= params@);
        }
    }

    /// Adds a declared local.
    pub fn add_local(&mut self, _local_idx: LocalIdx, local_ty: ValType)
        requires
            old(self).wf(),
        ensures
            final(self).wf(),
            final(self).locals_spec() == old(self).locals_spec().push(local_ty),
            final(self).func_type_spec() == old(self).func_type_spec(),
            final(self).count() == old(self).count(),
            final(self).current() == old(self).current(),
            final(self).num_vars_spec() == old(self).num_vars_spec(),
    {
        self.locals.push(local_ty);
    }

    /// Ends the declaration of locals.
    pub fn end_locals(&mut self)
        ensures
            *final(self) == *old(self),
    {
    }

    /// Records the number of variables of the function.
    pub fn set_var_count(&mut self, var_count: usize)
        requires
            old(self).wf(),
        ensures
            final(self).wf(),
            final(self).num_vars_spec() == var_count,
            final(self).locals_spec() == old(self).locals_spec(),
            final(self).func_type_spec() == old(self).func_type_spec(),
            forall|id: BasicBlockID| #[trigger] final(self).live(id) == old(self).live(id),
            final(self).count() == old(self).count(),
            final(self).current() == old(self).current(),
            forall|id: BasicBlockID| #[trigger] final(self).block(id) == old(self).block(id),
            forall|id: BasicBlockID| #[trigger] final(self).stored(id) == old(self).stored(id),
            final(self).current_bb_instrs == old(self).current_bb_instrs,
    {
        self.num_vars = var_count;
    }

    /// Number of ids handed out.
    pub fn bb_count(&self) -> (n: usize)
        ensures
            n == self.count(),
    {
        self.bbs.len()
    }

    /// Reserves a new, empty basic block with the next id.
    pub fn reserve_bb(&mut self) -> (id: BasicBlockID)
        requires
            old(self).wf(),
            old(self).count() + 1 < NO_BB,
        ensures
            final(self).wf(),
            id == old(self).count(),
            final(self).count() == old(self).count() + 1,
            final(self).live(id),
            final(self).block(id).id == id,
            final(self).block(id).inputs@ == Seq::<PhiNode>::empty(),
            final(self).block(id).instructions@ == Seq::<Instruction>::empty(),
            final(self).block(id).terminator == BasicBlockGlue::Unreachable,
            final(self).stored(id).instructions() == Seq::<Instruction>::empty(),
            final(self).stored(id).terminator_spec() is None,
            final(self).current() == old(self).current(),
            final(self).current_bb_instrs == old(self).current_bb_instrs,
            final(self).locals_spec() == old(self).locals_spec(),
            final(self).num_vars_spec() == old(self).num_vars_spec(),
            final(self).func_type_spec() == old(self).func_type_spec(),
            forall|k: BasicBlockID|
                #[trigger] old(self).live(k) ==> final(self).live(k) && final(self).block(k)
                    == old(self).block(k) && final(self).stored(k) == old(self).stored(k),
            forall|k: BasicBlockID| k != id ==> (#[trigger] final(self).live(k) == old(self).live(k)),
    {
        let id = self.bbs.len() as BasicBlockID;
        self.bbs.push(Some(BbEntry { bb: BasicBlock::new(id), instrs: InstructionEncoder::new() }));
        id
    }

    /// Reserves a new basic block, unless the ids are used up.
    pub fn try_reserve_bb(&mut self) -> (r: Result<BasicBlockID, ParserError>)
        requires
            old(self).wf(),
        ensures
            final(self).wf(),
            old(self).count() + 1 >= NO_BB ==> r is Err && *final(self) == *old(self),
            old(self).count() + 1 < NO_BB ==> r == Ok::<BasicBlockID, ParserError>(old(self).count() as BasicBlockID),
            r matches Ok(id) ==> {
                &&& final(self).count() == old(self).count() + 1
                &&& final(self).live(id)
                &&& final(self).block(id).id == id
                &&& final(self).block(id).inputs@ == Seq::<PhiNode>::empty()
                &&& final(self).block(id).terminator == BasicBlockGlue::Unreachable
                &&& final(self).stored(id).instructions() == Seq::<Instruction>::empty()
                &&& final(self).stored(id).terminator_spec() is None
                &&& final(self).current() == old(self).current()
                &&& final(self).current_bb_instrs == old(self).current_bb_instrs
                &&& final(self).locals_spec() == old(self).locals_spec()
                &&& final(self).num_vars_spec() == old(self).num_vars_spec()
                &&& final(self).func_type_spec() == old(self).func_type_spec()
                &&& forall|k: BasicBlockID|
                    #[trigger] old(self).live(k) ==> final(self).live(k) && final(self).block(k)
                        == old(self).block(k) && final(self).stored(k) == old(self).stored(k)
                &&& forall|k: BasicBlockID| k != id ==> (#[trigger] final(self).live(k) == old(self).live(k))
            },
    {
        if self.bbs.len() >= (NO_BB - 1) as usize {
            return Err(ParserError::msg("too many basic blocks"));
        }
        Ok(self.reserve_bb())
    }

    /// Continues with block `id`: the instructions of the block being filled are stored away and
    /// those stored for `id` are taken up.
    pub fn continue_bb(&mut self, id: BasicBlockID)
        requires
            old(self).wf(),
            old(self).live(id),
        ensures
            final(self).wf(),
            final(self).current() == id,
            final(self).count() == old(self).count(),
            id == old(self).current() ==> final(self).current_bb_instrs == old(self).current_bb_instrs,
            id != old(self).current() ==> final(self).current_bb_instrs == old(self).stored(id),
            id != old(self).current() && old(self).current() != NO_BB ==> final(self).stored(
                old(self).current(),
            ) == old(self).current_bb_instrs,
            final(self).locals_spec() == old(self).locals_spec(),
            final(self).num_vars_spec() == old(self).num_vars_spec(),
            final(self).func_type_spec() == old(self).func_type_spec(),
            forall|k: BasicBlockID| #[trigger] final(self).live(k) == old(self).live(k),
            forall|k: BasicBlockID| old(self).live(k) ==> #[trigger] final(self).block(k) == old(self).block(k),
            forall|k: BasicBlockID|
                old(self).live(k) && k != id && k != old(self).current() ==> #[trigger] final(self).stored(k)
                    == old(self).stored(k),
    {
        if self.current_bb != NO_BB {
            let idx = self.current_bb as usize;
            let mut slot: Option<BbEntry> = None;
            self.bbs.set_and_swap(idx, &mut slot);
            match slot {
                Some(mut e) => {
                    std::mem::swap(&mut e.instrs, &mut self.current_bb_instrs);
                    self.bbs.set(idx, Some(e));
                },
                None => {},
            }
        }
        self.current_bb = id;
        let idx = id as usize;
        let mut slot: Option<BbEntry> = None;
        self.bbs.set_and_swap(idx, &mut slot);
        match slot {
            Some(mut e) => {
                std::mem::swap(&mut e.instrs, &mut self.current_bb_instrs);
                self.bbs.set(idx, Some(e));
            },
            None => {},
        }
    }

    /// Feeds the phi nodes of block `target` with `outs`, flowing in from the current block.
    fn feed_phis(&mut self, target: BasicBlockID, outs: &Vec<VariableID>)
        requires
            old(self).wf(),
        ensures
            final(self).wf(),
            final(self).same_but(&*old(self), set![target]),
            old(self).live(target) ==> {
                &&& final(self).stored(target) == old(self).stored(target)
                &&& final(self).block(target).id == old(self).block(target).id
                &&& final(self).block(target).instructions == old(self).block(target).instructions
                &&& final(self).block(target).terminator == old(self).block(target).terminator
                &&& phis_fed(
                    old(self).block(target).inputs@,
                    final(self).block(target).inputs@,
                    old(self).current(),
                    outs@,
                )
            },
    {
        if (target as usize) < self.bbs.len() {
            let idx = target as usize;
            let mut slot: Option<BbEntry> = None;
            self.bbs.set_and_swap(idx, &mut slot);
            match slot {
                Some(mut e) => {
                    let ghost e0 = e;
                    let from = self.current_bb;
                    let mut phis: Vec<PhiNode> = Vec::new();
                    std::mem::swap(&mut phis, &mut e.bb.inputs);
                    let ghost p0 = phis@;
                    let mut k: usize = 0;
                    while k < phis.len() && k < outs.len()
                        invariant
                            k <= phis@.len(),
                            k <= outs@.len(),
                            phis@.len() == p0.len(),
                            forall|j: int|
                                0 <= j < p0.len() ==> {
                                    &&& (#[trigger] phis@[j]).out == p0[j].out
                                    &&& phis@[j].type_ == p0[j].type_
                                    &&& j < k ==> phis@[j].inputs@ == p0[j].inputs@.push((from, outs@[j]))
                                    &&& j >= k ==> phis@[j].inputs@ == p0[j].inputs@
                                },
                        decreases phis.len() - k,
                    {
                        let ghost prev = phis@;
                        let mut phi = PhiNode { inputs: Vec::new(), out: 0, type_: ValType::VecType };
                        phis.set_and_swap(k, &mut phi);
                        phi.inputs.push((from, outs[k]));
                        phis.set(k, phi);
                        proof {
                            assert forall|j: int|
                                0 <= j < p0.len() implies {
                                    &&& (#[trigger] phis@[j]).out == p0[j].out
                                    &&& phis@[j].type_ == p0[j].type_
                                    &&& j < k + 1 ==> phis@[j].inputs@ == p0[j].inputs@.push((from, outs@[j]))
                                    &&& j >= k + 1 ==> phis@[j].inputs@ == p0[j].inputs@
                                } by {
                                if j != k {
                                    assert(phis@[j] == prev[j]);
                                    assert(prev[j].out == p0[j].out);
                                }
                            }
                        }
                        k = k + 1;
                    }
                    proof {
                        assert(k == p0.len() || k == outs@.len());
                    }
                    std::mem::swap(&mut phis, &mut e.bb.inputs);
                    self.bbs.set(idx, Some(e));
                    proof {
                        assert(self.bbs@[idx as int] == Some(e));
                    }
                },
                None => {
                    self.bbs.set(idx, None);
                },
            }
            proof {
                assert(self.bbs@ =~= old(self).bbs@.update(idx as int, self.bbs@[idx as int]));
            }
        }
    }

    /// Ends the current block with `t`.
    fn set_terminator(&mut self, t: BasicBlockGlue)
        requires
            old(self).wf(),
            old(self).live(old(self).current()),
        ensures
            final(self).wf(),
            final(self).same_but(&*old(self), set![old(self).current()]),
            final(self).stored(old(self).current()) == old(self).stored(old(self).current()),
            final(self).block(old(self).current()).id == old(self).block(old(self).current()).id,
            final(self).block(old(self).current()).inputs == old(self).block(old(self).current()).inputs,
            final(self).block(old(self).current()).instructions == old(self).block(
                old(self).current(),
            ).instructions,
            final(self).block(old(self).current()).terminator == t,
    {
        let idx = self.current_bb as usize;
        let mut slot: Option<BbEntry> = None;
        self.bbs.set_and_swap(idx, &mut slot);
        match slot {
            Some(mut e) => {
                e.bb.terminator = t;
                self.bbs.set(idx, Some(e));
            },
            None => {
                self.bbs.set(idx, None);
            },
        }
        proof {
            assert(self.bbs@ =~= old(self).bbs@.update(idx as int, self.bbs@[idx as int]));
        }
    }

    /// Ends the current block with a jump to `target`, whose phi nodes receive `output_vars`.
    pub fn terminate_jmp(&mut self, target: BasicBlockID, output_vars: Vec<VariableID>)
        requires
            old(self).wf(),
            old(self).live(old(self).current()),
        ensures
            final(self).wf(),
            final(self).same_but(&*old(self), set![target, old(self).current()]),
            final(self).block(old(self).current()).terminator == (BasicBlockGlue::Jmp { target, output_vars }),
            old(self).live(target) ==> phis_fed(
                old(self).block(target).inputs@,
                final(self).block(target).inputs@,
                old(self).current(),
                output_vars@,
            ),
            target != old(self).current() ==> final(self).block(old(self).current()).inputs
                == old(self).block(old(self).current()).inputs,
    {
        self.feed_phis(target, &output_vars);
        self.set_terminator(BasicBlockGlue::Jmp { target, output_vars });
    }

    /// Ends the current block with a conditional jump; the phi nodes of both targets receive
    /// `output_vars`.
    pub fn terminate_jmp_cond(
        &mut self,
        cond_var: VariableID,
        target_if_true: BasicBlockID,
        target_if_false: BasicBlockID,
        output_vars: Vec<VariableID>,
    )
        requires
            old(self).wf(),
            old(self).live(old(self).current()),
        ensures
            final(self).wf(),
            final(self).same_but(&*old(self), set![target_if_true, target_if_false, old(self).current()]),
            final(self).block(old(self).current()).terminator == (BasicBlockGlue::JmpCond {
                cond_var,
                target_if_true,
                target_if_false,
                output_vars,
            }),
            target_if_true != target_if_false && old(self).live(target_if_true) ==> phis_fed(
                old(self).block(target_if_true).inputs@,
                final(self).block(target_if_true).inputs@,
                old(self).current(),
                output_vars@,
            ),
            target_if_true != target_if_false && old(self).live(target_if_false) ==> phis_fed(
                old(self).block(target_if_false).inputs@,
                final(self).block(target_if_false).inputs@,
                old(self).current(),
                output_vars@,
            ),
    {
        self.feed_phis(target_if_true, &output_vars);
        self.feed_phis(target_if_false, &output_vars);
        self.set_terminator(BasicBlockGlue::JmpCond { cond_var, target_if_true, target_if_false, output_vars });
    }

    /// Ends the current block with a marker for the end of an `if` branch followed by `else`.
    pub fn terminate_else(&mut self, output_vars: Vec<VariableID>)
        requires
            old(self).wf(),
            old(self).live(old(self).current()),
        ensures
            final(self).wf(),
            final(self).same_but(&*old(self), set![old(self).current()]),
            final(self).block(old(self).current()).terminator == (BasicBlockGlue::ElseMarker { output_vars }),
            final(self).block(old(self).current()).inputs == old(self).block(old(self).current()).inputs,
    {
        self.set_terminator(BasicBlockGlue::ElseMarker { output_vars });
    }

    /// Ends the current block with a return of `return_vars`.
    pub fn terminate_return(&mut self, return_vars: Vec<VariableID>)
        requires
            old(self).wf(),
            old(self).live(old(self).current()),
        ensures
            final(self).wf(),
            final(self).same_but(&*old(self), set![old(self).current()]),
            final(self).block(old(self).current()).terminator == (BasicBlockGlue::Return { return_vars }),
            final(self).block(old(self).current()).inputs == old(self).block(old(self).current()).inputs,
    {
        self.set_terminator(BasicBlockGlue::Return { return_vars });
    }

    /// Ends the current block as unreachable.
    pub fn terminate_unreachable(&mut self)
        requires
            old(self).wf(),
            old(self).live(old(self).current()),
        ensures
            final(self).wf(),
            final(self).same_but(&*old(self), set![old(self).current()]),
            final(self).block(old(self).current()).terminator == BasicBlockGlue::Unreachable,
            final(self).block(old(self).current()).inputs == old(self).block(old(self).current()).inputs,
    {
        self.set_terminator(BasicBlockGlue::Unreachable);
    }

    /// Ends the current block with a call; execution goes on in `return_bb`.
    pub fn terminate_call(
        &mut self,
        func_idx: FuncIdx,
        return_bb: BasicBlockID,
        call_params: Vec<VariableID>,
        return_vars: Vec<VariableID>,
    )
        requires
            old(self).wf(),
            old(self).live(old(self).current()),
        ensures
            final(self).wf(),
            final(self).same_but(&*old(self), set![old(self).current()]),
            final(self).block(old(self).current()).terminator == (BasicBlockGlue::Call {
                func_idx,
                return_bb,
                call_params,
                return_vars,
            }),
            final(self).block(old(self).current()).inputs == old(self).block(old(self).current()).inputs,
    {
        self.set_terminator(BasicBlockGlue::Call { func_idx, return_bb, call_params, return_vars });
    }

    /// Ends the current block with an indirect call; execution goes on in `return_bb`.
    pub fn terminate_call_indirect(
        &mut self,
        type_idx: TypeIdx,
        selector_var: VariableID,
        table_idx: TableIdx,
        return_bb: BasicBlockID,
        call_params: Vec<VariableID>,
        return_vars: Vec<VariableID>,
    )
        requires
            old(self).wf(),
            old(self).live(old(self).current()),
        ensures
            final(self).wf(),
            final(self).same_but(&*old(self), set![old(self).current()]),
            final(self).block(old(self).current()).terminator == (BasicBlockGlue::CallIndirect {
                type_idx,
                selector_var,
                table_idx,
                return_bb,
                call_params,
                return_vars,
            }),
            final(self).block(old(self).current()).inputs == old(self).block(old(self).current()).inputs,
    {
        self.set_terminator(
            BasicBlockGlue::CallIndirect { type_idx, selector_var, table_idx, return_bb, call_params, return_vars },
        );
    }

    /// The output variables of the current block if it ends with an `else` marker.
    pub fn current_bb_get_else_marker_out_vars(&self) -> (r: Option<Vec<VariableID>>)
        requires
            self.wf(),
            self.live(self.current()),
        ensures
            self.block(self.current()).terminator is ElseMarker ==> (r matches Some(v) && v@
                == self.block(self.current()).terminator->ElseMarker_output_vars@),
            !(self.block(self.current()).terminator is ElseMarker) ==> r is None,
    {
        let idx = self.current_bb as usize;
        match &self.bbs[idx] {
            Some(e) => match &e.bb.terminator {
                BasicBlockGlue::ElseMarker { output_vars } => {
                    let v = output_vars.clone();
                    proof {
                        assert(v@ =~= output_vars@);
                    }
                    Some(v)
                },
                _ => None,
            },
            None => None,
        }
    }

    /// The variables that the phi nodes of the current block define.
    pub fn current_bb_input_var_ids_get(&self) -> (r: Vec<VariableID>)
        requires
            self.wf(),
            self.live(self.current()),
        ensures
            r@ == phi_vars(self.block(self.current()).inputs@).map_values(|v: Variable| v.id),
    {
        let idx = self.current_bb as usize;
        let mut r: Vec<VariableID> = Vec::new();
        match &self.bbs[idx] {
            Some(e) => {
                let mut k: usize = 0;
                while k < e.bb.inputs.len()
                    invariant
                        k <= e.bb.inputs@.len(),
                        r@ == phi_vars(e.bb.inputs@).map_values(|v: Variable| v.id).subrange(0, k as int),
                    decreases e.bb.inputs.len() - k,
                {
                    r.push(e.bb.inputs[k].out);
                    k = k + 1;
                    proof {
                        assert(r@ =~= phi_vars(e.bb.inputs@).map_values(|v: Variable| v.id).subrange(0, k as int));
                    }
                }
                proof {
                    assert(r@ =~= phi_vars(e.bb.inputs@).map_values(|v: Variable| v.id));
                }
            },
            None => {},
        }
        r
    }

    /// Drops the current block; no block is current afterwards.
    pub fn eliminate_current_bb(&mut self)
        requires
            old(self).wf(),
            old(self).live(old(self).current()),
        ensures
            final(self).wf(),
            final(self).current() == NO_BB,
            final(self).count() == old(self).count(),
            !final(self).live(old(self).current()),
            final(self).current_bb_instrs.instructions() == Seq::<Instruction>::empty(),
            final(self).current_bb_instrs.terminator_spec() is None,
            final(self).locals_spec() == old(self).locals_spec(),
            final(self).num_vars_spec() == old(self).num_vars_spec(),
            final(self).func_type_spec() == old(self).func_type_spec(),
            forall|k: BasicBlockID|
                k != old(self).current() ==> #[trigger] final(self).live(k) == old(self).live(k),
            forall|k: BasicBlockID|
                k != old(self).current() && old(self).live(k) ==> #[trigger] final(self).block(k)
                    == old(self).block(k) && final(self).stored(k) == old(self).stored(k),
    {
        let idx = self.current_bb as usize;
        self.bbs.set(idx, None);
        self.current_bb = NO_BB;
        self.current_bb_instrs = InstructionEncoder::new();
    }

    /// The terminator of the current block, if there is one.
    pub fn try_get_current_terminator(&self) -> (r: Option<&BasicBlockGlue>)
        requires
            self.wf(),
        ensures
            self.live(self.current()) ==> r == Some(&self.block(self.current()).terminator),
            !self.live(self.current()) ==> r is None,
    {
        if self.current_bb == NO_BB {
            return None;
        }
        match &self.bbs[self.current_bb as usize] {
            Some(e) => Some(&e.bb.terminator),
            None => None,
        }
    }

    /// The current block.
    pub fn current_bb_get(&self) -> (r: &BasicBlock)
        requires
            self.wf(),
            self.live(self.current()),
        ensures
            *r == self.block(self.current()),
    {
        match &self.bbs[self.current_bb as usize] {
            Some(e) => &e.bb,
            None => {
                proof {
                    assert(false);
                }
                &self.bbs[0].as_ref().unwrap().bb
            },
        }
    }

    /// The instructions of block `id`: the ones being collected if it is current, else the ones
    /// stored for it.
    pub open spec fn instrs_of(&self, id: BasicBlockID) -> InstructionEncoder {
        if id == self.current() {
            self.current_bb_instrs
        } else {
            self.stored(id)
        }
    }

    /// Gives block `id` one phi node per type of `inputs`, each defining a fresh variable.
    pub fn set_bb_phi_inputs(&mut self, id: BasicBlockID, ctxt: &mut Context, inputs: &Vec<ValType>)
        requires
            old(self).wf(),
            old(self).live(id),
            old(ctxt).wf(),
        ensures
            final(self).wf(),
            final(self).same_but(&*old(self), set![id]),
            final(self).stored(id) == old(self).stored(id),
            final(self).block(id).id == old(self).block(id).id,
            final(self).block(id).instructions == old(self).block(id).instructions,
            final(self).block(id).terminator == old(self).block(id).terminator,
            old(ctxt).frame(&*final(ctxt)),
            ({
                let (m, vs) = m_create_all(old(ctxt).model(), inputs@);
                &&& final(ctxt).model() == m
                &&& phi_vars(final(self).block(id).inputs@) == vs
                &&& forall|k: int|
                    0 <= k < vs.len() ==> (#[trigger] final(self).block(id).inputs@[k]).inputs@ == Seq::<
                        (BasicBlockID, VariableID),
                    >::empty()
            }),
    {
        let mut phis: Vec<PhiNode> = Vec::new();
        let mut k: usize = 0;
        let ghost m0 = ctxt.model();
        while k < inputs.len()
            invariant
                k <= inputs@.len(),
                old(ctxt).frame(&*ctxt),
                old(ctxt).wf(),
                m0 == old(ctxt).model(),
                (ctxt.model(), phi_vars(phis@)) == m_create_all(m0, inputs@.subrange(0, k as int)),
                phis@.len() == k,
                forall|j: int| 0 <= j < k ==> (#[trigger] phis@[j]).inputs@ == Seq::<(BasicBlockID, VariableID)>::empty(),
            decreases inputs.len() - k,
        {
            let ghost before = phis@;
            let v = ctxt.create_var(inputs[k]);
            phis.push(PhiNode { inputs: Vec::new(), out: v.id, type_: inputs[k] });
            k = k + 1;
            proof {
                assert(inputs@.subrange(0, k as int).drop_last() =~= inputs@.subrange(0, k - 1));
                assert(phi_vars(phis@) =~= phi_vars(before).push(v));
            }
        }
        proof {
            assert(inputs@.subrange(0, k as int) =~= inputs@);
        }
        let idx = id as usize;
        let mut slot: Option<BbEntry> = None;
        self.bbs.set_and_swap(idx, &mut slot);
        match slot {
            Some(mut e) => {
                e.bb.inputs = phis;
                self.bbs.set(idx, Some(e));
            },
            None => {
                self.bbs.set(idx, None);
            },
        }
        proof {
            assert(self.bbs@ =~= old(self).bbs@.update(idx as int, self.bbs@[idx as int]));
        }
    }

    /// Pushes the variables defined by the phi nodes of the current block.
    pub fn put_phi_inputs_on_stack(&self, ctxt: &mut Context)
        requires
            self.wf(),
            self.live(self.current()),
            old(ctxt).wf(),
        ensures
            old(ctxt).frame(&*final(ctxt)),
            final(ctxt).model() == m_push_all(old(ctxt).model(), phi_vars(self.block(self.current()).inputs@)),
            final(ctxt).poison == old(ctxt).poison,
    {
        let idx = self.current_bb as usize;
        match &self.bbs[idx] {
            Some(e) => {
                let mut k: usize = 0;
                let ghost m0 = ctxt.model();
                while k < e.bb.inputs.len()
                    invariant
                        k <= e.bb.inputs@.len(),
                        old(ctxt).frame(&*ctxt),
                        old(ctxt).wf(),
                        ctxt.poison == old(ctxt).poison,
                        m0 == old(ctxt).model(),
                        ctxt.model() == m_push_all(m0, phi_vars(e.bb.inputs@).subrange(0, k as int)),
                    decreases e.bb.inputs.len() - k,
                {
                    let phi = &e.bb.inputs[k];
                    ctxt.push_var(Variable { id: phi.out, type_: phi.type_ });
                    k = k + 1;
                    proof {
                        assert(phi_vars(e.bb.inputs@).subrange(0, k as int).drop_last() =~= phi_vars(
                            e.bb.inputs@,
                        ).subrange(0, k - 1));
                    }
                }
                proof {
                    assert(phi_vars(e.bb.inputs@).subrange(0, k as int) =~= phi_vars(e.bb.inputs@));
                }
            },
            None => {},
        }
    }

    /// Pops as many values as the current block has phi nodes, then pushes the variables that
    /// they define.
    pub fn replace_phi_inputs_on_stack(&self, ctxt: &mut Context)
        requires
            self.wf(),
            self.live(self.current()),
            old(ctxt).wf(),
        ensures
            old(ctxt).frame(&*final(ctxt)),
            final(ctxt).model() == m_push_all(
                m_pop_n(old(ctxt).model(), self.block(self.current()).inputs@.len()),
                phi_vars(self.block(self.current()).inputs@),
            ),
    {
        let idx = self.current_bb as usize;
        match &self.bbs[idx] {
            Some(e) => {
                let mut k: usize = 0;
                let ghost m0 = ctxt.model();
                while k < e.bb.inputs.len()
                    invariant
                        k <= e.bb.inputs@.len(),
                        old(ctxt).frame(&*ctxt),
                        old(ctxt).wf(),
                        m0 == old(ctxt).model(),
                        ctxt.model() == m_pop_n(m0, k as nat),
                    decreases e.bb.inputs.len() - k,
                {
                    let _ = ctxt.pop_var();
                    k = k + 1;
                }
                let ghost m1 = ctxt.model();
                let mut k: usize = 0;
                while k < e.bb.inputs.len()
                    invariant
                        k <= e.bb.inputs@.len(),
                        old(ctxt).frame(&*ctxt),
                        old(ctxt).wf(),
                        m1 == m_pop_n(old(ctxt).model(), e.bb.inputs@.len()),
                        ctxt.model() == m_push_all(m1, phi_vars(e.bb.inputs@).subrange(0, k as int)),
                    decreases e.bb.inputs.len() - k,
                {
                    let phi = &e.bb.inputs[k];
                    ctxt.push_var(Variable { id: phi.out, type_: phi.type_ });
                    k = k + 1;
                    proof {
                        assert(phi_vars(e.bb.inputs@).subrange(0, k as int).drop_last() =~= phi_vars(
                            e.bb.inputs@,
                        ).subrange(0, k - 1));
                    }
                }
                proof {
                    assert(phi_vars(e.bb.inputs@).subrange(0, k as int) =~= phi_vars(e.bb.inputs@));
                }
            },
            None => {},
        }
    }

    /// The basic blocks, ascending by id, each with its instructions.
    pub fn finalize_bbs(self) -> (r: Vec<BasicBlock>)
        requires
            self.wf(),
            self.live(self.current()),
        ensures
            r@.len() == self.live_ids().len(),
            forall|j: int|
                0 <= j < r@.len() ==> {
                    let id = self.live_ids()[j];
                    &&& (#[trigger] r@[j]).id == id
                    &&& r@[j].inputs == self.block(id).inputs
                    &&& r@[j].terminator == self.block(id).terminator
                    &&& r@[j].instructions@ == self.instrs_of(id).instructions()
                },
    {
        let ghost s0 = self;
        let mut me = self;
        let idx = me.current_bb as usize;
        let mut slot: Option<BbEntry> = None;
        me.bbs.set_and_swap(idx, &mut slot);
        match slot {
            Some(mut e) => {
                std::mem::swap(&mut e.instrs, &mut me.current_bb_instrs);
                me.bbs.set(idx, Some(e));
            },
            None => {
                me.bbs.set(idx, None);
            },
        }
        let ghost b1 = me.bbs@;
        proof {
            lemma_live_ids_same(s0.bbs@, b1, b1.len());
            lemma_live_ids_bound(b1, b1.len());
        }
        let mut out: Vec<BasicBlock> = Vec::new();
        let mut k: usize = 0;
        while k < me.bbs.len()
            invariant
                k <= me.bbs@.len(),
                me.bbs@.len() == b1.len(),
                b1.len() < NO_BB,
                forall|m: int| k <= m < b1.len() ==> me.bbs@[m] == b1[m],
                forall|m: int| 0 <= m < b1.len() && #[trigger] b1[m] is Some ==> b1[m]->0.bb.id == m,
                out@.len() == live_ids_below(b1, k as nat).len(),
                forall|j: int|
                    0 <= j < out@.len() ==> {
                        let id = live_ids_below(b1, k as nat)[j];
                        &&& (#[trigger] out@[j]).id == id
                        &&& out@[j].inputs == b1[id as int]->0.bb.inputs
                        &&& out@[j].terminator == b1[id as int]->0.bb.terminator
                        &&& out@[j].instructions@ == b1[id as int]->0.instrs.instructions()
                    },
            decreases me.bbs.len() - k,
        {
            proof {
                lemma_live_ids_bound(b1, k as nat);
            }
            let mut slot: Option<BbEntry> = None;
            me.bbs.set_and_swap(k, &mut slot);
            match slot {
                Some(mut e) => {
                    let instrs = e.instrs.extract_data();
                    e.bb.instructions = instrs;
                    out.push(e.bb);
                },
                None => {},
            }
            k = k + 1;
        }
        proof {
            assert forall|j: int| 0 <= j < out@.len() implies {
                let id = s0.live_ids()[j];
                &&& (#[trigger] out@[j]).id == id
                &&& out@[j].inputs == s0.block(id).inputs
                &&& out@[j].terminator == s0.block(id).terminator
                &&& out@[j].instructions@ == s0.instrs_of(id).instructions()
            } by {
                let id = live_ids_below(b1, b1.len())[j];
                assert(b1[id as int] is Some);
                if id != idx {
                    assert(b1[id as int] == s0.bbs@[id as int]);
                }
            }
        }
        out
    }

    /// The IR of the function.
    pub fn finalize(self) -> (f: FunctionIR)
        requires
            self.wf(),
            self.live(self.current()),
        ensures
            f.locals@ == self.locals_spec(),
            f.num_vars == self.num_vars_spec(),
            f.bbs@.len() == self.live_ids().len(),
            forall|j: int|
                0 <= j < f.bbs@.len() ==> {
                    let id = self.live_ids()[j];
                    &&& (#[trigger] f.bbs@[j]).id == id
                    &&& f.bbs@[j].inputs == self.block(id).inputs
                    &&& f.bbs@[j].terminator == self.block(id).terminator
                    &&& f.bbs@[j].instructions@ == self.instrs_of(id).instructions()
                },
    {
        let mut me = self;
        let mut locals: Vec<ValType> = Vec::new();
        std::mem::swap(&mut locals, &mut me.locals);
        let num_vars = me.num_vars;
        let bbs = me.finalize_bbs();
        FunctionIR { bbs, num_vars, locals }
    }

    /// Ends the current block with a jump table. Each distinct pair of target and output
    /// variables (the listed targets, then the default) feeds the phi nodes of its target once.
    pub fn terminate_jmp_table(
        &mut self,
        selector_var: VariableID,
        targets: Vec<BasicBlockID>,
        targets_output_vars: Vec<Vec<VariableID>>,
        default_target: BasicBlockID,
        default_output_vars: Vec<VariableID>,
    )
        requires
            old(self).wf(),
            old(self).live(old(self).current()),
        ensures
            final(self).wf(),
            final(self).same_but(
                &*old(self),
                Set::new(|id: BasicBlockID| targets@.contains(id) || id == default_target || id == old(self).current()),
            ),
            final(self).block(old(self).current()).terminator == (BasicBlockGlue::JmpTable {
                selector_var,
                targets,
                targets_output_vars,
                default_target,
                default_output_vars,
            }),
    {
        let ghost changed = Set::new(|id: BasicBlockID| targets@.contains(id) || id == default_target || id == self.current_bb);
        let mut pairs: Vec<(BasicBlockID, Vec<VariableID>)> = Vec::new();
        let m = if targets.len() < targets_output_vars.len() {
            targets.len()
        } else {
            targets_output_vars.len()
        };
        let mut k: usize = 0;
        while k < m
            invariant
                k <= m,
                m <= targets@.len(),
                m <= targets_output_vars@.len(),
                forall|j: int| 0 <= j < pairs@.len() ==> #[trigger] changed.contains(pairs@[j].0),
                changed == Set::new(|id: BasicBlockID| targets@.contains(id) || id == default_target || id == old(self).current_bb),
            decreases m - k,
        {
            let o = targets_output_vars[k].clone();
            proof {
                assert(targets@.contains(targets@[k as int]));
            }
            pairs.push((targets[k], o));
            k = k + 1;
        }
        let t = if m < targets.len() {
            targets[m]
        } else {
            default_target
        };
        let o = if m < targets_output_vars.len() {
            targets_output_vars[m].clone()
        } else {
            default_output_vars.clone()
        };
        proof {
            if m < targets@.len() {
                assert(targets@.contains(targets@[m as int]));
            }
        }
        pairs.push((t, o));
        let ghost raw = pairs.deep_view();
        let pairs = unique_pairs(pairs);
        proof {
            lemma_first_occurrences_sub(raw);
            assert forall|j: int| 0 <= j < pairs@.len() implies #[trigger] changed.contains(pairs@[j].0) by {
                assert(pairs.deep_view()[j].0 == pairs@[j].0);
                let w = choose|i: int| 0 <= i < raw.len() && raw[i] == pairs.deep_view()[j];
                assert(raw[w].0 == pairs.deep_view()[j].0);
            }
        }
        let ghost s0 = *self;
        let mut j: usize = 0;
        while j < pairs.len()
            invariant
                j <= pairs@.len(),
                self.wf(),
                self.same_but(&s0, changed),
                s0.live(s0.current()),
                s0 == *old(self),
                forall|i: int| 0 <= i < pairs@.len() ==> #[trigger] changed.contains(pairs@[i].0),
                changed.contains(s0.current()),
            decreases pairs.len() - j,
        {
            let ghost before = *self;
            self.feed_phis(pairs[j].0, &pairs[j].1);
            proof {
                assert(changed.contains(pairs@[j as int].0));
            }
            j = j + 1;
        }
        self.set_terminator(
            BasicBlockGlue::JmpTable { selector_var, targets, targets_output_vars, default_target, default_output_vars },
        );
    }

    /// The block being filled, or `NO_BB`.
    pub fn current_bb_id_get(&self) -> (id: BasicBlockID)
        ensures
            id == self.current(),
    {
        self.current_bb
    }
}

} // verus!

verus! {

/// A hasher for 32-bit keys: the hash of a key is the key itself.
pub struct SimpleHasher(pub u32);

impl Default for SimpleHasher {
    fn default() -> (h: Self)
        ensures
            h.0 == 0,
    {
        SimpleHasher(0)
    }
}

impl SimpleHasher {
    /// The hash of what was written last.
    pub fn finish(&self) -> (r: u64)
        ensures
            r == self.0,
    {
        self.0 as u64
    }

    /// Takes the four bytes of a key, little-endian, as the hash.
    pub fn write(&mut self, bytes: &[u8])
        requires
            bytes@.len() == 4,
        ensures
            final(self).0 == crate::reader::le_u32(bytes@[0], bytes@[1], bytes@[2], bytes@[3]),
    {
        let v: u32 = (bytes[0] as u32) | ((bytes[1] as u32) << 8u32) | ((bytes[2] as u32) << 16u32) | ((
        bytes[3] as u32) << 24u32);
        let b0 = bytes[0];
        let b1 = bytes[1];
        let b2 = bytes[2];
        let b3 = bytes[3];
        assert(((b0 as u32) | ((b1 as u32) << 8u32) | ((b2 as u32) << 16u32) | ((b3 as u32) << 24u32))
            == b0 + 256 * b1 + 65536 * b2 + 16777216 * b3) by (bit_vector);
        self.0 = v;
    }
}

} // verus!
