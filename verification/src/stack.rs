//! The operand stack of the function body parser, with stashed block boundaries.
use crate::error::ValidationError;
use crate::ir::Variable;
use crate::types::ValType;
use vstd::prelude::*;

verus! {

/// The operand stack. `stash` holds the stack heights at which the enclosing blocks begin; the
/// innermost block can only pop what lies above the last stashed height.
#[derive(Debug)]
pub struct ParserStack {
    pub stack: Vec<Variable>,
    pub stash: Vec<usize>,
}

/// Stack heights are stashed in ascending order and none lies above the stack.
pub open spec fn stack_wf(stack: Seq<Variable>, stash: Seq<usize>) -> bool {
    &&& stash.len() >= 1
    &&& stash[0] == 0
    &&& forall|i: int, j: int| 0 <= i <= j < stash.len() ==> stash[i] <= stash[j]
    &&& forall|i: int| 0 <= i < stash.len() ==> stash[i] <= stack.len()
}

impl ParserStack {
    pub open spec fn wf(&self) -> bool {
        stack_wf(self.stack@, self.stash@)
    }

    /// Height of the innermost block's bottom.
    pub open spec fn base(&self) -> usize {
        self.stash@.last()
    }

    /// Number of values that the innermost block sees.
    pub open spec fn depth(&self) -> nat {
        (self.stack@.len() - self.base()) as nat
    }

    pub fn new() -> (s: Self)
        ensures
            s.wf(),
            s.stack@ == Seq::<Variable>::empty(),
            s.stash@ == seq![0usize],
    {
        let mut stash = Vec::new();
        stash.push(0);
        ParserStack { stack: Vec::new(), stash }
    }

    /// Opens a block at the current height.
    pub fn stash(&mut self)
        requires
            old(self).wf(),
        ensures
            final(self).wf(),
            final(self).stack@ == old(self).stack@,
            final(self).stash@ == old(self).stash@.push(old(self).stack@.len() as usize),
    {
        let l = self.stack.len();
        self.stash.push(l);
    }

    /// Opens a block that takes the topmost `keep` values of the enclosing block.
    pub fn stash_with_keep(&mut self, keep: usize)
        requires
            old(self).wf(),
            keep <= old(self).depth(),
        ensures
            final(self).wf(),
            final(self).stack@ == old(self).stack@,
            final(self).stash@ == old(self).stash@.push((old(self).stack@.len() - keep) as usize),
    {
        let l = self.stack.len() - keep;
        self.stash.push(l);
    }

    /// Closes the innermost block: drops what lies above its bottom.
    pub fn unstash(&mut self)
        requires
            old(self).wf(),
            old(self).stash@.len() >= 2,
        ensures
            final(self).wf(),
            final(self).stash@ == old(self).stash@.drop_last(),
            final(self).stack@ == old(self).stack@.subrange(0, old(self).base() as int),
    {
        let h = self.stash.pop().unwrap();
        self.stack.truncate(h);
    }

    pub fn push_var(&mut self, var: Variable)
        requires
            old(self).wf(),
        ensures
            final(self).wf(),
            final(self).stash@ == old(self).stash@,
            final(self).stack@ == old(self).stack@.push(var),
    {
        self.stack.push(var);
    }

    /// Pops a value of type `type_` from the innermost block. A value of another type is
    /// popped all the same, and reported.
    pub fn pop_var_with_type(&mut self, type_: &ValType) -> (r: Result<Variable, ValidationError>)
        requires
            old(self).wf(),
        ensures
            final(self).wf(),
            final(self).stash@ == old(self).stash@,
            old(self).depth() == 0 ==> final(self).stack@ == old(self).stack@ && r is Err,
            old(self).depth() > 0 ==> {
                &&& final(self).stack@ == old(self).stack@.drop_last()
                &&& (old(self).stack@.last().type_ == *type_ ==> r == Ok::<
                    Variable,
                    ValidationError,
                >(old(self).stack@.last()))
                &&& (old(self).stack@.last().type_ != *type_ ==> r is Err)
            },
    {
        let base = self.stash[self.stash.len() - 1];
        if base >= self.stack.len() {
            return Err(ValidationError::msg("stack underflow"));
        }
        let var = match self.stack.pop() {
            Some(var) => var,
            None => return Err(ValidationError::msg("stack underflow")),
        };
        if var.type_ != *type_ {
            return Err(ValidationError::msg("type mismatch"));
        }
        Ok(var)
    }

    /// Pops a value of any type from the innermost block.
    pub fn pop_var(&mut self) -> (r: Result<Variable, ValidationError>)
        requires
            old(self).wf(),
        ensures
            final(self).wf(),
            final(self).stash@ == old(self).stash@,
            old(self).depth() == 0 ==> final(self).stack@ == old(self).stack@ && r is Err,
            old(self).depth() > 0 ==> final(self).stack@ == old(self).stack@.drop_last() && r
                == Ok::<Variable, ValidationError>(old(self).stack@.last()),
    {
        let base = self.stash[self.stash.len() - 1];
        if base >= self.stack.len() {
            return Err(ValidationError::msg("stack underflow"));
        }
        match self.stack.pop() {
            Some(v) => Ok(v),
            None => Err(ValidationError::msg("stack underflow")),
        }
    }

    /// Number of values that the innermost block sees.
    pub fn len(&self) -> (n: usize)
        requires
            self.wf(),
        ensures
            n == self.depth(),
    {
        self.stack.len() - self.stash[self.stash.len() - 1]
    }

    /// The `index`-th value of the innermost block, counted from its bottom.
    pub fn get(&self, index: usize) -> (v: Variable)
        requires
            self.wf(),
            index < self.depth(),
        ensures
            v == self.stack@[self.base() + index],
    {
        let b = self.stash[self.stash.len() - 1];
        assert(b == self.base());
        assert(b <= self.stack@.len());
        let l = self.stack.len();
        assert(b + index < l);
        self.stack[b + index]
    }

    /// Drops the topmost `n` values of the innermost block.
    pub fn drop_top(&mut self, n: usize)
        requires
            old(self).wf(),
            n <= old(self).depth(),
        ensures
            final(self).wf(),
            final(self).stash@ == old(self).stash@,
            final(self).stack@ == old(self).stack@.subrange(0, old(self).stack@.len() - n),
    {
        let l = self.stack.len() - n;
        self.stack.truncate(l);
    }
}

/// What a `push_var` followed by a `pop_var` leaves: the pushed value comes back and the stack
/// is as before.
pub proof fn law_push_pop(stack: Seq<Variable>, stash: Seq<usize>, v: Variable)
    requires
        stack_wf(stack, stash),
    ensures
        stack_wf(stack.push(v), stash),
        stack.push(v).len() - stash.last() > 0,
        stack.push(v).last() == v,
        stack.push(v).drop_last() == stack,
{
    assert(stack.push(v).drop_last() =~= stack);
}

/// Closing a block that was opened with `stash` gives back the stack as it was, whatever was
/// pushed in between.
pub proof fn law_stash_unstash(stack: Seq<Variable>, stash: Seq<usize>, pushed: Seq<Variable>)
    requires
        stack_wf(stack, stash),
        stack.len() + pushed.len() <= usize::MAX,
    ensures
        stack_wf(stack + pushed, stash.push(stack.len() as usize)),
        (stack + pushed).subrange(0, stash.push(stack.len() as usize).last() as int) == stack,
        stash.push(stack.len() as usize).drop_last() == stash,
{
    assert((stack + pushed).subrange(0, stack.len() as int) =~= stack);
    assert(stash.push(stack.len() as usize).drop_last() =~= stash);
    let s2 = stash.push(stack.len() as usize);
    assert(s2.last() == stack.len());
    assert forall|i: int, j: int| 0 <= i <= j < s2.len() implies s2[i] <= s2[j] by {
        if j < stash.len() {
            assert(s2[i] == stash[i] && s2[j] == stash[j]);
        } else {
            if i < stash.len() {
                assert(s2[i] == stash[i]);
            }
        }
    }
    assert forall|i: int| 0 <= i < s2.len() implies s2[i] <= (stack + pushed).len() by {
        if i < stash.len() {
            assert(s2[i] == stash[i]);
        }
    }
}

} // verus!
