//! The state of parsing one function body: operand stack, locals, variable counter and the
//! first validation error met ("poison").
use crate::error::ValidationError;
use crate::ir::{INVALID_VAR, Variable};
use crate::module::ModuleMetadata;
use crate::stack::{ParserStack, stack_wf};
use crate::types::ValType;
use vstd::prelude::*;

verus! {

pub struct Context<'a> {
    pub module: &'a ModuleMetadata,
    pub stack: ParserStack,
    pub locals: Vec<ValType>,
    pub var_count: usize,
    pub poison: Option<ValidationError>,
}

/// The part of a context that parsing an instruction changes.
pub struct CtxModel {
    pub stack: Seq<Variable>,
    pub stash: Seq<usize>,
    pub var_count: nat,
    pub poisoned: bool,
}

pub open spec fn m_poison(m: CtxModel) -> CtxModel {
    CtxModel { poisoned: true, ..m }
}

/// The context, poisoned if `c` holds.
pub open spec fn poison_if(m: CtxModel, c: bool) -> CtxModel {
    if c {
        m_poison(m)
    } else {
        m
    }
}

pub open spec fn m_depth(m: CtxModel) -> int {
    m.stack.len() - m.stash.last()
}

pub open spec fn m_push(m: CtxModel, v: Variable) -> CtxModel {
    CtxModel { stack: m.stack.push(v), ..m }
}

/// Pops a value of type `t`; a missing or mistyped value poisons the context and an invalid
/// variable of type `t` stands in for it.
pub open spec fn m_pop_typed(m: CtxModel, t: ValType) -> (CtxModel, Variable) {
    if m_depth(m) <= 0 {
        (m_poison(m), Variable { id: INVALID_VAR, type_: t })
    } else if m.stack.last().type_ != t {
        (m_poison(CtxModel { stack: m.stack.drop_last(), ..m }), Variable { id: INVALID_VAR, type_: t })
    } else {
        (CtxModel { stack: m.stack.drop_last(), ..m }, m.stack.last())
    }
}

/// Pops a value of any type; a missing value poisons the context and an invalid variable of
/// vector type stands in for it.
pub open spec fn m_pop(m: CtxModel) -> (CtxModel, Variable) {
    if m_depth(m) <= 0 {
        (m_poison(m), Variable { id: INVALID_VAR, type_: ValType::VecType })
    } else {
        (CtxModel { stack: m.stack.drop_last(), ..m }, m.stack.last())
    }
}

/// Creates a fresh variable of type `t`.
pub open spec fn m_create(m: CtxModel, t: ValType) -> (CtxModel, Variable) {
    if m.var_count < INVALID_VAR {
        (CtxModel { var_count: m.var_count + 1, ..m }, Variable { id: m.var_count as usize, type_: t })
    } else {
        (m_poison(m), Variable { id: INVALID_VAR, type_: t })
    }
}

impl<'a> Context<'a> {
    pub open spec fn wf(&self) -> bool {
        &&& self.stack.wf()
        &&& self.var_count <= INVALID_VAR
    }

    pub open spec fn model(&self) -> CtxModel {
        CtxModel {
            stack: self.stack.stack@,
            stash: self.stack.stash@,
            var_count: self.var_count as nat,
            poisoned: self.poison.is_some(),
        }
    }

    /// What every instruction keeps: the module, the locals, the block boundaries of the stack,
    /// and a poison once set.
    pub open spec fn frame(&self, next: &Context<'a>) -> bool {
        &&& next.module == self.module
        &&& next.locals@ == self.locals@
        &&& next.stack.stash@ == self.stack.stash@
        &&& next.wf()
        &&& (self.poison.is_some() ==> next.poison == self.poison)
        &&& next.var_count >= self.var_count
    }

    pub fn new(module: &'a ModuleMetadata, locals: Vec<ValType>) -> (c: Self)
        ensures
            c.wf(),
            c.module == module,
            c.locals@ == locals@,
            c.stack.stack@.len() == 0,
            c.stack.stash@ == seq![0usize],
            c.var_count == 0,
            c.poison.is_none(),
    {
        Context { module, stack: ParserStack::new(), locals, var_count: 0, poison: None }
    }

    /// Records a validation error, unless one was recorded before.
    pub fn poison(&mut self, err: ValidationError)
        requires
            old(self).wf(),
        ensures
            old(self).frame(&*final(self)),
            final(self).model() == m_poison(old(self).model()),
            old(self).poison.is_none() ==> final(self).poison == Some(err),
    {
        if self.poison.is_none() {
            self.poison = Some(err);
        }
    }

    /// Records a validation error with a message, unless one was recorded before.
    pub fn poison_msg(&mut self, msg: &str)
        requires
            old(self).wf(),
        ensures
            old(self).frame(&*final(self)),
            final(self).model() == m_poison(old(self).model()),
    {
        self.poison(ValidationError::msg(msg));
    }

    /// A fresh variable of type `t`.
    pub fn create_var(&mut self, t: ValType) -> (v: Variable)
        requires
            old(self).wf(),
        ensures
            old(self).frame(&*final(self)),
            (final(self).model(), v) == m_create(old(self).model(), t),
    {
        if self.var_count < INVALID_VAR {
            let id = self.var_count;
            self.var_count = self.var_count + 1;
            Variable { id, type_: t }
        } else {
            self.poison_msg("too many variables");
            Variable { id: INVALID_VAR, type_: t }
        }
    }

    pub fn push_var(&mut self, v: Variable)
        requires
            old(self).wf(),
        ensures
            old(self).frame(&*final(self)),
            final(self).model() == m_push(old(self).model(), v),
            final(self).poison == old(self).poison,
    {
        self.stack.push_var(v);
    }

    /// Pops a value of type `t` (see `m_pop_typed`).
    pub fn pop_var_with_type(&mut self, t: ValType) -> (v: Variable)
        requires
            old(self).wf(),
        ensures
            old(self).frame(&*final(self)),
            (final(self).model(), v) == m_pop_typed(old(self).model(), t),
    {
        match self.stack.pop_var_with_type(&t) {
            Ok(v) => v,
            Err(e) => {
                self.poison(e);
                Variable { id: INVALID_VAR, type_: t }
            },
        }
    }

    /// Pops a value of any type (see `m_pop`).
    pub fn pop_var(&mut self) -> (v: Variable)
        requires
            old(self).wf(),
        ensures
            old(self).frame(&*final(self)),
            (final(self).model(), v) == m_pop(old(self).model()),
    {
        match self.stack.pop_var() {
            Ok(v) => v,
            Err(e) => {
                self.poison(e);
                Variable { id: INVALID_VAR, type_: ValType::VecType }
            },
        }
    }
}

/// A value pushed and then popped with its own type comes back unchanged, and the context is as
/// before but for the variable counter.
pub proof fn law_create_push_pop(m: CtxModel, t: ValType)
    requires
        stack_wf(m.stack, m.stash),
        m.var_count < INVALID_VAR,
    ensures
        ({
            let (m1, v) = m_create(m, t);
            let (m2, w) = m_pop_typed(m_push(m1, v), t);
            &&& w == v
            &&& m2.stack == m.stack
            &&& m2.stash == m.stash
            &&& m2.poisoned == m.poisoned
            &&& m2.var_count == m.var_count + 1
        }),
{
    let (m1, v) = m_create(m, t);
    assert(m_push(m1, v).stack.drop_last() =~= m.stack);
    assert(m.stash.last() <= m.stack.len());
}

} // verus!
