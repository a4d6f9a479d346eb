//! The state of an evaluation.

use crate::error::{IrError, IrErrorKind};
use crate::floats::FloatOps;
use crate::ir::Ir;
use crate::scopes::{IrScopes, ScopeV};
use crate::shared::{CellV, Heap};
use crate::span::Span;
use vstd::prelude::*;

verus! {

/// Whether an evaluation is made for code that will be compiled, or only to
/// try something out.
#[derive(Clone, Copy, Debug, PartialEq, Eq, Structural)]
pub enum Used {
    Unused,
    Used,
}

/// The number of node visits that an evaluation may still make.
#[derive(Debug)]
pub struct IrBudget {
    pub budget: usize,
}

impl IrBudget {
    /// A budget of `budget` visits.
    pub fn new(budget: usize) -> (b: IrBudget)
        ensures
            b.budget == budget,
    {
        IrBudget { budget }
    }

    /// Pays for one visit, or fails at `span` if nothing is left.
    pub fn take(&mut self, span: Span) -> (r: Result<(), IrError>)
        ensures
            old(self).budget == 0 ==> r == Err::<(), _>(
                IrError { span, kind: IrErrorKind::BudgetExceeded },
            ) && final(self).budget == 0,
            old(self).budget > 0 ==> r is Ok && final(self).budget == old(self).budget - 1,
    {
        if self.budget == 0 {
            return Err(IrError::new(span, IrErrorKind::BudgetExceeded));
        }
        self.budget = self.budget - 1;
        Ok(())
    }
}

/// A constant function: the names of its parameters and its body.
#[derive(Debug)]
pub struct ConstFn {
    pub id: u64,
    pub args: Vec<String>,
    pub ir: Ir,
}

/// The constant functions that an evaluation can call, by item id.
#[derive(Debug)]
pub struct Query {
    pub fns: Vec<ConstFn>,
}

/// The first place at or after `from` where `fns` holds a function of the
/// id `id`.
pub open spec fn const_fn_from(fns: Seq<ConstFn>, id: u64, from: int) -> Option<int>
    decreases fns.len() - from,
{
    if from < 0 || from >= fns.len() {
        None
    } else if fns[from].id == id {
        Some(from)
    } else {
        const_fn_from(fns, id, from + 1)
    }
}

/// A function that is found stands in the registry.
pub proof fn lemma_position(fns: Seq<ConstFn>, id: u64, from: int)
    requires
        0 <= from,
    ensures
        const_fn_from(fns, id, from) matches Some(i) ==> from <= i < fns.len() && fns[i].id == id,
    decreases fns.len() - from,
{
    if from < fns.len() && fns[from].id != id {
        lemma_position(fns, id, from + 1);
    }
}

impl Query {
    /// A registry without functions.
    pub fn new() -> (query: Query)
        ensures
            query.fns@.len() == 0,
    {
        Query { fns: Vec::new() }
    }

    /// Registers a constant function. Of two functions with one id the one
    /// registered first is found.
    pub fn insert(&mut self, const_fn: ConstFn)
        ensures
            final(self).fns@ == old(self).fns@.push(const_fn),
    {
        self.fns.push(const_fn);
    }

    /// The place of the constant function registered under `id`.
    pub open spec fn position(&self, id: u64) -> Option<int> {
        const_fn_from(self.fns@, id, 0)
    }

    /// The constant function registered under `id`.
    pub fn const_fn_for(&self, id: u64) -> (r: Option<&ConstFn>)
        ensures
            match self.position(id) {
                Some(i) => 0 <= i < self.fns@.len() && r == Some(&self.fns@[i]),
                None => r is None,
            },
    {
        let mut i: usize = 0;
        while i < self.fns.len()
            invariant
                i <= self.fns.len(),
                self.position(id) == const_fn_from(self.fns@, id, i as int),
            decreases self.fns.len() - i,
        {
            if self.fns[i].id == id {
                return Some(&self.fns[i]);
            }
            i += 1;
        }
        None
    }
}

/// The state of an evaluation.
pub struct IrInterpreter<'a, F: FloatOps> {
    /// What is left of the budget.
    pub budget: IrBudget,
    /// The open scopes.
    pub scopes: IrScopes,
    /// The cells of the values.
    pub heap: Heap,
    /// The ids of the constant functions that were called on behalf of code
    /// that will be compiled, in the order of the calls.
    pub dependencies: Vec<u64>,
    /// The constant functions that can be called.
    pub query: &'a Query,
    /// The float arithmetic of the host.
    pub floats: &'a F,
}

/// What the state of an evaluation stands for.
pub struct StateV {
    pub budget: nat,
    pub scopes: Seq<ScopeV>,
    pub heap: Seq<CellV>,
    pub dependencies: Seq<u64>,
    pub query: Query,
}

impl<'a, F: FloatOps> View for IrInterpreter<'a, F> {
    type V = StateV;

    open spec fn view(&self) -> StateV {
        StateV {
            budget: self.budget.budget as nat,
            scopes: self.scopes@,
            heap: self.heap@,
            dependencies: self.dependencies@,
            query: *self.query,
        }
    }
}

impl<'a, F: FloatOps> IrInterpreter<'a, F> {
    /// A fresh state: the given budget, no scope, no cell.
    pub fn new(budget: usize, query: &'a Query, floats: &'a F) -> (interp: Self)
        ensures
            interp@ == (StateV {
                budget: budget as nat,
                scopes: Seq::empty(),
                heap: Seq::empty(),
                dependencies: Seq::empty(),
                query: *query,
            }),
    {
        IrInterpreter {
            budget: IrBudget::new(budget),
            scopes: IrScopes::new(),
            heap: Heap::new(),
            dependencies: Vec::new(),
            query,
            floats,
        }
    }
}

} // verus!
