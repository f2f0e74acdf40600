//! A solver over one bit constraints that decides by constant folding and
//! interval bounds.
//!
//! Every assertion is a one bit expression. Since expressions fold their
//! constant operands, a constraint whose value is fixed is a constant. The
//! solver reports a set of constraints unsatisfiable when one of them is the
//! constant zero, or when the bounds that the constraints put on their
//! symbols rule one of them out; such a report is sound. When every
//! constraint is a constant its answer is exact, and otherwise `true` means
//! that no constraint is known to be false.
use vstd::prelude::*;
use crate::smt::expr::{DContext, DExpr, Env};
use crate::smt::bounds::upper_bound;

verus! {

/// Errors reported by the solver.
#[derive(Clone, Debug, PartialEq, Eq, Structural)]
pub enum SolverError {
    /// The constraints cannot be satisfied.
    Unsat,
    /// More solutions exist than were asked for.
    TooManySolutions,
}

/// The values an expression can take.
#[derive(Debug)]
pub enum Solutions {
    /// Exactly these values.
    Exactly(Vec<DExpr>),
    /// At least these values, and possibly more.
    AtLeast(Vec<DExpr>),
}

/// A stack of one bit constraints with scopes.
#[derive(Debug)]
pub struct DSolver {
    assertions: Vec<DExpr>,
    scopes: Vec<usize>,
}

/// Whether some expression of the sequence is the constant zero.
pub open spec fn some_false(s: Seq<DExpr>) -> bool {
    exists|i: int| 0 <= i < s.len() && (#[trigger] s[i]).const_value() == Some(0u64)
}

/// Whether every expression of the sequence is non-zero under `env`.
pub open spec fn all_hold(s: Seq<DExpr>, env: Env) -> bool {
    forall|i: int| 0 <= i < s.len() ==> (#[trigger] s[i]).eval(env) != 0
}

impl DSolver {
    /// The constraints asserted so far, oldest first.
    pub closed spec fn assertions(self) -> Seq<DExpr> {
        self.assertions@
    }

    /// The number of constraints at each open scope, innermost last.
    pub closed spec fn scopes(self) -> Seq<usize> {
        self.scopes@
    }

    /// Every constraint is a well formed one bit expression, their number
    /// fits in a `usize`, and the scopes mark positions of the assertion
    /// stack, innermost last.
    pub open spec fn wf(self) -> bool {
        &&& self.assertions().len() <= usize::MAX
        &&& self.well_formed_stack()
    }

    /// Every constraint is a well formed one bit expression and the scopes
    /// mark positions of the assertion stack, innermost last.
    pub closed spec fn well_formed_stack(self) -> bool {
        &&& forall|i: int| 0 <= i < self.assertions@.len() ==> (#[trigger] self.assertions@[i]).wf()
            && self.assertions@[i].width() == 1
        &&& forall|i: int| 0 <= i < self.scopes@.len() ==> #[trigger] self.scopes@[i] <= self.assertions@.len()
        &&& forall|i: int, j: int| 0 <= i <= j < self.scopes@.len() ==> self.scopes@[i] <= self.scopes@[j]
    }

    /// Whether every constraint holds under `env`.
    pub open spec fn holds(self, env: Env) -> bool {
        all_hold(self.assertions(), env)
    }

    /// A solver without constraints.
    pub fn new(_ctx: &DContext) -> (r: DSolver)
        ensures
            r.wf(),
            r.assertions() == Seq::<DExpr>::empty(),
            r.scopes() == Seq::<usize>::empty(),
    {
        DSolver { assertions: Vec::new(), scopes: Vec::new() }
    }

    /// Adds a constraint.
    pub fn assert_expr(&mut self, constraint: &DExpr)
        requires
            old(self).wf(),
            constraint.wf(),
            constraint.width() == 1,
        ensures
            final(self).wf(),
            final(self).assertions() == old(self).assertions().push(*constraint),
            final(self).scopes() == old(self).scopes(),
    {
        self.assertions.push(constraint.clone());
        let count: usize = self.assertions.len();
        proof {
            assert(self.assertions@.len() == count);
        }
    }

    /// Opens a scope: a later `pop` removes the constraints added after it.
    pub fn push(&mut self)
        requires
            old(self).wf(),
        ensures
            final(self).wf(),
            final(self).assertions() == old(self).assertions(),
            final(self).scopes() == old(self).scopes().push(old(self).assertions().len() as usize),
    {
        let n: usize = self.assertions.len();
        self.scopes.push(n);
    }

    /// Closes the innermost scope and removes the constraints added in it;
    /// without an open scope nothing changes.
    pub fn pop(&mut self)
        requires
            old(self).wf(),
        ensures
            final(self).wf(),
            old(self).scopes().len() == 0 ==> final(self).assertions() == old(self).assertions()
                && final(self).scopes() == old(self).scopes(),
            old(self).scopes().len() > 0 ==> {
                &&& final(self).scopes() == old(self).scopes().drop_last()
                &&& final(self).assertions() == old(self).assertions().take(
                    old(self).scopes().last() as int,
                )
            },
    {
        match self.scopes.pop() {
            Some(n) => {
                self.assertions.truncate(n);
            },
            None => {},
        }
    }

    /// Whether the constraints may be satisfied: `false` when one of them
    /// is the constant zero or the bounds of the others rule one out, and
    /// then no assignment satisfies them; on constant constraints the answer
    /// is exact.
    pub fn is_sat(&self) -> (r: Result<bool, SolverError>)
        requires
            self.wf(),
        ensures
            r is Ok,
            r == Ok::<bool, SolverError>(false) ==> forall|env: Env| !#[trigger] self.holds(env),
            some_false(self.assertions()) ==> r == Ok::<bool, SolverError>(false),
            (forall|i: int| 0 <= i < self.assertions().len() ==> (#[trigger] self.assertions()[i]).is_const())
                && !some_false(self.assertions()) ==> r == Ok::<bool, SolverError>(true),
    {
        let mut i: usize = 0;
        while i < self.assertions.len()
            invariant
                self.wf(),
                i <= self.assertions@.len(),
                forall|j: int| 0 <= j < i ==> (#[trigger] self.assertions@[j]).const_value() != Some(0u64),
            decreases self.assertions.len() - i,
        {
            if self.assertions[i].get_constant() == Some(0u64) {
                proof {
                    assert forall|env: Env| !#[trigger] self.holds(env) by {
                        assert(self.assertions@[i as int].eval(env) == 0);
                    }
                }
                return Ok(false);
            }
            i = i + 1;
        }
        let mut i: usize = 0;
        while i < self.assertions.len()
            invariant
                self.wf(),
                i <= self.assertions@.len(),
                !some_false(self.assertions()),
                (forall|k: int| 0 <= k < self.assertions().len() ==> (#[trigger] self.assertions()[k]).is_const())
                    ==> forall|j: int| 0 <= j < i ==> (#[trigger] self.assertions@[j]).const_value() != Some(0u64),
            decreases self.assertions.len() - i,
        {
            if upper_bound(&self.assertions[i], &self.assertions) == 0 {
                proof {
                    assert forall|env: Env| !#[trigger] self.holds(env) by {
                        if self.holds(env) {
                            assert(self.assertions@[i as int].eval(env) != 0);
                        }
                    }
                    if forall|k: int| 0 <= k < self.assertions().len() ==> (#[trigger] self.assertions()[k]).is_const() {
                        let env = Env { vars: |n: Seq<char>| 0nat, arrays: |n: Seq<char>, a: nat| 0nat };
                        law_constant_constraints_decided(*self, self.assertions@[i as int], env);
                    }
                }
                return Ok(false);
            }
            i = i + 1;
        }
        Ok(true)
    }

    /// Whether the constraints together with `constraint` may be satisfied:
    /// `false` when one of them is the constant zero or bounds rule one
    /// out, and then no assignment satisfies them all; on constants the
    /// answer is exact.
    pub fn is_sat_with_constraint(&self, constraint: &DExpr) -> (r: Result<bool, SolverError>)
        requires
            self.wf(),
            constraint.wf(),
            constraint.width() == 1,
        ensures
            r is Ok,
            r == Ok::<bool, SolverError>(false) ==> forall|env: Env| !(#[trigger] self.holds(env) && constraint.eval(
                env,
            ) != 0),
            some_false(self.assertions()) || constraint.const_value() == Some(0u64) ==> r == Ok::<bool, SolverError>(
                false,
            ),
            (forall|i: int| 0 <= i < self.assertions().len() ==> (#[trigger] self.assertions()[i]).is_const())
                && constraint.is_const() && !(some_false(self.assertions()) || constraint.const_value() == Some(0u64))
                ==> r == Ok::<bool, SolverError>(true),
    {
        if constraint.get_constant() == Some(0u64) {
            return Ok(false);
        }
        match self.is_sat() {
            Ok(false) => return Ok(false),
            _ => {},
        }
        if upper_bound(constraint, &self.assertions) == 0 {
            proof {
                if (forall|k: int| 0 <= k < self.assertions().len() ==> (#[trigger] self.assertions()[k]).is_const())
                    && constraint.is_const() && !some_false(self.assertions()) {
                    let env = Env { vars: |n: Seq<char>| 0nat, arrays: |n: Seq<char>, a: nat| 0nat };
                    law_constant_constraints_decided(*self, *constraint, env);
                }
            }
            return Ok(false);
        }
        Ok(true)
    }

    /// The values that `expr` can take: a constant has exactly its own
    /// value; of any other expression no value is enumerated.
    pub fn get_values(&self, expr: &DExpr, _upper_bound: usize) -> (r: Result<Solutions, SolverError>)
        requires
            self.wf(),
            expr.wf(),
        ensures
            expr.is_const() ==> (r matches Ok(Solutions::Exactly(v)) && v@ == seq![*expr]),
            !expr.is_const() ==> (r matches Ok(Solutions::AtLeast(v)) && v@.len() == 0),
    {
        if expr.get_constant().is_some() {
            let v: Vec<DExpr> = vec![expr.clone()];
            Ok(Solutions::Exactly(v))
        } else {
            Ok(Solutions::AtLeast(Vec::new()))
        }
    }
}

impl Clone for DSolver {
    fn clone(&self) -> (r: DSolver)
        ensures
            r.assertions() == self.assertions(),
            r.scopes() == self.scopes(),
            self.wf() ==> r.wf(),
    {
        let mut assertions: Vec<DExpr> = Vec::new();
        let mut i: usize = 0;
        while i < self.assertions.len()
            invariant
                i <= self.assertions@.len(),
                assertions@ == self.assertions@.take(i as int),
            decreases self.assertions.len() - i,
        {
            assertions.push(self.assertions[i].clone());
            i = i + 1;
            assert(assertions@ =~= self.assertions@.take(i as int));
        }
        assert(self.assertions@.take(self.assertions@.len() as int) =~= self.assertions@);
        DSolver { assertions, scopes: self.scopes.clone() }
    }
}

/// A refusal is sound: when the solver answers that the constraints
/// together with `c` cannot be satisfied, no assignment satisfies them all.
pub proof fn law_refused_is_unsat(solver: DSolver, c: DExpr, env: Env)
    requires
        some_false(solver.assertions()) || c.const_value() == Some(0u64),
    ensures
        !(solver.holds(env) && c.eval(env) != 0),
{
    if some_false(solver.assertions()) {
        let i: int = choose|i: int| 0 <= i < solver.assertions().len()
            && (#[trigger] solver.assertions()[i]).const_value() == Some(0u64);
        assert(solver.assertions()[i].eval(env) == 0);
    }
}

/// On constant constraints the answer is exact: when every constraint and
/// `c` are constants none of which is zero, every assignment satisfies them.
pub proof fn law_constant_constraints_decided(solver: DSolver, c: DExpr, env: Env)
    requires
        forall|i: int| 0 <= i < solver.assertions().len() ==> (#[trigger] solver.assertions()[i]).is_const(),
        c.is_const(),
        !(some_false(solver.assertions()) || c.const_value() == Some(0u64)),
    ensures
        solver.holds(env) && c.eval(env) != 0,
{
    assert forall|i: int| 0 <= i < solver.assertions().len() implies (#[trigger] solver.assertions()[i]).eval(env) != 0 by {
        assert(solver.assertions()[i].is_const());
        if solver.assertions()[i].const_value() == Some(0u64) {
            assert(some_false(solver.assertions()));
        }
    }
}

} // verus!
