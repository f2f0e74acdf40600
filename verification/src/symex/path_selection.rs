//! The paths left to explore and the order in which they are explored.
use vstd::prelude::*;
use crate::smt::expr::DExpr;
use crate::symex::state::GAState;

verus! {

/// A path to resume: a state and the constraints to add before resuming.
#[derive(Debug)]
pub struct Path<'p> {
    /// The state to resume from.
    pub state: GAState<'p>,
    /// Constraints to assert before resuming.
    pub constraints: Vec<DExpr>,
}

impl<'p> Path<'p> {
    /// A path from `state`, with `constraint` to assert when one is given.
    pub fn new(state: GAState<'p>, constraint: Option<DExpr>) -> (r: Path<'p>)
        ensures
            r.state == state,
            constraint matches Some(c) ==> r.constraints@ == seq![c],
            constraint is None ==> r.constraints@.len() == 0,
    {
        let constraints: Vec<DExpr> = match constraint {
            Some(c) => vec![c],
            None => Vec::new(),
        };
        Path { state, constraints }
    }
}

/// Depth first exploration: the path saved last is explored first.
#[derive(Debug)]
pub struct DFSPathSelection<'p> {
    paths: Vec<Path<'p>>,
}

impl<'p> DFSPathSelection<'p> {
    /// The saved paths, oldest first.
    pub closed spec fn paths(self) -> Seq<Path<'p>> {
        self.paths@
    }

    /// No saved paths.
    pub fn new() -> (r: DFSPathSelection<'p>)
        ensures
            r.paths().len() == 0,
    {
        DFSPathSelection { paths: Vec::new() }
    }

    /// Saves a path; its solver opens a scope.
    pub fn save_path(&mut self, path: Path<'p>)
        requires
            path.state.constraints.wf(),
        ensures
            final(self).paths().len() == old(self).paths().len() + 1,
            final(self).paths().drop_last() == old(self).paths(),
            final(self).paths().last().constraints == path.constraints,
            final(self).paths().last().state.registers == path.state.registers,
            final(self).paths().last().state.pc() == path.state.pc(),
            final(self).paths().last().state.constraints.assertions() == path.state.constraints.assertions(),
            final(self).paths().last().state.constraints.scopes() == path.state.constraints.scopes().push(
                path.state.constraints.assertions().len() as usize,
            ),
            final(self).paths().last().state.constraints.wf(),
            path.state.wf() ==> final(self).paths().last().state.wf(),
            final(self).paths().last().state.project == path.state.project,
    {
        let mut path = path;
        path.state.constraints.push();
        self.paths.push(path);
        proof {
            assert(self.paths@.drop_last() =~= old(self).paths@);
        }
    }

    /// Takes the path saved last, closing the scope its solver opened.
    pub fn get_path(&mut self) -> (r: Option<Path<'p>>)
        requires
            forall|i: int| 0 <= i < old(self).paths().len() ==> (#[trigger] old(self).paths()[i]).state.constraints.wf(),
        ensures
            forall|i: int| 0 <= i < final(self).paths().len() ==> (#[trigger] final(self).paths()[i]).state.constraints.wf(),
            old(self).paths().len() == 0 ==> r is None && final(self).paths().len() == 0,
            old(self).paths().len() > 0 ==> {
                let last = old(self).paths().last();
                &&& final(self).paths() == old(self).paths().drop_last()
                &&& r matches Some(p) && p.state == (GAState { constraints: p.state.constraints, ..last.state })
                    && p.constraints == last.constraints && p.state.registers
                    == last.state.registers && p.state.pc() == last.state.pc() && p.state.constraints.wf()
                    && (last.state.wf() ==> p.state.wf()) && p.state.project == last.state.project
                    && (last.state.constraints.scopes().len() > 0 ==> p.state.constraints.assertions()
                    == last.state.constraints.assertions().take(last.state.constraints.scopes().last() as int))
            },
    {
        match self.paths.pop() {
            Some(path) => {
                let mut path = path;
                path.state.constraints.pop();
                Some(path)
            },
            None => None,
        }
    }
}

/// Saving a path and taking one gives back the path just saved, with the
/// same registers, program counter, pending constraints and solver
/// assertions, and leaves the other saved paths as they were: exploration
/// is last in, first out.
pub proof fn law_save_then_get(
    before: DFSPathSelection,
    saved: Path,
    after_save: DFSPathSelection,
    taken: Path,
    after_get: DFSPathSelection,
)
    requires
        saved.state.constraints.wf(),
        after_save.paths().len() == before.paths().len() + 1,
        after_save.paths().drop_last() == before.paths(),
        after_save.paths().last().constraints == saved.constraints,
        after_save.paths().last().state.registers == saved.state.registers,
        after_save.paths().last().state.pc() == saved.state.pc(),
        after_save.paths().last().state.constraints.assertions() == saved.state.constraints.assertions(),
        after_save.paths().last().state.constraints.scopes() == saved.state.constraints.scopes().push(
            saved.state.constraints.assertions().len() as usize,
        ),
        after_get.paths() == after_save.paths().drop_last(),
        taken.constraints == after_save.paths().last().constraints,
        taken.state.registers == after_save.paths().last().state.registers,
        taken.state.pc() == after_save.paths().last().state.pc(),
        taken.state.constraints.assertions() == after_save.paths().last().state.constraints.assertions().take(
            after_save.paths().last().state.constraints.scopes().last() as int,
        ),
    ensures
        after_get.paths() == before.paths(),
        taken.constraints == saved.constraints,
        taken.state.registers == saved.state.registers,
        taken.state.pc() == saved.state.pc(),
        taken.state.constraints.assertions() == saved.state.constraints.assertions(),
{
    let a = saved.state.constraints.assertions();
    assert(a.take(a.len() as int) =~= a);
}

} // verus!
