//! The virtual machine: explores the paths of a program one at a time.
use vstd::prelude::*;
use crate::smt::expr::{DContext, const_of};
use crate::smt::solver::DSolver;
use crate::symex::ga_executor::{GAExecutor, PathResult};
use crate::symex::path_selection::{DFSPathSelection, Path};
use crate::symex::project::{Project, ProjectError, last_named};
use crate::symex::state::GAState;
use crate::symex::types::GAError;

verus! {

/// Explores the paths of a program, depth first.
#[derive(Debug)]
pub struct VM<'p> {
    /// The program under analysis.
    pub project: &'p Project,
    /// The paths left to explore.
    pub paths: DFSPathSelection<'p>,
}

impl<'p> VM<'p> {
    /// Every saved path is ready to resume on the machine's project.
    pub open spec fn wf(self) -> bool {
        &&& 1 <= self.project.word_bits() <= 64
        &&& forall|i: int| 0 <= i < self.paths.paths().len() ==> GAExecutor::path_ok(
            #[trigger] self.paths.paths()[i],
            self.project,
        )
    }

    /// A machine with one path, about to run `fn_name` with the link register
    /// at `end_pc`.
    pub fn new(project: &'p Project, ctx: &DContext, fn_name: &str, end_pc: u64) -> (r: Result<VM<'p>, GAError>)
        requires
            1 <= project.word_bits() <= 64,
        ensures
            r matches Ok(vm) ==> vm.wf() && vm.paths.paths().len() == 1 && vm.project == project,
            r is Ok <==> last_named(project.symbols(), fn_name@) is Some && last_named(project.symbols(), "_stack_start"@)
                is Some,
            last_named(project.symbols(), fn_name@) is None ==> (r matches Err(GAError::EntryFunctionNotFound(name))
                && name@ == fn_name@),
            last_named(project.symbols(), fn_name@) is Some && last_named(project.symbols(), "_stack_start"@) is None
                ==> r matches Err(GAError::ProjectError(ProjectError::UnableToParseElf(_))),
            r matches Ok(vm) ==> {
                let s = vm.paths.paths()[0].state;
                &&& s.pc() == last_named(project.symbols(), fn_name@).unwrap()
                &&& s.registers.lookup("PC"@) == const_of(s.pc() as nat, project.word_bits() as u32)
                &&& s.registers.lookup("SP"@) == const_of(
                    last_named(project.symbols(), "_stack_start"@).unwrap() as nat,
                    project.word_bits() as u32,
                )
                &&& s.registers.lookup("LR"@) == const_of(end_pc as nat, project.word_bits() as u32)
            },
    {
        let solver: DSolver = DSolver::new(ctx);
        let state: GAState<'p> = GAState::new(ctx, project, solver, fn_name, end_pc)?;
        Ok(Self::new_with_state(project, state))
    }

    /// A machine with one path that resumes `state`.
    pub fn new_with_state(project: &'p Project, state: GAState<'p>) -> (r: VM<'p>)
        requires
            1 <= project.word_bits() <= 64,
            state.wf(),
            state.project == project,
        ensures
            r.wf(),
            r.paths.paths().len() == 1,
            r.project == project,
            r.paths.paths()[0].state.pc() == state.pc(),
            r.paths.paths()[0].state.registers == state.registers,
    {
        let mut paths: DFSPathSelection<'p> = DFSPathSelection::new();
        let path: Path<'p> = Path::new(state, None);
        paths.save_path(path);
        VM { project, paths }
    }

    /// Where the path saved last stands at a hook that ends a path, running
    /// it gives that hook's result at once, with the path's state (its
    /// solver aside) and the cycles of its last instruction added, and saves
    /// no path.
    pub open spec fn ends_at_hook(
        vm: VM<'p>,
        r: Result<Option<(PathResult, GAState<'p>)>, GAError>,
        after: Seq<Path<'p>>,
    ) -> bool {
        let last = vm.paths.paths().last().state;
        let ended = match crate::symex::project::last_for(vm.project.pc_hook_entries(), last.fetch_address()) {
            Some(crate::symex::project::PCHook::EndSuccess) => Some(PathResult::Success(None)),
            Some(crate::symex::project::PCHook::EndFaliure(reason)) => Some(PathResult::Faliure(reason)),
            Some(crate::symex::project::PCHook::Suppress) => Some(PathResult::Suppress),
            _ => None,
        };
        ended matches Some(res) ==> {
            &&& r matches Ok(Some((q, s))) && q == res && s == (GAState {
                constraints: s.constraints,
                ..last.cycles_advanced()
            })
            &&& after == vm.paths.paths().drop_last()
        }
    }

    /// Runs the path saved last to its end and saves the paths it forked;
    /// `None` when no path is left.
    pub fn run(&mut self) -> (r: Result<Option<(PathResult, GAState<'p>)>, GAError>)
        requires
            old(self).wf(),
        ensures
            final(self).wf(),
            final(self).project == old(self).project,
            old(self).paths.paths().len() == 0 ==> (r matches Ok(None)) && final(self).paths.paths() == old(
                self,
            ).paths.paths(),
            old(self).paths.paths().len() > 0 ==> {
                &&& !(r matches Ok(None))
                &&& final(self).paths.paths().len() >= old(self).paths.paths().len() - 1
                &&& final(self).paths.paths().subrange(0, old(self).paths.paths().len() - 1) == old(
                    self,
                ).paths.paths().drop_last()
            },
            old(self).paths.paths().len() > 0 && old(self).paths.paths().last().state.continue_in_instruction is None
                ==> Self::ends_at_hook(*old(self), r, final(self).paths.paths()),
            r matches Ok(Some((PathResult::Success(_), s))) ==> crate::symex::project::last_for(
                s.project.pc_hook_entries(),
                s.fetch_address(),
            ) matches Some(crate::symex::project::PCHook::EndSuccess),
            r matches Ok(Some((PathResult::Suppress, s))) ==> crate::symex::project::last_for(
                s.project.pc_hook_entries(),
                s.fetch_address(),
            ) matches Some(crate::symex::project::PCHook::Suppress),
            r matches Ok(Some((PathResult::Faliure(reason), s))) ==> crate::symex::project::last_for(
                s.project.pc_hook_entries(),
                s.fetch_address(),
            ) == Some(crate::symex::project::PCHook::EndFaliure(reason)),
    {
        let ghost waiting = old(self).paths.paths();
        let path: Path<'p> = match self.paths.get_path() {
            Some(p) => p,
            None => {
                proof {
                    assert(self.paths.paths() =~= waiting);
                }
                return Ok(None);
            },
        };
        let ghost kept = self.paths.paths();
        proof {
            assert(kept == waiting.drop_last());
        }
        let ghost start = path.state;
        let mut executor: GAExecutor<'p> = GAExecutor::from_state(path.state, self.project);
        let mut i: usize = 0;
        while i < path.constraints.len()
            invariant
                executor.wf(),
                executor.project == self.project,
                executor.forks@.len() == 0,
                executor.state == (GAState { constraints: executor.state.constraints, ..start }),
                forall|j: int| 0 <= j < path.constraints@.len() ==> (#[trigger] path.constraints@[j]).wf()
                    && path.constraints@[j].width() == 1,
            decreases path.constraints.len() - i,
        {
            executor.state.constraints.assert_expr(&path.constraints[i]);
            i = i + 1;
        }
        let ghost before_run = executor.state;
        let result = executor.resume_execution();
        proof {
            let last = waiting.last().state;
            assert(before_run.fetch_address() == last.fetch_address());
            assert(before_run.continue_in_instruction == last.continue_in_instruction);
            assert(before_run.cycles_after_last() == last.cycles_after_last());
        }
        let ghost n_forks = executor.forks@.len();
        let mut forks: Vec<Path<'p>> = executor.forks;
        let mut saved: Vec<Path<'p>> = Vec::new();
        while forks.len() > 0
            invariant
                forks@.len() + saved@.len() == n_forks,
                self.wf(),
                self.project == old(self).project,
                self.paths.paths() == kept,
                forall|j: int| 0 <= j < forks@.len() ==> GAExecutor::path_ok(#[trigger] forks@[j], self.project),
                forall|j: int| 0 <= j < saved@.len() ==> GAExecutor::path_ok(#[trigger] saved@[j], self.project),
            decreases forks.len(),
        {
            let p: Path<'p> = forks.pop().unwrap();
            saved.push(p);
        }
        while saved.len() > 0
            invariant
                self.wf(),
                self.project == old(self).project,
                self.paths.paths().len() + saved@.len() == kept.len() + n_forks,
                saved@.len() <= n_forks,
                self.paths.paths().subrange(0, kept.len() as int) == kept,
                forall|j: int| 0 <= j < saved@.len() ==> GAExecutor::path_ok(#[trigger] saved@[j], self.project),
            decreases saved.len(),
        {
            let p: Path<'p> = saved.pop().unwrap();
            let ghost before = self.paths.paths();
            self.paths.save_path(p);
            proof {
                assert forall|j: int| 0 <= j < self.paths.paths().len() implies GAExecutor::path_ok(
                    #[trigger] self.paths.paths()[j],
                    self.project,
                ) by {
                    if j < before.len() {
                        assert(self.paths.paths().drop_last()[j] == before[j]);
                    }
                }
                assert(self.paths.paths().subrange(0, kept.len() as int) =~= before.subrange(0, kept.len() as int));
            }
        }
        proof {
            assert(kept.len() == waiting.len() - 1);
        }
        proof {
            let last = waiting.last().state;
            assert(before_run == (GAState { constraints: before_run.constraints, ..last }));
            if last.continue_in_instruction is None && match crate::symex::project::last_for(
                self.project.pc_hook_entries(),
                last.fetch_address(),
            ) {
                Some(crate::symex::project::PCHook::EndSuccess) => true,
                Some(crate::symex::project::PCHook::EndFaliure(_)) => true,
                Some(crate::symex::project::PCHook::Suppress) => true,
                _ => false,
            } {
                assert(before_run.continue_in_instruction is None);
                assert(n_forks == 0);
                assert(executor.state == before_run.cycles_advanced());
                assert(self.paths.paths() =~= kept);
                assert(executor.state == (GAState { constraints: executor.state.constraints, ..last.cycles_advanced() }));
            }
        }
        let result: PathResult = result?;
        Ok(Some((result, executor.state)))
    }
}

} // verus!
