//! The state of one execution path: registers, flags, memory, constraints
//! and the bookkeeping of the executed instructions.
use vstd::prelude::*;
use vstd::arithmetic::power2::lemma2_to64;
use crate::general_assembly::condition::{Condition, condition_holds};
use crate::general_assembly::operand::DataWord;
use crate::memory::ArrayMemory;
use crate::smt::bits::{p, lemma_p_facts};
use crate::smt::expr::{DContext, DExpr, Env, bit, const_of, lemma_eval_range};
use crate::smt::solver::DSolver;
use crate::symex::executor::{lemma_and_bits, lemma_or_bits};
use crate::symex::instruction::{CycleCount, CycleFunction, Instruction, is_instruction_copy};
use crate::symex::named::NamedExprs;
use crate::symex::project::{PCHook, Project, ProjectError, RegisterReadHook, RegisterWriteHook,
    last_for, last_named};
use crate::symex::types::GAError;

verus! {

/// An owned copy of a string.
pub fn owned(s: &str) -> (r: String)
    ensures
        r@ == s@,
{
    s.to_owned()
}

/// A value that was made symbolic, with its name and width in bits.
#[derive(Debug)]
pub struct Variable {
    /// The name of the value.
    pub name: Option<String>,
    /// The value.
    pub value: DExpr,
    /// Its width in bits.
    pub bits: u32,
}

/// Either a hook at the program counter or the instruction there.
#[derive(Debug)]
pub enum HookOrInstruction {
    PcHook(PCHook),
    Instruction(Instruction),
}

/// Where to resume an instruction that was interrupted by a fork.
#[derive(Debug)]
pub struct ContinueInsideInstruction {
    /// The instruction.
    pub instruction: Instruction,
    /// The index of the operation to resume at.
    pub index: usize,
    /// The locals of the instruction at that point.
    pub local: NamedExprs,
}

/// Whether `e` is a constant address in the single cycle I/O region.
pub open spec fn in_single_cycle_io(e: DExpr) -> bool {
    e.const_value() is Some && 0xd000_0000 <= e.const_value().unwrap() <= 0xdfff_ffff
}

/// Whether `address` is a constant address in the program's code.
pub open spec fn in_code(project: Project, address: DExpr) -> bool {
    address.const_value() is Some && project.start() <= address.const_value().unwrap() <= project.end()
}

/// Every bound value is a well formed expression.
pub open spec fn values_wf(m: NamedExprs) -> bool {
    forall|k: Seq<char>| #[trigger] m.contains(k) ==> m.lookup(k).wf()
}

/// The state of one execution path.
#[derive(Debug)]
pub struct GAState<'p> {
    /// The program under analysis.
    pub project: &'p Project,
    /// The context that creates expressions.
    pub ctx: DContext,
    /// The path's constraints.
    pub constraints: DSolver,
    /// The values made symbolic so far.
    pub marked_symbolic: Vec<Variable>,
    /// The memory outside the program's code.
    pub memory: ArrayMemory,
    /// Whether cycles are counted.
    pub count_cycles: bool,
    /// The cycles counted so far.
    pub cycle_count: usize,
    /// Named cycle counts recorded along the path.
    pub cycle_laps: Vec<(usize, String)>,
    /// The instruction executed last.
    pub last_instruction: Option<Instruction>,
    /// The address of the instruction executed last.
    pub last_pc: u64,
    /// The registers.
    pub registers: NamedExprs,
    /// An instruction to resume before fetching the next one.
    pub continue_in_instruction: Option<ContinueInsideInstruction>,
    /// The instruction being executed.
    pub current_instruction: Option<Instruction>,
    /// The concrete program counter.
    pub pc_register: u64,
    /// The flags.
    pub flags: NamedExprs,
    /// The number of instructions executed.
    pub instruction_counter: usize,
    /// Whether the current instruction branched.
    pub has_jumped: bool,
    /// Conditions of the instructions to come.
    pub instruction_conditions: Vec<Condition>,
}

impl<'p> GAState<'p> {
    /// The concrete program counter.
    pub open spec fn pc(self) -> u64 {
        self.pc_register
    }

    /// The flags.
    pub open spec fn flag_map(self) -> NamedExprs {
        self.flags
    }

    /// The number of instructions executed.
    pub open spec fn count(self) -> usize {
        self.instruction_counter
    }

    /// Whether the last instruction branched.
    pub open spec fn jumped(self) -> bool {
        self.has_jumped
    }

    /// The conditions of the instructions to come, first one first.
    pub open spec fn conditions(self) -> Seq<Condition> {
        self.instruction_conditions@
    }

    /// The value of flag `f` is one under `env`.
    pub open spec fn flag_set(self, f: Seq<char>, env: Env) -> bool {
        self.flag_map().lookup(f).eval(env) != 0
    }

    /// The four condition flags exist as well formed one bit expressions.
    pub open spec fn flags_ok(self) -> bool {
        &&& values_wf(self.flag_map())
        &&& self.flag_map().wf()
        &&& self.flag_map().contains("N"@) && self.flag_map().lookup("N"@).width() == 1
        &&& self.flag_map().contains("Z"@) && self.flag_map().lookup("Z"@).width() == 1
        &&& self.flag_map().contains("C"@) && self.flag_map().lookup("C"@).width() == 1
        &&& self.flag_map().contains("V"@) && self.flag_map().lookup("V"@).width() == 1
    }

    /// Well formedness of the state.
    pub open spec fn wf(self) -> bool {
        &&& self.registers.wf()
        &&& values_wf(self.registers)
        &&& self.flags_ok()
        &&& self.memory.wf()
        &&& self.memory.ptr_bits() == self.project.word_bits()
        &&& self.constraints.wf()
        &&& self.continue_in_instruction is Some ==> self.continue_in_instruction.unwrap().local.wf()
            && values_wf(self.continue_in_instruction.unwrap().local)
    }

    /// The value of `condition` under `env`, from the flags.
    pub open spec fn condition_value(self, condition: Condition, env: Env) -> bool {
        condition_holds(
            condition,
            self.flag_set("N"@, env),
            self.flag_set("Z"@, env),
            self.flag_set("C"@, env),
            self.flag_set("V"@, env),
        )
    }

    /// Whether the flags that `condition` reads hold constants, so that it
    /// has one value under every assignment.
    pub open spec fn condition_fixed(self, condition: Condition) -> bool {
        let n = self.flag_map().lookup("N"@).is_const();
        let z = self.flag_map().lookup("Z"@).is_const();
        let c = self.flag_map().lookup("C"@).is_const();
        let v = self.flag_map().lookup("V"@).is_const();
        match condition {
            Condition::EQ | Condition::NE => z,
            Condition::CS | Condition::CC => c,
            Condition::MI | Condition::PL => n,
            Condition::VS | Condition::VC => v,
            Condition::HI | Condition::LS => c && z,
            Condition::GE | Condition::LT => n && v,
            Condition::GT | Condition::LE => z && n && v,
            Condition::AL => true,
        }
    }

    /// The initial flags: four unconstrained one bit values.
    fn initial_flags(ctx: &DContext) -> (r: NamedExprs)
        ensures
            r.wf(),
            values_wf(r),
            r.contains("N"@) && r.lookup("N"@).width() == 1,
            r.contains("Z"@) && r.lookup("Z"@).width() == 1,
            r.contains("C"@) && r.lookup("C"@).width() == 1,
            r.contains("V"@) && r.lookup("V"@).width() == 1,
    {
        let mut flags: NamedExprs = NamedExprs::new();
        proof {
            reveal_strlit("N");
            reveal_strlit("Z");
            reveal_strlit("C");
            reveal_strlit("V");
        }
        flags.insert(owned("N"), ctx.unconstrained(1, "flags.N"));
        flags.insert(owned("Z"), ctx.unconstrained(1, "flags.Z"));
        flags.insert(owned("C"), ctx.unconstrained(1, "flags.C"));
        flags.insert(owned("V"), ctx.unconstrained(1, "flags.V"));
        flags
    }

    /// A state about to run the code at `start_pc` with the stack pointer at
    /// `start_stack`; the link register is left unset.
    pub fn create_test_state(
        project: &'p Project,
        ctx: &DContext,
        constraints: DSolver,
        start_pc: u64,
        start_stack: u64,
    ) -> (r: GAState<'p>)
        requires
            constraints.wf(),
        ensures
            r.wf(),
            r.pc() == start_pc,
            r.last_pc == start_pc,
            r.cycle_count == 0,
            r.marked_symbolic@.len() == 0,
            r.count() == 0,
            !r.jumped(),
            r.conditions().len() == 0,
            r.registers.contains("PC"@),
            r.registers.lookup("PC"@) == const_of(start_pc as nat, project.word_bits() as u32),
            r.registers.contains("SP"@),
            r.registers.lookup("SP"@) == const_of(start_stack as nat, project.word_bits() as u32),
            forall|k: Seq<char>| k != "PC"@ && k != "SP"@ ==> !(#[trigger] r.registers.contains(k)),
            r.constraints.assertions() == constraints.assertions(),
            r.project == project,
    {
        let ptr_size: u32 = project.get_ptr_size();
        proof {
            reveal_strlit("PC");
            reveal_strlit("SP");
        }
        let memory: ArrayMemory = ArrayMemory::new(ctx, ptr_size, project.get_endianness());
        let mut registers: NamedExprs = NamedExprs::new();
        registers.insert(owned("PC"), ctx.from_u64(start_pc, ptr_size));
        registers.insert(owned("SP"), ctx.from_u64(start_stack, ptr_size));
        proof {
            assert("PC"@[0] != "SP"@[0]);
        }
        let flags: NamedExprs = Self::initial_flags(ctx);
        GAState {
            project,
            ctx: *ctx,
            constraints,
            marked_symbolic: Vec::new(),
            memory,
            count_cycles: true,
            cycle_count: 0,
            cycle_laps: Vec::new(),
            last_instruction: None,
            last_pc: start_pc,
            registers,
            continue_in_instruction: None,
            current_instruction: None,
            pc_register: start_pc,
            flags,
            instruction_counter: 0,
            has_jumped: false,
            instruction_conditions: Vec::new(),
        }
    }

    /// A state about to run `function`, with the stack pointer at the symbol
    /// `_stack_start` and the link register at `end_address`, so that a
    /// return from the function jumps there.
    pub fn new(
        ctx: &DContext,
        project: &'p Project,
        constraints: DSolver,
        function: &str,
        end_address: u64,
    ) -> (r: Result<GAState<'p>, GAError>)
        requires
            constraints.wf(),
        ensures
            last_named(project.symbols(), function@) is None ==> (r matches Err(GAError::EntryFunctionNotFound(name))
                && name@ == function@),
            last_named(project.symbols(), function@) is Some && last_named(project.symbols(), "_stack_start"@)
                is None ==> r matches Err(GAError::ProjectError(ProjectError::UnableToParseElf(_))),
            r is Ok <==> last_named(project.symbols(), function@) is Some && last_named(
                project.symbols(),
                "_stack_start"@,
            ) is Some,
            r matches Ok(s) ==> {
                &&& s.wf()
                &&& s.pc() == last_named(project.symbols(), function@).unwrap()
                &&& s.registers.lookup("PC"@) == const_of(s.pc() as nat, project.word_bits() as u32)
                &&& s.registers.lookup("SP"@) == const_of(
                    last_named(project.symbols(), "_stack_start"@).unwrap() as nat,
                    project.word_bits() as u32,
                )
                &&& s.registers.contains("LR"@)
                &&& s.registers.lookup("LR"@) == const_of(end_address as nat, project.word_bits() as u32)
                &&& s.last_pc == s.pc()
                &&& s.cycle_count == 0
                &&& s.marked_symbolic@.len() == 0
                &&& s.count() == 0
                &&& s.project == project
            },
    {
        let pc_reg: u64 = match project.get_symbol_address(function) {
            Some(a) => a,
            None => return Err(GAError::EntryFunctionNotFound(owned(function))),
        };
        proof {
            reveal_strlit("_stack_start");
            reveal_strlit("LR");
        }
        let sp_reg: u64 = match project.get_symbol_address("_stack_start") {
            Some(a) => a,
            None => return Err(GAError::ProjectError(ProjectError::UnableToParseElf(owned("start of stack not found")))),
        };
        let mut state: GAState<'p> = Self::create_test_state(project, ctx, constraints, pc_reg, sp_reg);
        let ghost old_registers = state.registers;
        let ptr_size: u32 = project.get_ptr_size();
        state.registers.insert(owned("LR"), ctx.from_u64(end_address, ptr_size));
        proof {
            reveal_strlit("PC");
            reveal_strlit("SP");
            assert("LR"@[0] != "PC"@[0]);
            assert("LR"@[0] != "SP"@[0]);
            assert(values_wf(state.registers)) by {
                assert forall|k: Seq<char>| #[trigger] state.registers.contains(k) implies state.registers.lookup(k).wf() by {
                    if k != "LR"@ {
                        assert(old_registers.contains(k));
                    }
                }
            }
        }
        Ok(state)
    }

    /// Clears the record that the last instruction branched.
    pub fn reset_has_jumped(&mut self)
        ensures
            !final(self).jumped(),
            final(self).count() == old(self).count(),
            final(self).pc() == old(self).pc(),
            final(self).wf() == old(self).wf(),
            final(self).registers == old(self).registers,
            final(self).flag_map() == old(self).flag_map(),
            final(self).memory == old(self).memory,
            final(self).constraints == old(self).constraints,
            final(self).conditions() == old(self).conditions(),
            final(self).project == old(self).project,
            final(self).last_pc == old(self).last_pc,
            final(self).current_instruction == old(self).current_instruction,
    {
        self.has_jumped = false;
    }

    /// Records that the current instruction branched.
    pub fn set_has_jumped(&mut self)
        ensures
            final(self).jumped(),
            final(self).count() == old(self).count(),
            final(self).pc() == old(self).pc(),
            final(self).wf() == old(self).wf(),
            final(self).registers == old(self).registers,
            final(self).flag_map() == old(self).flag_map(),
            final(self).memory == old(self).memory,
            final(self).constraints == old(self).constraints,
            final(self).conditions() == old(self).conditions(),
            final(self).project == old(self).project,
            final(self).last_pc == old(self).last_pc,
            final(self).current_instruction == old(self).current_instruction,
    {
        self.has_jumped = true;
    }

    /// Whether the last executed instruction was a branch that was taken.
    pub fn get_has_jumped(&self) -> (r: bool)
        ensures
            r == self.jumped(),
    {
        self.has_jumped
    }

    /// Counts one more executed instruction; the count stops at the largest `usize`.
    pub fn increment_instruction_count(&mut self)
        ensures
            final(self).count() == if old(self).count() == usize::MAX { usize::MAX } else {
                (old(self).count() + 1) as usize
            },
            final(self).pc() == old(self).pc(),
            final(self).jumped() == old(self).jumped(),
            final(self).wf() == old(self).wf(),
            final(self).registers == old(self).registers,
            final(self).flag_map() == old(self).flag_map(),
            final(self).memory == old(self).memory,
            final(self).constraints == old(self).constraints,
            final(self).conditions() == old(self).conditions(),
            final(self).project == old(self).project,
            final(self).last_pc == old(self).last_pc,
    {
        self.instruction_counter = self.instruction_counter.saturating_add(1);
    }

    /// The number of instructions executed.
    pub fn get_instruction_count(&self) -> (r: usize)
        ensures
            r == self.count(),
    {
        self.instruction_counter
    }

    /// The cycles the last instruction took, by its cycle count.
    pub open spec fn cycles_of(self, c: CycleCount) -> usize {
        match c {
            CycleCount::Value(v) => v,
            CycleCount::Function(CycleFunction::Branch { taken, not_taken }) => if self.jumped() {
                taken
            } else {
                not_taken
            },
            CycleCount::Function(CycleFunction::SingleCycleIo) => if self.registers.contains("LastAddr"@)
                && in_single_cycle_io(self.registers.lookup("LastAddr"@)) {
                1
            } else {
                2
            },
        }
    }

    /// This state with the cycles of its last instruction added.
    pub open spec fn cycles_advanced(self) -> GAState<'p> {
        GAState { cycle_count: self.cycles_after_last(), ..self }
    }

    /// The cycle count after the cycles of the last instruction are added
    /// (unchanged when cycles are not counted or no instruction ran); the
    /// count stops at the largest `usize`.
    pub open spec fn cycles_after_last(self) -> usize {
        if !self.count_cycles || self.last_instruction is None {
            self.cycle_count
        } else {
            let c = self.cycles_of(self.last_instruction.unwrap().max_cycle);
            if self.cycle_count + c > usize::MAX {
                usize::MAX
            } else {
                (self.cycle_count + c) as usize
            }
        }
    }

    /// Adds the cycles of the last instruction to the cycle count (nothing
    /// when cycles are not counted or no instruction ran); the count stops at
    /// the largest `usize`.
    pub fn increment_cycle_count(&mut self)
        requires
            old(self).registers.wf(),
        ensures
            final(self).cycle_count == old(self).cycles_after_last(),
            *final(self) == old(self).cycles_advanced(),
            final(self).registers == old(self).registers,
            final(self).pc() == old(self).pc(),
            final(self).count() == old(self).count(),
            final(self).wf() == old(self).wf(),
            final(self).flag_map() == old(self).flag_map(),
            final(self).memory == old(self).memory,
            final(self).constraints == old(self).constraints,
            final(self).conditions() == old(self).conditions(),
            final(self).jumped() == old(self).jumped(),
            final(self).project == old(self).project,
            final(self).last_pc == old(self).last_pc,
    {
        if !self.count_cycles {
            return;
        }
        let cycles: usize = match &self.last_instruction {
            Some(i) => match i.max_cycle {
                CycleCount::Value(v) => v,
                CycleCount::Function(CycleFunction::Branch { taken, not_taken }) => if self.has_jumped {
                    taken
                } else {
                    not_taken
                },
                CycleCount::Function(CycleFunction::SingleCycleIo) => {
                    proof {
                        reveal_strlit("LastAddr");
                    }
                    match self.registers.get("LastAddr") {
                        Some(e) => match e.get_constant() {
                            Some(a) => if 0xd000_0000 <= a && a <= 0xdfff_ffff {
                                1
                            } else {
                                2
                            },
                            None => 2,
                        },
                        None => 2,
                    }
                },
            },
            None => 0,
        };
        self.cycle_count = self.cycle_count.saturating_add(cycles);
    }

    /// Records the instruction that was executed last.
    pub fn set_last_instruction(&mut self, instruction: Instruction)
        ensures
            final(self).last_instruction == Some(instruction),
            *final(self) == (GAState { last_instruction: Some(instruction), ..*old(self) }),
            final(self).registers == old(self).registers,
            final(self).flag_map() == old(self).flag_map(),
            final(self).memory == old(self).memory,
            final(self).constraints == old(self).constraints,
            final(self).pc() == old(self).pc(),
            final(self).count() == old(self).count(),
            final(self).jumped() == old(self).jumped(),
            final(self).conditions() == old(self).conditions(),
            final(self).project == old(self).project,
            final(self).continue_in_instruction == old(self).continue_in_instruction,
    {
        self.last_instruction = Some(instruction);
    }

    /// Queues conditions for the instructions to come, in order.
    pub fn add_instruction_conditions(&mut self, conditions: &Vec<Condition>)
        ensures
            final(self).conditions() == old(self).conditions() + conditions@,
            final(self).registers == old(self).registers,
            final(self).flag_map() == old(self).flag_map(),
            final(self).memory == old(self).memory,
            final(self).constraints == old(self).constraints,
            final(self).pc() == old(self).pc(),
            final(self).count() == old(self).count(),
            final(self).jumped() == old(self).jumped(),
            final(self).project == old(self).project,
            final(self).continue_in_instruction == old(self).continue_in_instruction,
    {
        let mut i: usize = 0;
        while i < conditions.len()
            invariant
                i <= conditions@.len(),
                self.instruction_conditions@ == old(self).instruction_conditions@ + conditions@.take(i as int),
                self.registers == old(self).registers,
                self.flags == old(self).flags,
                self.memory == old(self).memory,
                self.constraints == old(self).constraints,
                self.pc_register == old(self).pc_register,
                self.instruction_counter == old(self).instruction_counter,
                self.has_jumped == old(self).has_jumped,
                self.project == old(self).project,
                self.continue_in_instruction == old(self).continue_in_instruction,
            decreases conditions.len() - i,
        {
            self.instruction_conditions.push(conditions[i]);
            i = i + 1;
            assert(self.instruction_conditions@ =~= old(self).instruction_conditions@ + conditions@.take(i as int));
        }
        assert(conditions@.take(conditions@.len() as int) =~= conditions@);
    }

    /// Takes the condition of the next instruction from the queue and gives
    /// its value under the current flags; `None` when no condition is queued.
    pub fn get_next_instruction_condition_expression(&mut self) -> (r: Option<DExpr>)
        requires
            old(self).wf(),
        ensures
            final(self).wf(),
            old(self).conditions().len() == 0 ==> r is None && final(self).conditions() == old(self).conditions(),
            old(self).conditions().len() > 0 && old(self).conditions()[0] == Condition::AL ==> (r matches Some(e)
                && e.const_value() == Some(1u64) && e.is_const() && e.width() == 1),
            old(self).conditions().len() > 0 && old(self).condition_fixed(old(self).conditions()[0]) ==> (r matches Some(
                e,
            ) && e.is_const()),
            old(self).conditions().len() > 0 ==> {
                &&& final(self).conditions() == old(self).conditions().drop_first()
                &&& r matches Some(e) && e.wf() && e.width() == 1 && forall|env: Env| #[trigger] e.eval(env)
                    == bit(old(self).condition_value(old(self).conditions()[0], env))
            },
            final(self).registers == old(self).registers,
            final(self).flag_map() == old(self).flag_map(),
            final(self).memory == old(self).memory,
            final(self).constraints == old(self).constraints,
            final(self).pc() == old(self).pc(),
            final(self).count() == old(self).count(),
            final(self).jumped() == old(self).jumped(),
            final(self).project == old(self).project,
            final(self).continue_in_instruction == old(self).continue_in_instruction,
    {
        if self.instruction_conditions.len() == 0 {
            return None;
        }
        let condition: Condition = self.instruction_conditions.remove(0);
        proof {
            assert(self.instruction_conditions@ =~= old(self).instruction_conditions@.drop_first());
        }
        Some(self.get_expr(&condition))
    }

    /// The value of the flag named `flag`, if it exists.
    pub fn get_flag(&self, flag: &str) -> (r: Option<DExpr>)
        requires
            self.flag_map().wf(),
        ensures
            r is None <==> !self.flag_map().contains(flag@),
            r matches Some(e) ==> e == self.flag_map().lookup(flag@),
    {
        self.flags.get(flag)
    }

    /// Sets the flag named `flag`.
    pub fn set_flag(&mut self, flag: String, expr: DExpr)
        requires
            old(self).flag_map().wf(),
        ensures
            final(self).flag_map().wf(),
            final(self).flag_map().contains(flag@),
            final(self).flag_map().lookup(flag@) == expr,
            forall|k: Seq<char>| k != flag@ ==> (#[trigger] final(self).flag_map().contains(k))
                == old(self).flag_map().contains(k),
            forall|k: Seq<char>| k != flag@ && old(self).flag_map().contains(k) ==> #[trigger] final(self).flag_map().lookup(k) == old(self).flag_map().lookup(k),
            final(self).registers == old(self).registers,
            final(self).memory == old(self).memory,
            final(self).constraints == old(self).constraints,
            final(self).pc() == old(self).pc(),
            final(self).count() == old(self).count(),
            final(self).jumped() == old(self).jumped(),
            final(self).conditions() == old(self).conditions(),
            final(self).project == old(self).project,
            final(self).continue_in_instruction == old(self).continue_in_instruction,
            final(self).last_pc == old(self).last_pc,
    {
        self.flags.insert(flag, expr);
    }

    /// The one bit value of `condition` under the current flags.
    pub fn get_expr(&self, condition: &Condition) -> (r: DExpr)
        requires
            self.flags_ok(),
        ensures
            r.wf(),
            r.width() == 1,
            forall|env: Env| #[trigger] r.eval(env) == bit(self.condition_value(*condition, env)),
            *condition == Condition::AL ==> r.const_value() == Some(1u64),
            self.condition_fixed(*condition) ==> r.is_const(),
    {
        proof {
            reveal_strlit("N");
            reveal_strlit("Z");
            reveal_strlit("C");
            reveal_strlit("V");
            lemma2_to64();
        }
        let n: DExpr = self.flags.get("N").unwrap();
        let z: DExpr = self.flags.get("Z").unwrap();
        let c: DExpr = self.flags.get("C").unwrap();
        let v: DExpr = self.flags.get("V").unwrap();
        let r: DExpr = match condition {
            Condition::EQ => z.clone(),
            Condition::NE => z.not(),
            Condition::CS => c.clone(),
            Condition::CC => c.not(),
            Condition::MI => n.clone(),
            Condition::PL => n.not(),
            Condition::VS => v.clone(),
            Condition::VC => v.not(),
            Condition::HI => c.and(&z.not()),
            Condition::LS => c.not().or(&z),
            Condition::GE => n._eq(&v),
            Condition::LT => n._ne(&v),
            Condition::GT => z.not().and(&n._eq(&v)),
            Condition::LE => z.or(&n._ne(&v)),
            Condition::AL => self.ctx.from_bool(true),
        };
        proof {
            assert forall|env: Env| #[trigger] r.eval(env) == bit(self.condition_value(*condition, env)) by {
                lemma_eval_range(n, env);
                lemma_eval_range(z, env);
                lemma_eval_range(c, env);
                lemma_eval_range(v, env);
                let (nv, zv, cv, vv) = (n.eval(env), z.eval(env), c.eval(env), v.eval(env));
                assert(nv <= 1 && zv <= 1 && cv <= 1 && vv <= 1);
                lemma_and_bits(cv as u64, (1 - zv) as u64);
                lemma_or_bits((1 - cv) as u64, zv as u64);
                lemma_and_bits((1 - zv) as u64, bit(nv == vv) as u64);
                lemma_or_bits(zv as u64, bit(nv != vv) as u64);
            }
        }
        r
    }

    /// Reads a register through its read hook, if any, else directly; a
    /// register that was never written reads as a fresh symbolic value of a
    /// word, named after the register, which it keeps from then on.
    pub fn get_register(&mut self, register: String) -> (r: Result<DExpr, GAError>)
        requires
            old(self).wf(),
        ensures
            final(self).marked_symbolic@.len() >= old(self).marked_symbolic@.len(),
            final(self).marked_symbolic@.subrange(0, old(self).marked_symbolic@.len() as int) == old(self).marked_symbolic@,
            final(self).wf(),
            r matches Ok(e) ==> e.wf(),
            last_named(old(self).project.register_read_hooks(), register@) is None ==> {
                &&& r is Ok
                &&& old(self).registers.contains(register@) ==> {
                    &&& r == Ok::<DExpr, GAError>(old(self).registers.lookup(register@))
                    &&& *final(self) == *old(self)
                }
                &&& !old(self).registers.contains(register@) ==> {
                    &&& r matches Ok(e) && e == DExpr::Symbol { width: old(self).project.word_bits() as u32, name: register }
                    &&& final(self).registers.contains(register@)
                    &&& final(self).registers.lookup(register@) == r.unwrap()
                    &&& forall|k: Seq<char>| k != register@ ==> (#[trigger] final(self).registers.contains(k))
                        == old(self).registers.contains(k)
                    &&& forall|k: Seq<char>| k != register@ && old(self).registers.contains(k) ==> #[trigger] final(self).registers.lookup(k) == old(self).registers.lookup(k)
                }
            },
            final(self).flag_map() == old(self).flag_map(),
            final(self).memory == old(self).memory,
            final(self).constraints == old(self).constraints,
            final(self).pc() == old(self).pc(),
            final(self).count() == old(self).count(),
            final(self).jumped() == old(self).jumped(),
            final(self).conditions() == old(self).conditions(),
            final(self).project == old(self).project,
            final(self).last_pc == old(self).last_pc,
            last_named(old(self).project.register_read_hooks(), register@) == Some(RegisterReadHook::LastPcPlusFour)
                ==> r == Ok::<DExpr, GAError>(const_of(
                ((old(self).last_pc + 4) % 0x1_0000_0000_0000_0000) as nat,
                old(self).project.word_bits() as u32,
            )),
            last_named(old(self).project.register_read_hooks(), register@) is Some && old(self).hook_readable(
                last_named(old(self).project.register_read_hooks(), register@).unwrap(),
            ) ==> {
                let h = last_named(old(self).project.register_read_hooks(), register@).unwrap();
                &&& *final(self) == *old(self)
                &&& r matches Ok(e) && e.width() == old(self).hook_width(h) && forall|env: Env| #[trigger] e.eval(env)
                    == old(self).hook_value(h, env)
            },
            last_named(old(self).project.register_read_hooks(), register@) is None && !old(self).registers.contains(
                register@,
            ) ==> final(self).marked_symbolic@.len() == old(self).marked_symbolic@.len() + 1 && r is Ok
                && final(self).marked_symbolic@.last().value == r.unwrap() && final(self).marked_symbolic@.last().bits
                == old(self).project.word_bits() && (final(self).marked_symbolic@.last().name matches Some(n) && n@
                == register@),
    {
        match self.project.get_register_read_hook(register.as_str()) {
            Some(hook) => self.read_hooked(hook),
            None => Ok(self.read_plain(register)),
        }
    }

    /// Reads a register without consulting hooks.
    fn read_plain(&mut self, register: String) -> (r: DExpr)
        requires
            old(self).wf(),
        ensures
            final(self).marked_symbolic@.len() >= old(self).marked_symbolic@.len(),
            final(self).marked_symbolic@.subrange(0, old(self).marked_symbolic@.len() as int) == old(self).marked_symbolic@,
            final(self).wf(),
            r.wf(),
            old(self).registers.contains(register@) ==> r == old(self).registers.lookup(register@)
                && *final(self) == *old(self),
            !old(self).registers.contains(register@) ==> {
                &&& r == DExpr::Symbol { width: old(self).project.word_bits() as u32, name: register }
                &&& final(self).registers.contains(register@)
                &&& final(self).registers.lookup(register@) == r
                &&& forall|k: Seq<char>| k != register@ ==> (#[trigger] final(self).registers.contains(k))
                    == old(self).registers.contains(k)
                &&& forall|k: Seq<char>| k != register@ && old(self).registers.contains(k) ==> #[trigger] final(self).registers.lookup(k) == old(self).registers.lookup(k)
            },
            final(self).flag_map() == old(self).flag_map(),
            final(self).memory == old(self).memory,
            final(self).constraints == old(self).constraints,
            final(self).pc() == old(self).pc(),
            final(self).count() == old(self).count(),
            final(self).jumped() == old(self).jumped(),
            final(self).conditions() == old(self).conditions(),
            final(self).project == old(self).project,
            final(self).last_pc == old(self).last_pc,
            !old(self).registers.contains(register@) ==> final(self).marked_symbolic@.len() == old(
                self,
            ).marked_symbolic@.len() + 1 && final(self).marked_symbolic@.last().value == r
                && final(self).marked_symbolic@.last().bits == old(self).project.word_bits()
                && (final(self).marked_symbolic@.last().name matches Some(n) && n@ == register@),
            old(self).registers.contains(register@) ==> final(self).marked_symbolic@ == old(self).marked_symbolic@,
    {
        match self.registers.get(register.as_str()) {
            Some(v) => v,
            None => {
                let word: u32 = self.project.get_word_size();
                let value: DExpr = DExpr::Symbol { width: word, name: register.clone() };
                self.marked_symbolic.push(Variable { name: Some(register.clone()), value: value.clone(), bits: word });
                self.registers.insert(register, value.clone());
                proof {
                    assert(values_wf(self.registers)) by {
                        assert forall|k: Seq<char>| #[trigger] self.registers.contains(k) implies self.registers.lookup(k).wf() by {
                            if k != register@ {
                                assert(old(self).registers.contains(k));
                            }
                        }
                    }
                }
                value
            },
        }
    }

    /// Whether a read through `hook` reads registers that are written:
    /// the address of the instruction plus four always, `PC + 1` when `PC`
    /// is written, the aligned stack pointer when a 32 bit `SP` is written.
    pub open spec fn hook_readable(self, hook: RegisterReadHook) -> bool {
        match hook {
            RegisterReadHook::LastPcPlusFour => true,
            RegisterReadHook::PcPlusOne => self.registers.contains("PC"@),
            RegisterReadHook::SpWordAligned => self.registers.contains("SP"@) && self.registers.lookup("SP"@).width()
                == 32,
        }
    }

    /// The width of what a read through `hook` gives.
    pub open spec fn hook_width(self, hook: RegisterReadHook) -> nat {
        match hook {
            RegisterReadHook::LastPcPlusFour => self.project.word_bits(),
            RegisterReadHook::PcPlusOne => self.registers.lookup("PC"@).width(),
            RegisterReadHook::SpWordAligned => 32,
        }
    }

    /// The value a read through `hook` gives under `env`.
    pub open spec fn hook_value(self, hook: RegisterReadHook, env: Env) -> nat {
        match hook {
            RegisterReadHook::LastPcPlusFour => (((self.last_pc + 4) % 0x1_0000_0000_0000_0000) as nat) % p(
                self.project.word_bits(),
            ),
            RegisterReadHook::PcPlusOne => (self.registers.lookup("PC"@).eval(env) + 1) % p(
                self.registers.lookup("PC"@).width(),
            ),
            RegisterReadHook::SpWordAligned => ((self.registers.lookup("SP"@).eval(env) as u64) & 0xffff_fffcu64) as nat,
        }
    }

    /// The value a read hook gives.
    #[verifier::spinoff_prover]
    fn read_hooked(&mut self, hook: RegisterReadHook) -> (r: Result<DExpr, GAError>)
        requires
            old(self).wf(),
        ensures
            final(self).marked_symbolic@.len() >= old(self).marked_symbolic@.len(),
            final(self).marked_symbolic@.subrange(0, old(self).marked_symbolic@.len() as int) == old(self).marked_symbolic@,
            final(self).wf(),
            r matches Ok(e) ==> e.wf(),
            final(self).flag_map() == old(self).flag_map(),
            final(self).memory == old(self).memory,
            final(self).constraints == old(self).constraints,
            final(self).pc() == old(self).pc(),
            final(self).count() == old(self).count(),
            final(self).jumped() == old(self).jumped(),
            final(self).conditions() == old(self).conditions(),
            final(self).project == old(self).project,
            final(self).last_pc == old(self).last_pc,
            hook is LastPcPlusFour ==> r == Ok::<DExpr, GAError>(const_of(
                ((old(self).last_pc + 4) % 0x1_0000_0000_0000_0000) as nat,
                old(self).project.word_bits() as u32,
            )),
            hook is PcPlusOne ==> (r matches Ok(e) && (old(self).registers.contains("PC"@) ==> forall|env: Env|
                #[trigger] e.eval(env) == (old(self).registers.lookup("PC"@).eval(env) + 1) % p(
                    old(self).registers.lookup("PC"@).width(),
                ))),
            hook is SpWordAligned ==> (r is Ok <==> 32 == if old(self).registers.contains("SP"@) {
                old(self).registers.lookup("SP"@).width() as nat
            } else {
                old(self).project.word_bits()
            }),
            hook is SpWordAligned && old(self).registers.contains("SP"@) && r is Ok ==> forall|env: Env|
                #[trigger] r.unwrap().eval(env) == ((old(self).registers.lookup("SP"@).eval(env) as u64) & 0xffff_fffcu64) as nat,
            old(self).hook_readable(hook) ==> {
                &&& *final(self) == *old(self)
                &&& r matches Ok(e) && e.width() == old(self).hook_width(hook) && forall|env: Env| #[trigger] e.eval(env)
                    == old(self).hook_value(hook, env)
            },
            hook is LastPcPlusFour ==> *final(self) == *old(self),
    {
        proof {
            reveal_strlit("PC");
            reveal_strlit("SP");
        }
        match hook {
            RegisterReadHook::PcPlusOne => {
                let pc: DExpr = self.read_plain(owned("PC"));
                let w: u32 = pc.len();
                let one: DExpr = self.ctx.from_u64(1, w);
                proof {
                    lemma_p_facts(w as nat);
                    lemma_p_facts((w - 1) as nat);
                    assert(p(w as nat) >= 2);
                    vstd::arithmetic::div_mod::lemma_small_mod(1, p(w as nat));
                    assert forall|env: Env| #[trigger] one.eval(env) == 1 by {}
                }
                Ok(pc.add(&one))
            },
            RegisterReadHook::LastPcPlusFour => {
                let word: u32 = self.project.get_word_size();
                let next: u64 = self.last_pc.wrapping_add(4);
                proof {
                    assert(next as nat == ((self.last_pc + 4) % 0x1_0000_0000_0000_0000) as nat);
                }
                let r: DExpr = self.ctx.from_u64(next, word);
                assert(r == const_of(((self.last_pc + 4) % 0x1_0000_0000_0000_0000) as nat, word));
                Ok(r)
            },
            RegisterReadHook::SpWordAligned => {
                let sp: DExpr = self.read_plain(owned("SP"));
                if sp.len() != 32 {
                    return Err(GAError::ProjectError(ProjectError::UnabvalableOperation));
                }
                let mask: DExpr = self.ctx.from_u64(0xffff_fffc, 32);
                proof {
                    lemma2_to64();
                    assert(p(32) == 0x1_0000_0000);
                    vstd::arithmetic::div_mod::lemma_small_mod(0xffff_fffc, p(32));
                    assert forall|env: Env| #[trigger] mask.eval(env) == 0xffff_fffc by {}
                }
                Ok(sp.and(&mask))
            },
        }
    }

    /// Writes a register directly: a write to `PC` must be a constant, which
    /// becomes the concrete program counter.
    fn write_plain(&mut self, register: String, expr: DExpr) -> (r: Result<(), GAError>)
        requires
            old(self).wf(),
            expr.wf(),
        ensures
            final(self).marked_symbolic@.len() >= old(self).marked_symbolic@.len(),
            final(self).marked_symbolic@.subrange(0, old(self).marked_symbolic@.len() as int) == old(self).marked_symbolic@,
            final(self).wf(),
            register@ == "PC"@ && !expr.is_const() ==> r == Err::<(), GAError>(
                GAError::ProjectError(ProjectError::UnabvalableOperation),
            ) && *final(self) == *old(self),
            !(register@ == "PC"@ && !expr.is_const()) ==> {
                &&& r is Ok
                &&& final(self).registers.contains(register@)
                &&& final(self).registers.lookup(register@) == expr
                &&& forall|k: Seq<char>| k != register@ ==> (#[trigger] final(self).registers.contains(k))
                    == old(self).registers.contains(k)
                &&& forall|k: Seq<char>| k != register@ && old(self).registers.contains(k) ==> #[trigger] final(self).registers.lookup(k) == old(self).registers.lookup(k)
                &&& final(self).pc() == if register@ == "PC"@ {
                    expr.const_value().unwrap()
                } else {
                    old(self).pc()
                }
            },
            final(self).flag_map() == old(self).flag_map(),
            final(self).memory == old(self).memory,
            final(self).constraints == old(self).constraints,
            final(self).count() == old(self).count(),
            final(self).jumped() == old(self).jumped(),
            final(self).conditions() == old(self).conditions(),
            final(self).project == old(self).project,
            final(self).last_pc == old(self).last_pc,
    {
        proof {
            reveal_strlit("PC");
        }
        let pc_name: String = owned("PC");
        if register == pc_name {
            match expr.get_constant() {
                Some(v) => {
                    self.pc_register = v;
                },
                None => {
                    return Err(GAError::ProjectError(ProjectError::UnabvalableOperation));
                },
            }
        }
        let ghost nm = register@;
        self.registers.insert(register, expr);
        proof {
            assert forall|k: Seq<char>| #[trigger] self.registers.contains(k) implies self.registers.lookup(k).wf() by {
                if k != nm {
                    assert(old(self).registers.contains(k));
                }
            }
        }
        Ok(())
    }

    /// Writes a register through its write hook, if any, else directly. A
    /// write to `PC` must be a constant, which becomes the concrete program
    /// counter; a symbolic program counter is not supported.
    pub fn set_register(&mut self, register: String, expr: DExpr) -> (r: Result<(), GAError>)
        requires
            old(self).wf(),
            expr.wf(),
        ensures
            final(self).marked_symbolic@.len() >= old(self).marked_symbolic@.len(),
            final(self).marked_symbolic@.subrange(0, old(self).marked_symbolic@.len() as int) == old(self).marked_symbolic@,
            final(self).wf(),
            last_named(old(self).project.register_write_hooks(), register@) is None ==> {
                &&& register@ == "PC"@ && !expr.is_const() ==> r == Err::<(), GAError>(
                    GAError::ProjectError(ProjectError::UnabvalableOperation),
                )
                &&& !(register@ == "PC"@ && !expr.is_const()) ==> {
                    &&& r is Ok
                    &&& final(self).registers.contains(register@)
                    &&& final(self).registers.lookup(register@) == expr
                    &&& forall|k: Seq<char>| k != register@ ==> (#[trigger] final(self).registers.contains(k))
                        == old(self).registers.contains(k)
                    &&& forall|k: Seq<char>| k != register@ && old(self).registers.contains(k) ==> #[trigger] final(self).registers.lookup(k) == old(self).registers.lookup(k)
                    &&& final(self).pc() == if register@ == "PC"@ {
                        expr.const_value().unwrap()
                    } else {
                        old(self).pc()
                    }
                }
            },
            final(self).flag_map() == old(self).flag_map(),
            final(self).memory == old(self).memory,
            final(self).constraints == old(self).constraints,
            final(self).count() == old(self).count(),
            final(self).jumped() == old(self).jumped(),
            final(self).conditions() == old(self).conditions(),
            final(self).project == old(self).project,
            final(self).last_pc == old(self).last_pc,
    {
        match self.project.get_register_write_hook(register.as_str()) {
            Some(RegisterWriteHook::WritePc) => {
                proof {
                    reveal_strlit("PC");
                }
                self.write_plain(owned("PC"), expr)
            },
            Some(RegisterWriteHook::WriteSpWordAligned) => {
                proof {
                    reveal_strlit("SP");
                }
                if expr.len() != 32 {
                    return Err(GAError::ProjectError(ProjectError::UnabvalableOperation));
                }
                let mask: DExpr = self.ctx.from_u64(0xffff_fffc, 32);
                let aligned: DExpr = expr.and(&mask);
                self.write_plain(owned("SP"), aligned)
            },
            None => self.write_plain(register, expr),
        }
    }

    /// The address of the next instruction: the program counter with its
    /// lowest bit cleared (the Thumb bit).
    pub open spec fn fetch_address(self) -> u64 {
        (self.pc() - self.pc() % 2) as u64
    }

    /// The hook at the program counter, if any, else the instruction there.
    pub fn get_next_instruction(&self) -> (r: Result<HookOrInstruction, GAError>)
        ensures
            last_for(self.project.pc_hook_entries(), self.fetch_address()) matches Some(h) ==> r matches Ok(
                HookOrInstruction::PcHook(g),
            ) && g == h,
            last_for(self.project.pc_hook_entries(), self.fetch_address()) is None ==> match r {
                Ok(HookOrInstruction::Instruction(_)) => true,
                Err(GAError::ProjectError(_)) => true,
                _ => false,
            },
            last_for(self.project.pc_hook_entries(), self.fetch_address()) is None && self.project.fetch_error(
                self.fetch_address(),
            ) is None ==> (r matches Ok(HookOrInstruction::Instruction(i)) && self.project.gives_instruction(
                self.fetch_address(),
                i,
            )),
            last_for(self.project.pc_hook_entries(), self.fetch_address()) is None ==> (self.project.fetch_error(
                self.fetch_address(),
            ) matches Some(e) ==> r == Err::<HookOrInstruction, GAError>(GAError::ProjectError(e))),
    {
        let pc: u64 = self.pc_register - self.pc_register % 2;
        match self.project.get_pc_hook(pc) {
            Some(hook) => Ok(HookOrInstruction::PcHook(hook)),
            None => match self.project.get_instruction(pc) {
                Ok(i) => Ok(HookOrInstruction::Instruction(i)),
                Err(e) => Err(GAError::ProjectError(e)),
            },
        }
    }

    /// Reads a word from memory; a constant address in the program's code
    /// reads the code, in the target's byte order.
    pub fn read_word_from_memory(&self, address: &DExpr) -> (r: Result<DExpr, GAError>)
        requires
            self.wf(),
            address.wf(),
            address.width() == self.project.word_bits(),
        ensures
            r matches Ok(e) ==> e.wf() && e.width() == self.project.word_bits(),
            in_code(*self.project, *address) && self.project.readable(
                address.const_value().unwrap(),
                self.project.word_bits() / 8,
            ) ==> r == Ok::<DExpr, GAError>(const_of(
                crate::symex::bytes::bytes_value(
                    self.project.code_bytes(address.const_value().unwrap(), self.project.word_bits() / 8),
                    self.project.endian() == crate::symex::types::Endianness::Big,
                ),
                self.project.word_bits() as u32,
            )),
            in_code(*self.project, *address) && !self.project.readable(
                address.const_value().unwrap(),
                self.project.word_bits() / 8,
            ) ==> r == Err::<DExpr, GAError>(GAError::ProjectError(
                ProjectError::ProgramMemmoryError(crate::memory::MemoryError::OutOfBounds),
            )),
            !in_code(*self.project, *address) ==> (r matches Ok(e) && forall|env: Env| #[trigger] e.eval(env)
                == crate::memory::array_memory::load(
                self.memory.bytes(env),
                address.eval(env),
                self.project.word_bits() / 8,
                self.memory.big_endian(),
                self.memory.ptr_bits(),
                self.project.word_bits() / 8,
            )),
    {
        let word: u32 = self.project.get_word_size();
        match address.get_constant() {
            Some(a) => {
                if self.project.address_in_range(a) {
                    let w: DataWord = match self.project.get_word(a) {
                        Ok(w) => w,
                        Err(e) => return Err(GAError::ProjectError(e)),
                    };
                    let v: u64 = w.to_u64();
                    proof {
                        lemma_p_facts(word as nat);
                        crate::symex::bytes::lemma_bytes_value_bound(
                            self.project.code_bytes(a, self.project.word_bits() / 8),
                            self.project.endian() == crate::symex::types::Endianness::Big,
                        );
                    }
                    let e: DExpr = self.ctx.from_u64(v, word);
                    Ok(e)
                } else {
                    self.read_data_word(address)
                }
            },
            None => self.read_data_word(address),
        }
    }

    /// Reads a word from the data memory.
    fn read_data_word(&self, address: &DExpr) -> (r: Result<DExpr, GAError>)
        requires
            self.wf(),
            address.wf(),
            address.width() == self.project.word_bits(),
        ensures
            r matches Ok(e) && e.wf() && e.width() == self.project.word_bits() && forall|env: Env| #[trigger] e.eval(env)
                == crate::memory::array_memory::load(
                self.memory.bytes(env),
                address.eval(env),
                self.project.word_bits() / 8,
                self.memory.big_endian(),
                self.memory.ptr_bits(),
                self.project.word_bits() / 8,
            ),
    {
        let word: u32 = self.project.get_word_size();
        match self.memory.read(address, word) {
            Ok(e) => Ok(e),
            Err(e) => Err(GAError::MemoryError(e)),
        }
    }

    /// Writes a word to memory; writing to the program's code is refused.
    pub fn write_word_to_memory(&mut self, address: &DExpr, value: DExpr) -> (r: Result<(), GAError>)
        requires
            old(self).wf(),
            address.wf(),
            address.width() == old(self).project.word_bits(),
            value.wf(),
            value.width() >= 8 ==> value.width() % 8 == 0,
        ensures
            final(self).wf(),
            in_code(*old(self).project, *address)
                ==> r == Err::<(), GAError>(GAError::WritingToStaticMemoryProhibited) && final(self).memory == old(self).memory,
            !in_code(*old(self).project, *address)
                ==> r is Ok && forall|env: Env, x: nat| #[trigger] final(self).memory.byte_at(env, x)
                == crate::memory::array_memory::store(
                old(self).memory.bytes(env),
                address.eval(env),
                value.eval(env),
                crate::memory::array_memory::stored_bytes(value.width()),
                old(self).memory.big_endian(),
                old(self).memory.ptr_bits(),
                crate::memory::array_memory::stored_bytes(value.width()),
            )(x),
            final(self).registers == old(self).registers,
            final(self).flag_map() == old(self).flag_map(),
            final(self).constraints == old(self).constraints,
            final(self).pc() == old(self).pc(),
            final(self).project == old(self).project,
    {
        match address.get_constant() {
            Some(a) => {
                if self.project.address_in_range(a) {
                    return Err(GAError::WritingToStaticMemoryProhibited);
                }
            },
            None => {},
        }
        match self.memory.write(address, value) {
            Ok(()) => Ok(()),
            Err(e) => Err(GAError::MemoryError(e)),
        }
    }
}


impl Clone for Variable {
    fn clone(&self) -> (r: Variable) {
        Variable {
            name: match &self.name {
                Some(n) => Some(n.clone()),
                None => None,
            },
            value: self.value.clone(),
            bits: self.bits,
        }
    }
}

impl Clone for ContinueInsideInstruction {
    fn clone(&self) -> (r: ContinueInsideInstruction)
        ensures
            is_instruction_copy(r.instruction, self.instruction),
            r.index == self.index,
            r.local.entries() == self.local.entries(),
            self.local.wf() ==> r.local.wf(),
            forall|k: Seq<char>| #[trigger] r.local.contains(k) == self.local.contains(k),
            forall|k: Seq<char>| #[trigger] r.local.lookup(k) == self.local.lookup(k),
    {
        ContinueInsideInstruction {
            instruction: self.instruction.copy(),
            index: self.index,
            local: self.local.clone(),
        }
    }
}

/// A copy of an optional instruction.
fn copy_option(i: &Option<Instruction>) -> (r: Option<Instruction>)
    ensures
        r is Some <==> i is Some,
        r is Some ==> is_instruction_copy(r.unwrap(), i.unwrap()),
{
    match i {
        Some(i) => Some(i.copy()),
        None => None,
    }
}

impl<'p> Clone for GAState<'p> {
    /// A copy of the state, for a forked path.
    fn clone(&self) -> (r: GAState<'p>)
        ensures
            r.project == self.project,
            r.ctx == self.ctx,
            r.registers.entries() == self.registers.entries(),
            r.flags.entries() == self.flags.entries(),
            forall|k: Seq<char>| #[trigger] r.registers.contains(k) == self.registers.contains(k),
            forall|k: Seq<char>| #[trigger] r.registers.lookup(k) == self.registers.lookup(k),
            forall|k: Seq<char>| #[trigger] r.flags.contains(k) == self.flags.contains(k),
            forall|k: Seq<char>| #[trigger] r.flags.lookup(k) == self.flags.lookup(k),
            self.wf() ==> r.wf(),
            r.memory.ptr_bits() == self.memory.ptr_bits(),
            r.memory.big_endian() == self.memory.big_endian(),
            forall|env: Env, a: nat| #[trigger] r.memory.byte_at(env, a) == self.memory.byte_at(env, a),
            r.constraints.assertions() == self.constraints.assertions(),
            r.constraints.scopes() == self.constraints.scopes(),
            r.pc() == self.pc(),
            r.count() == self.count(),
            r.jumped() == self.jumped(),
            r.conditions() == self.conditions(),
            r.last_pc == self.last_pc,
            r.count_cycles == self.count_cycles,
            r.cycle_count == self.cycle_count,
    {
        let mut marked: Vec<Variable> = Vec::new();
        let mut i: usize = 0;
        while i < self.marked_symbolic.len()
            decreases self.marked_symbolic.len() - i,
        {
            marked.push(self.marked_symbolic[i].clone());
            i = i + 1;
        }
        let mut laps: Vec<(usize, String)> = Vec::new();
        let mut i: usize = 0;
        while i < self.cycle_laps.len()
            decreases self.cycle_laps.len() - i,
        {
            laps.push((self.cycle_laps[i].0, self.cycle_laps[i].1.clone()));
            i = i + 1;
        }
        let r = GAState {
            project: self.project,
            ctx: self.ctx,
            constraints: self.constraints.clone(),
            marked_symbolic: marked,
            memory: self.memory.clone(),
            count_cycles: self.count_cycles,
            cycle_count: self.cycle_count,
            cycle_laps: laps,
            last_instruction: copy_option(&self.last_instruction),
            last_pc: self.last_pc,
            registers: self.registers.clone(),
            continue_in_instruction: match &self.continue_in_instruction {
                Some(c) => Some(c.clone()),
                None => None,
            },
            current_instruction: copy_option(&self.current_instruction),
            pc_register: self.pc_register,
            flags: self.flags.clone(),
            instruction_counter: self.instruction_counter,
            has_jumped: self.has_jumped,
            instruction_conditions: crate::general_assembly::operation::copy_conditions(&self.instruction_conditions),
        };
        r
    }
}

/// Reading back a word written outside the code: when
/// `GAState::write_word_to_memory` stored a word of the project's word size
/// at an address that is not a constant in the code (so that `after`'s
/// memory holds the bytes of the value there, as its `ensures` states), the
/// word that `GAState::read_word_from_memory` loads from that address of
/// `after` is the value, in every assignment. (Words of at least one byte
/// and addresses of at least three bits.)
pub proof fn law_write_then_read_word(before: GAState, after: GAState, address: DExpr, value: DExpr, env: Env)
    requires
        before.wf(),
        after.wf(),
        after.project == before.project,
        after.memory.big_endian() == before.memory.big_endian(),
        3 <= before.project.word_bits(),
        8 <= value.width() <= 64,
        value.width() % 8 == 0,
        value.width() == before.project.word_bits(),
        value.wf(),
        !in_code(*before.project, address),
        forall|x: nat| #[trigger] after.memory.byte_at(env, x) == crate::memory::array_memory::store(
            before.memory.bytes(env),
            address.eval(env),
            value.eval(env),
            crate::memory::array_memory::stored_bytes(value.width()),
            before.memory.big_endian(),
            before.memory.ptr_bits(),
            crate::memory::array_memory::stored_bytes(value.width()),
        )(x),
    ensures
        crate::memory::array_memory::load(
            after.memory.bytes(env),
            address.eval(env),
            after.project.word_bits() / 8,
            after.memory.big_endian(),
            after.memory.ptr_bits(),
            after.project.word_bits() / 8,
        ) == value.eval(env),
{
    let n: nat = value.width() / 8;
    assert(crate::memory::array_memory::stored_bytes(value.width()) == n);
    assert(8 * n == value.width());
    lemma_eval_range(value, env);
    crate::memory::array_memory::law_array_memory_read_after_write(
        before.memory,
        after.memory,
        env,
        address.eval(env),
        value.eval(env),
        n,
    );
}

/// The value, 0 or 1, of the flag `f` under `env`.
pub open spec fn fv(s: GAState, f: Seq<char>, env: Env) -> nat {
    s.flag_map().lookup(f).eval(env)
}

/// The condition codes mean what the architecture documents, for every
/// value of the one bit flags: `EQ` is Z = 1, `CS` is C = 1, `MI` is N = 1,
/// `VS` is V = 1, `HI` (unsigned higher) is C = 1 and Z = 0, `LS` (unsigned
/// lower or same) is C = 0 or Z = 1, `GE` is N = V, `GT` is Z = 0 and
/// N = V, each with its complement, and `AL` always holds. (`get_expr`
/// evaluates to 1 exactly when the condition holds.)
pub proof fn law_condition_codes(s: GAState, env: Env)
    requires
        s.flags_ok(),
    ensures
        s.condition_value(Condition::EQ, env) == (fv(s, "Z"@, env) == 1),
        s.condition_value(Condition::NE, env) == (fv(s, "Z"@, env) == 0),
        s.condition_value(Condition::CS, env) == (fv(s, "C"@, env) == 1),
        s.condition_value(Condition::CC, env) == (fv(s, "C"@, env) == 0),
        s.condition_value(Condition::MI, env) == (fv(s, "N"@, env) == 1),
        s.condition_value(Condition::PL, env) == (fv(s, "N"@, env) == 0),
        s.condition_value(Condition::VS, env) == (fv(s, "V"@, env) == 1),
        s.condition_value(Condition::VC, env) == (fv(s, "V"@, env) == 0),
        s.condition_value(Condition::HI, env) == (fv(s, "C"@, env) == 1 && fv(s, "Z"@, env) == 0),
        s.condition_value(Condition::LS, env) == (fv(s, "C"@, env) == 0 || fv(s, "Z"@, env) == 1),
        s.condition_value(Condition::GE, env) == (fv(s, "N"@, env) == fv(s, "V"@, env)),
        s.condition_value(Condition::LT, env) == (fv(s, "N"@, env) != fv(s, "V"@, env)),
        s.condition_value(Condition::GT, env) == (fv(s, "Z"@, env) == 0 && fv(s, "N"@, env) == fv(s, "V"@, env)),
        s.condition_value(Condition::LE, env) == (fv(s, "Z"@, env) == 1 || fv(s, "N"@, env) != fv(s, "V"@, env)),
        s.condition_value(Condition::AL, env),
{
    lemma_eval_range(s.flag_map().lookup("N"@), env);
    lemma_eval_range(s.flag_map().lookup("Z"@), env);
    lemma_eval_range(s.flag_map().lookup("C"@), env);
    lemma_eval_range(s.flag_map().lookup("V"@), env);
    lemma2_to64();
    assert(p(1) == 2);
}

} // verus!
