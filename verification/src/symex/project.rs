//! The program under analysis: its code, symbols, hooks and machine traits.
use vstd::prelude::*;
use crate::arch::arm::isa::ArmIsa;
use crate::arch::arm::v6::instruction::V6Instruction;
use crate::arch::arm::v6::translate::{translate_v6, translation_of, v6_size, v6_supported};
use crate::arch::arm::v6::timing::cycles_m0plus;
use crate::arch::arm::v7::decoder::{try_convert, translatable};
use crate::arch::arm::v7::operation::V7Operation;
use crate::general_assembly::operand::{DataHalfWord, DataWord, RawDataWord};
use crate::memory::MemoryError;
use crate::symex::bytes::{bytes_value, read_value, lemma_bytes_value_bound};
use crate::symex::instruction::{CycleCount, Instruction};
use crate::symex::types::{Endianness, WordSize};
use crate::smt::bits::p;

verus! {

/// Errors about the program under analysis.
#[derive(Clone, Debug, PartialEq, Eq)]
pub enum ProjectError {
    /// The ELF file could not be read.
    UnableToParseElf(String),
    /// Reading the program's memory failed.
    ProgramMemmoryError(MemoryError),
    /// The operation is not available.
    UnabvalableOperation,
}

/// Built in routines that replace a function of the program.
#[derive(Debug, Clone, Copy, PartialEq, Eq, Structural)]
pub enum IntrinsicHook {
    /// Makes the `R1` bytes at the address in `R0` symbolic, then returns.
    SymbolicSized,
}

/// What happens when execution reaches a hooked address.
#[derive(Debug, Clone, Copy)]
pub enum PCHook {
    /// Return to the caller at once.
    Continue,
    /// The path ends successfully.
    EndSuccess,
    /// The path ends in a failure with this reason.
    EndFaliure(&'static str),
    /// Run a built in routine in place of the function.
    Intrinsic(IntrinsicHook),
    /// The path is dropped.
    Suppress,
}

/// What a read of a hooked register returns.
#[derive(Debug, Clone, Copy, PartialEq, Eq, Structural)]
pub enum RegisterReadHook {
    /// `PC + 1`.
    PcPlusOne,
    /// The address of the current instruction plus four.
    LastPcPlusFour,
    /// `SP` with its two low bits cleared.
    SpWordAligned,
}

/// What a write to a hooked register does.
#[derive(Debug, Clone, Copy, PartialEq, Eq, Structural)]
pub enum RegisterWriteHook {
    /// Writes `PC`.
    WritePc,
    /// Writes `SP` with the two low bits of the value cleared.
    WriteSpWordAligned,
}

/// The addresses a memory hook covers.
#[derive(Debug, Clone, Copy, PartialEq, Eq, Structural)]
pub enum MemoryHookAddress {
    /// One address.
    Single(u64),
    /// The addresses from the first (included) to the second (excluded).
    Range(u64, u64),
}

/// What a read of a hooked address returns.
#[derive(Debug, Clone, Copy, PartialEq, Eq, Structural)]
pub enum MemoryReadHook {
    /// A 32 bit word of all ones.
    AllOnesWord,
}

/// What a write to a hooked address does.
#[derive(Debug, Clone, Copy, PartialEq, Eq, Structural)]
pub enum MemoryWriteHook {
    /// The write is dropped.
    Discard,
}

/// The value of the last entry for `key`, if any.
pub open spec fn last_for<K, V>(s: Seq<(K, V)>, key: K) -> Option<V>
    decreases s.len(),
{
    if s.len() == 0 {
        None
    } else if s.last().0 == key {
        Some(s.last().1)
    } else {
        last_for(s.drop_last(), key)
    }
}

/// The last entry for `key` is the one at `i` when no later entry has the key.
proof fn lemma_last_for_at<K, V>(s: Seq<(K, V)>, key: K, i: int)
    requires
        0 <= i < s.len(),
        s[i].0 == key,
        forall|j: int| i < j < s.len() ==> (#[trigger] s[j]).0 != key,
    ensures
        last_for(s, key) == Some(s[i].1),
    decreases s.len(),
{
    if s.last().0 != key {
        lemma_last_for_at(s.drop_last(), key, i);
    }
}

/// No entry is found for a key that no entry has.
proof fn lemma_last_for_none<K, V>(s: Seq<(K, V)>, key: K)
    requires
        forall|j: int| 0 <= j < s.len() ==> (#[trigger] s[j]).0 != key,
    ensures
        last_for(s, key) is None,
    decreases s.len(),
{
    if s.len() > 0 {
        assert(s[s.len() - 1].0 != key);
        lemma_last_for_none(s.drop_last(), key);
    }
}

/// The value of the last entry whose name is `key`, if any.
pub open spec fn last_named<V>(s: Seq<(String, V)>, key: Seq<char>) -> Option<V>
    decreases s.len(),
{
    if s.len() == 0 {
        None
    } else if s.last().0@ == key {
        Some(s.last().1)
    } else {
        last_named(s.drop_last(), key)
    }
}

/// The value of the first range entry that holds `a`, if any.
pub open spec fn first_range<V>(s: Seq<((u64, u64), V)>, a: u64) -> Option<V>
    decreases s.len(),
{
    if s.len() == 0 {
        None
    } else if s[0].0.0 <= a && a < s[0].0.1 {
        Some(s[0].1)
    } else {
        first_range(s.subrange(1, s.len() as int), a)
    }
}

/// The last entry for `key`.
pub fn find_last<V: Copy>(v: &Vec<(u64, V)>, key: u64) -> (r: Option<V>)
    ensures
        r == last_for(v@, key),
{
    let mut i: usize = v.len();
    assert(v@.subrange(0, v@.len() as int) =~= v@);
    while i > 0
        invariant
            i <= v@.len(),
            last_for(v@, key) == last_for(v@.subrange(0, i as int), key),
        decreases i,
    {
        let ghost t = v@.subrange(0, i as int);
        assert(t.drop_last() =~= v@.subrange(0, i - 1));
        if v[i - 1].0 == key {
            return Some(v[i - 1].1);
        }
        i = i - 1;
    }
    None
}

/// The last entry named `key`.
pub fn find_last_named<V: Copy>(v: &Vec<(String, V)>, key: &str) -> (r: Option<V>)
    ensures
        r == last_named(v@, key@),
{
    let k: String = key.to_owned();
    let mut i: usize = v.len();
    assert(v@.subrange(0, v@.len() as int) =~= v@);
    while i > 0
        invariant
            i <= v@.len(),
            k@ == key@,
            last_named(v@, key@) == last_named(v@.subrange(0, i as int), key@),
        decreases i,
    {
        let ghost t = v@.subrange(0, i as int);
        assert(t.drop_last() =~= v@.subrange(0, i - 1));
        if v[i - 1].0 == k {
            return Some(v[i - 1].1);
        }
        i = i - 1;
    }
    None
}

/// The first range entry that holds `a`.
pub fn find_range<V: Copy>(v: &Vec<((u64, u64), V)>, a: u64) -> (r: Option<V>)
    ensures
        r == first_range(v@, a),
{
    let mut i: usize = 0;
    assert(v@.subrange(0, v@.len() as int) =~= v@);
    while i < v.len()
        invariant
            i <= v@.len(),
            first_range(v@, a) == first_range(v@.subrange(i as int, v@.len() as int), a),
        decreases v.len() - i,
    {
        let ghost t = v@.subrange(i as int, v@.len() as int);
        assert(t.subrange(1, t.len() as int) =~= v@.subrange(i + 1, v@.len() as int));
        if v[i].0.0 <= a && a < v[i].0.1 {
            return Some(v[i].1);
        }
        i = i + 1;
    }
    None
}

/// The program under analysis.
#[derive(Debug)]
pub struct Project {
    program_memory: Vec<u8>,
    start_addr: u64,
    end_addr: u64,
    word_size: WordSize,
    endianness: Endianness,
    architecture: ArmIsa,
    symtab: Vec<(String, u64)>,
    pc_hooks: Vec<(u64, PCHook)>,
    reg_read_hooks: Vec<(String, RegisterReadHook)>,
    reg_write_hooks: Vec<(String, RegisterWriteHook)>,
    single_memory_read_hooks: Vec<(u64, MemoryReadHook)>,
    range_memory_read_hooks: Vec<((u64, u64), MemoryReadHook)>,
    single_memory_write_hooks: Vec<(u64, MemoryWriteHook)>,
    range_memory_write_hooks: Vec<((u64, u64), MemoryWriteHook)>,
    decoded: Vec<(u64, V6Instruction)>,
    decoded_v7: Vec<(u64, (usize, V7Operation))>,
}

/// Splits memory hooks into those of single addresses and those of ranges,
/// in order.
pub fn construct_memory_read_hooks(hooks: Vec<(MemoryHookAddress, MemoryReadHook)>) -> (r: (
    Vec<(u64, MemoryReadHook)>,
    Vec<((u64, u64), MemoryReadHook)>,
))
    ensures
        r.0@ == single_hooks(hooks@),
        r.1@ == range_hooks(hooks@),
{
    let mut single: Vec<(u64, MemoryReadHook)> = Vec::new();
    let mut range: Vec<((u64, u64), MemoryReadHook)> = Vec::new();
    let mut i: usize = 0;
    while i < hooks.len()
        invariant
            i <= hooks@.len(),
            single@ == single_hooks(hooks@.subrange(0, i as int)),
            range@ == range_hooks(hooks@.subrange(0, i as int)),
        decreases hooks.len() - i,
    {
        let ghost t = hooks@.subrange(0, i as int + 1);
        assert(t.drop_last() =~= hooks@.subrange(0, i as int));
        match hooks[i].0 {
            MemoryHookAddress::Single(a) => single.push((a, hooks[i].1)),
            MemoryHookAddress::Range(s, e) => range.push(((s, e), hooks[i].1)),
        }
        i = i + 1;
    }
    assert(hooks@.subrange(0, hooks@.len() as int) =~= hooks@);
    (single, range)
}

/// Splits memory write hooks into those of single addresses and those of
/// ranges, in order.
pub fn construct_memory_write(hooks: Vec<(MemoryHookAddress, MemoryWriteHook)>) -> (r: (
    Vec<(u64, MemoryWriteHook)>,
    Vec<((u64, u64), MemoryWriteHook)>,
))
    ensures
        r.0@ == single_hooks(hooks@),
        r.1@ == range_hooks(hooks@),
{
    let mut single: Vec<(u64, MemoryWriteHook)> = Vec::new();
    let mut range: Vec<((u64, u64), MemoryWriteHook)> = Vec::new();
    let mut i: usize = 0;
    while i < hooks.len()
        invariant
            i <= hooks@.len(),
            single@ == single_hooks(hooks@.subrange(0, i as int)),
            range@ == range_hooks(hooks@.subrange(0, i as int)),
        decreases hooks.len() - i,
    {
        let ghost t = hooks@.subrange(0, i as int + 1);
        assert(t.drop_last() =~= hooks@.subrange(0, i as int));
        match hooks[i].0 {
            MemoryHookAddress::Single(a) => single.push((a, hooks[i].1)),
            MemoryHookAddress::Range(s, e) => range.push(((s, e), hooks[i].1)),
        }
        i = i + 1;
    }
    assert(hooks@.subrange(0, hooks@.len() as int) =~= hooks@);
    (single, range)
}

/// The hooks of single addresses, in order.
pub open spec fn single_hooks<V>(s: Seq<(MemoryHookAddress, V)>) -> Seq<(u64, V)>
    decreases s.len(),
{
    if s.len() == 0 {
        Seq::empty()
    } else {
        match s.last().0 {
            MemoryHookAddress::Single(a) => single_hooks(s.drop_last()).push((a, s.last().1)),
            MemoryHookAddress::Range(_, _) => single_hooks(s.drop_last()),
        }
    }
}

/// The hooks of address ranges, in order.
pub open spec fn range_hooks<V>(s: Seq<(MemoryHookAddress, V)>) -> Seq<((u64, u64), V)>
    decreases s.len(),
{
    if s.len() == 0 {
        Seq::empty()
    } else {
        match s.last().0 {
            MemoryHookAddress::Single(_) => range_hooks(s.drop_last()),
            MemoryHookAddress::Range(b, e) => range_hooks(s.drop_last()).push(((b, e), s.last().1)),
        }
    }
}

impl Project {
    /// The program's code bytes.
    pub closed spec fn code(self) -> Seq<u8> {
        self.program_memory@
    }

    /// The first address of the code.
    pub closed spec fn start(self) -> u64 {
        self.start_addr
    }

    /// The end address of the code.
    pub closed spec fn end(self) -> u64 {
        self.end_addr
    }

    /// The word size of the target.
    pub closed spec fn word(self) -> WordSize {
        self.word_size
    }

    /// The byte order of the target.
    pub closed spec fn endian(self) -> Endianness {
        self.endianness
    }

    /// The instruction set of the target.
    pub closed spec fn isa(self) -> ArmIsa {
        self.architecture
    }

    /// The symbol table, in the order symbols were added.
    pub closed spec fn symbols(self) -> Seq<(String, u64)> {
        self.symtab@
    }

    /// The program counter hooks, in the order they were added.
    pub closed spec fn pc_hook_entries(self) -> Seq<(u64, PCHook)> {
        self.pc_hooks@
    }

    /// The register read hooks.
    pub closed spec fn register_read_hooks(self) -> Seq<(String, RegisterReadHook)> {
        self.reg_read_hooks@
    }

    /// The register write hooks.
    pub closed spec fn register_write_hooks(self) -> Seq<(String, RegisterWriteHook)> {
        self.reg_write_hooks@
    }

    /// The memory read hook of an address: a hook of that single address,
    /// else the first range hook that holds it.
    pub closed spec fn memory_read_hook(self, a: u64) -> Option<MemoryReadHook> {
        match last_for(self.single_memory_read_hooks@, a) {
            Some(h) => Some(h),
            None => first_range(self.range_memory_read_hooks@, a),
        }
    }

    /// The memory write hook of an address: a hook of that single address,
    /// else the first range hook that holds it.
    pub closed spec fn memory_write_hook(self, a: u64) -> Option<MemoryWriteHook> {
        match last_for(self.single_memory_write_hooks@, a) {
            Some(h) => Some(h),
            None => first_range(self.range_memory_write_hooks@, a),
        }
    }

    /// The decoded instructions by address.
    pub closed spec fn decoded(self) -> Seq<(u64, V6Instruction)> {
        self.decoded@
    }

    /// The decoded ARMv7-M instructions by address, with their sizes in
    /// bits.
    pub closed spec fn decoded_v7(self) -> Seq<(u64, (usize, V7Operation))> {
        self.decoded_v7@
    }

    /// The number of bits in a word.
    pub open spec fn word_bits(self) -> nat {
        self.word().bits()
    }

    /// A project built from its parts.
    pub fn manual_project(
        program_memory: Vec<u8>,
        start_addr: u64,
        end_addr: u64,
        word_size: WordSize,
        endianness: Endianness,
        architecture: ArmIsa,
        symtab: Vec<(String, u64)>,
        pc_hooks: Vec<(u64, PCHook)>,
        reg_read_hooks: Vec<(String, RegisterReadHook)>,
        reg_write_hooks: Vec<(String, RegisterWriteHook)>,
        single_memory_read_hooks: Vec<(u64, MemoryReadHook)>,
        range_memory_read_hooks: Vec<((u64, u64), MemoryReadHook)>,
        single_memory_write_hooks: Vec<(u64, MemoryWriteHook)>,
        range_memory_write_hooks: Vec<((u64, u64), MemoryWriteHook)>,
    ) -> (r: Project)
        ensures
            r.code() == program_memory@,
            r.start() == start_addr,
            r.end() == end_addr,
            r.word() == word_size,
            r.endian() == endianness,
            r.isa() == architecture,
            r.symbols() == symtab@,
            r.pc_hook_entries() == pc_hooks@,
            r.register_read_hooks() == reg_read_hooks@,
            r.register_write_hooks() == reg_write_hooks@,
            forall|a: u64| #[trigger] r.memory_read_hook(a) == match last_for(single_memory_read_hooks@, a) {
                Some(h) => Some(h),
                None => first_range(range_memory_read_hooks@, a),
            },
            forall|a: u64| #[trigger] r.memory_write_hook(a) == match last_for(single_memory_write_hooks@, a) {
                Some(h) => Some(h),
                None => first_range(range_memory_write_hooks@, a),
            },
            r.decoded().len() == 0,
            r.decoded_v7().len() == 0,
    {
        Project {
            program_memory,
            start_addr,
            end_addr,
            word_size,
            endianness,
            architecture,
            symtab,
            pc_hooks,
            reg_read_hooks,
            reg_write_hooks,
            single_memory_read_hooks,
            range_memory_read_hooks,
            single_memory_write_hooks,
            range_memory_write_hooks,
            decoded: Vec::new(),
            decoded_v7: Vec::new(),
        }
    }

    /// Records the decoded instruction at `address`; a later record for the
    /// same address replaces an earlier one.
    pub fn add_instruction(&mut self, address: u64, instruction: V6Instruction)
        ensures
            final(self).decoded() == old(self).decoded().push((address, instruction)),
            final(self).decoded_v7() == old(self).decoded_v7(),
            final(self).code() == old(self).code(),
            final(self).start() == old(self).start(),
            final(self).end() == old(self).end(),
            final(self).word() == old(self).word(),
            final(self).endian() == old(self).endian(),
            final(self).isa() == old(self).isa(),
            final(self).symbols() == old(self).symbols(),
            final(self).pc_hook_entries() == old(self).pc_hook_entries(),
            final(self).register_read_hooks() == old(self).register_read_hooks(),
            final(self).register_write_hooks() == old(self).register_write_hooks(),
            forall|a: u64| #[trigger] final(self).memory_read_hook(a) == old(self).memory_read_hook(a),
            forall|a: u64| #[trigger] final(self).memory_write_hook(a) == old(self).memory_write_hook(a),
    {
        self.decoded.push((address, instruction));
    }

    /// Records the ARMv7-M instruction of `size` bits decoded at `address`;
    /// a later record for the same address replaces an earlier one.
    pub fn add_v7_instruction(&mut self, address: u64, size: usize, operation: V7Operation)
        ensures
            final(self).decoded_v7() == old(self).decoded_v7().push((address, (size, operation))),
            final(self).decoded() == old(self).decoded(),
            final(self).code() == old(self).code(),
            final(self).start() == old(self).start(),
            final(self).end() == old(self).end(),
            final(self).word() == old(self).word(),
            final(self).endian() == old(self).endian(),
            final(self).isa() == old(self).isa(),
            final(self).symbols() == old(self).symbols(),
            final(self).pc_hook_entries() == old(self).pc_hook_entries(),
            final(self).register_read_hooks() == old(self).register_read_hooks(),
            final(self).register_write_hooks() == old(self).register_write_hooks(),
            forall|a: u64| #[trigger] final(self).memory_read_hook(a) == old(self).memory_read_hook(a),
            forall|a: u64| #[trigger] final(self).memory_write_hook(a) == old(self).memory_write_hook(a),
    {
        self.decoded_v7.push((address, (size, operation)));
    }

    /// The hook at a program counter value, if any.
    pub fn get_pc_hook(&self, pc: u64) -> (r: Option<PCHook>)
        ensures
            r == last_for(self.pc_hook_entries(), pc),
    {
        find_last(&self.pc_hooks, pc)
    }

    /// Adds a hook at a program counter value; it replaces an earlier one.
    pub fn add_pc_hook(&mut self, pc: u64, hook: PCHook)
        ensures
            final(self).pc_hook_entries() == old(self).pc_hook_entries().push((pc, hook)),
            last_for(final(self).pc_hook_entries(), pc) == Some(hook),
            final(self).code() == old(self).code(),
            final(self).start() == old(self).start(),
            final(self).end() == old(self).end(),
            final(self).word() == old(self).word(),
            final(self).endian() == old(self).endian(),
            final(self).isa() == old(self).isa(),
            final(self).symbols() == old(self).symbols(),
            final(self).register_read_hooks() == old(self).register_read_hooks(),
            final(self).register_write_hooks() == old(self).register_write_hooks(),
            final(self).decoded() == old(self).decoded(),
            final(self).decoded_v7() == old(self).decoded_v7(),
            forall|a: u64| #[trigger] final(self).memory_read_hook(a) == old(self).memory_read_hook(a),
            forall|a: u64| #[trigger] final(self).memory_write_hook(a) == old(self).memory_write_hook(a),
    {
        self.pc_hooks.push((pc, hook));
        proof {
            assert(self.pc_hooks@.drop_last() =~= old(self).pc_hooks@);
        }
    }

    /// The read hook of a register, if any.
    pub fn get_register_read_hook(&self, register: &str) -> (r: Option<RegisterReadHook>)
        ensures
            r == last_named(self.register_read_hooks(), register@),
    {
        find_last_named(&self.reg_read_hooks, register)
    }

    /// The write hook of a register, if any.
    pub fn get_register_write_hook(&self, register: &str) -> (r: Option<RegisterWriteHook>)
        ensures
            r == last_named(self.register_write_hooks(), register@),
    {
        find_last_named(&self.reg_write_hooks, register)
    }

    /// The write hook of an address, if any.
    pub fn get_memory_write_hook(&self, address: u64) -> (r: Option<MemoryWriteHook>)
        ensures
            r == self.memory_write_hook(address),
    {
        match find_last(&self.single_memory_write_hooks, address) {
            Some(h) => Some(h),
            None => find_range(&self.range_memory_write_hooks, address),
        }
    }

    /// The read hook of an address, if any.
    pub fn get_memory_read_hook(&self, address: u64) -> (r: Option<MemoryReadHook>)
        ensures
            r == self.memory_read_hook(address),
    {
        match find_last(&self.single_memory_read_hooks, address) {
            Some(h) => Some(h),
            None => find_range(&self.range_memory_read_hooks, address),
        }
    }

    /// Whether `address` lies in the program's code, end address included.
    pub fn address_in_range(&self, address: u64) -> (r: bool)
        ensures
            r == (self.start() <= address && address <= self.end()),
    {
        address >= self.start_addr && address <= self.end_addr
    }

    /// The number of bits in a word.
    pub fn get_word_size(&self) -> (r: u32)
        ensures
            r == self.word_bits(),
    {
        self.get_ptr_size()
    }

    /// The byte order of the target.
    pub fn get_endianness(&self) -> (r: Endianness)
        ensures
            r == self.endian(),
    {
        self.endianness
    }

    /// The number of bits in a pointer; the same as a word.
    pub fn get_ptr_size(&self) -> (r: u32)
        ensures
            r == self.word_bits(),
    {
        match self.word_size {
            WordSize::Bit64 => 64,
            WordSize::Bit32 => 32,
            WordSize::Bit16 => 16,
            WordSize::Bit8 => 8,
        }
    }

    /// The instruction set of the target.
    pub fn get_architecture(&self) -> (r: ArmIsa)
        ensures
            r == self.isa(),
    {
        self.architecture
    }

    /// The address of a symbol; a later entry of a name replaces an earlier one.
    pub fn get_symbol_address(&self, symbol: &str) -> (r: Option<u64>)
        ensures
            r == last_named(self.symbols(), symbol@),
    {
        find_last_named(&self.symtab, symbol)
    }

    /// Whether the `n` bytes from `address` lie in the code, as far as the
    /// end address and the stored bytes reach.
    pub open spec fn readable(self, address: u64, n: nat) -> bool {
        &&& self.start() <= address
        &&& address + n - 1 <= self.end()
        &&& address - self.start() + n <= self.code().len()
    }

    /// The `n` code bytes from `address`.
    pub open spec fn code_bytes(self, address: u64, n: nat) -> Seq<u8> {
        self.code().subrange(address - self.start(), address - self.start() + n)
    }

    /// Checks that `n` bytes from `address` can be read and gives the
    /// offset of `address` in the code.
    fn offset_of(&self, address: u64, n: u64) -> (r: Result<usize, ProjectError>)
        requires
            1 <= n <= 8,
        ensures
            r is Ok <==> self.readable(address, n as nat),
            r matches Ok(o) ==> o == address - self.start(),
            r matches Err(e) ==> e == ProjectError::ProgramMemmoryError(MemoryError::OutOfBounds),
    {
        if address < self.start_addr || address > u64::MAX - (n - 1) || address + (n - 1) > self.end_addr {
            return Err(ProjectError::ProgramMemmoryError(MemoryError::OutOfBounds));
        }
        let off: u64 = address - self.start_addr;
        if off > self.program_memory.len() as u64 || (self.program_memory.len() as u64) - off < n {
            return Err(ProjectError::ProgramMemmoryError(MemoryError::OutOfBounds));
        }
        Ok(off as usize)
    }

    /// The byte of code at `address`.
    pub fn get_byte(&self, address: u64) -> (r: Result<u8, ProjectError>)
        ensures
            r is Ok <==> self.readable(address, 1),
            r matches Ok(b) ==> b == self.code()[address - self.start()],
            r matches Err(e) ==> e == ProjectError::ProgramMemmoryError(MemoryError::OutOfBounds),
    {
        let off: usize = self.offset_of(address, 1)?;
        Ok(self.program_memory[off])
    }

    /// The value of `n` code bytes from `address` in the target's byte order.
    fn read_code_value(&self, address: u64, n: u64) -> (r: Result<u64, ProjectError>)
        requires
            1 <= n <= 8,
        ensures
            r is Ok <==> self.readable(address, n as nat),
            r matches Ok(v) ==> v == bytes_value(self.code_bytes(address, n as nat), self.endian() == Endianness::Big),
            r matches Err(e) ==> e == ProjectError::ProgramMemmoryError(MemoryError::OutOfBounds),
    {
        let off: usize = self.offset_of(address, n)?;
        let big: bool = match self.endianness {
            Endianness::Little => false,
            Endianness::Big => true,
        };
        Ok(read_value(self.program_memory.as_slice(), off, n as usize, big))
    }

    /// A word of `width` bits from the code at `address`.
    fn get_word_internal(&self, address: u64, width: WordSize) -> (r: Result<DataWord, ProjectError>)
        ensures
            r is Ok <==> self.readable(address, width.bits() / 8),
            r matches Ok(w) ==> w.bits() == width.bits() && w.value() == bytes_value(
                self.code_bytes(address, width.bits() / 8),
                self.endian() == Endianness::Big,
            ),
            r matches Err(e) ==> e == ProjectError::ProgramMemmoryError(MemoryError::OutOfBounds),
    {
        match width {
            WordSize::Bit64 => {
                let v: u64 = self.read_code_value(address, 8)?;
                Ok(DataWord::Word64(v))
            },
            WordSize::Bit32 => {
                let v: u64 = self.read_code_value(address, 4)?;
                proof {
                    lemma_bytes_value_bound(self.code_bytes(address, 4), self.endian() == Endianness::Big);
                    vstd::arithmetic::power2::lemma2_to64();
                }
                Ok(DataWord::Word32(v as u32))
            },
            WordSize::Bit16 => {
                let v: u64 = self.read_code_value(address, 2)?;
                proof {
                    lemma_bytes_value_bound(self.code_bytes(address, 2), self.endian() == Endianness::Big);
                    vstd::arithmetic::power2::lemma2_to64();
                }
                Ok(DataWord::Word16(v as u16))
            },
            WordSize::Bit8 => {
                let v: u64 = self.read_code_value(address, 1)?;
                proof {
                    lemma_bytes_value_bound(self.code_bytes(address, 1), self.endian() == Endianness::Big);
                    vstd::arithmetic::power2::lemma2_to64();
                }
                Ok(DataWord::Word8(v as u8))
            },
        }
    }

    /// A word of code at `address`, in the target's byte order.
    pub fn get_word(&self, address: u64) -> (r: Result<DataWord, ProjectError>)
        ensures
            r is Ok <==> self.readable(address, self.word_bits() / 8),
            r matches Ok(w) ==> w.bits() == self.word_bits() && w.value() == bytes_value(
                self.code_bytes(address, self.word_bits() / 8),
                self.endian() == Endianness::Big,
            ),
            r matches Err(e) ==> e == ProjectError::ProgramMemmoryError(MemoryError::OutOfBounds),
    {
        self.get_word_internal(address, self.word_size)
    }

    /// A half word of code at `address`; a target of 8 bit words has none.
    pub fn get_half_word(&self, address: u64) -> (r: Result<DataHalfWord, ProjectError>)
        ensures
            self.word() == WordSize::Bit8 ==> r == Err::<DataHalfWord, ProjectError>(ProjectError::UnabvalableOperation),
            self.word() != WordSize::Bit8 ==> {
                &&& r is Ok <==> self.readable(address, self.word_bits() / 16)
                &&& r matches Ok(h) ==> h.widened().bits() == self.word_bits() && h.value() == bytes_value(
                    self.code_bytes(address, self.word_bits() / 16),
                    self.endian() == Endianness::Big,
                )
                &&& r matches Err(e) ==> e == ProjectError::ProgramMemmoryError(MemoryError::OutOfBounds)
            },
    {
        match self.word_size {
            WordSize::Bit64 => match self.get_word_internal(address, WordSize::Bit32)? {
                DataWord::Word32(d) => Ok(DataHalfWord::HalfWord64(d)),
                _ => Err(ProjectError::UnabvalableOperation),
            },
            WordSize::Bit32 => match self.get_word_internal(address, WordSize::Bit16)? {
                DataWord::Word16(d) => Ok(DataHalfWord::HalfWord32(d)),
                _ => Err(ProjectError::UnabvalableOperation),
            },
            WordSize::Bit16 => match self.get_word_internal(address, WordSize::Bit8)? {
                DataWord::Word8(d) => Ok(DataHalfWord::HalfWord16(d)),
                _ => Err(ProjectError::UnabvalableOperation),
            },
            WordSize::Bit8 => Err(ProjectError::UnabvalableOperation),
        }
    }

    /// The bytes of a word of code at `address`, in memory order.
    pub fn get_raw_word(&self, address: u64) -> (r: Result<RawDataWord, ProjectError>)
        ensures
            r is Ok <==> self.readable(address, self.word_bits() / 8),
            r matches Ok(w) ==> w.bytes() == self.code_bytes(address, self.word_bits() / 8),
            r matches Err(e) ==> e == ProjectError::ProgramMemmoryError(MemoryError::OutOfBounds),
    {
        match self.word_size {
            WordSize::Bit64 => {
                let o: usize = self.offset_of(address, 8)?;
                let m = &self.program_memory;
                let len: usize = m.len();
                assert(o + 8 <= len);
                let w: [u8; 8] = [m[o], m[o + 1], m[o + 2], m[o + 3], m[o + 4], m[o + 5], m[o + 6], m[o + 7]];
                proof {
                    assert(w@ =~= self.code_bytes(address, 8));
                }
                Ok(RawDataWord::Word64(w))
            },
            WordSize::Bit32 => {
                let o: usize = self.offset_of(address, 4)?;
                let m = &self.program_memory;
                let len: usize = m.len();
                assert(o + 4 <= len);
                let w: [u8; 4] = [m[o], m[o + 1], m[o + 2], m[o + 3]];
                proof {
                    assert(w@ =~= self.code_bytes(address, 4));
                }
                Ok(RawDataWord::Word32(w))
            },
            WordSize::Bit16 => {
                let o: usize = self.offset_of(address, 2)?;
                let m = &self.program_memory;
                let len: usize = m.len();
                assert(o + 2 <= len);
                let w: [u8; 2] = [m[o], m[o + 1]];
                proof {
                    assert(w@ =~= self.code_bytes(address, 2));
                }
                Ok(RawDataWord::Word16(w))
            },
            WordSize::Bit8 => {
                let b: u8 = self.get_byte(address)?;
                let w: [u8; 1] = [b];
                proof {
                    assert(w@ =~= self.code_bytes(address, 1));
                }
                Ok(RawDataWord::Word8(w))
            },
        }
    }

    /// The index of the last decoded instruction at `address`.
    fn find_decoded(&self, address: u64) -> (r: Option<usize>)
        ensures
            r is None ==> forall|i: int| 0 <= i < self.decoded().len() ==> (#[trigger] self.decoded()[i]).0 != address,
            r matches Some(i) ==> i < self.decoded().len() && self.decoded()[i as int].0 == address
                && forall|j: int| i < j < self.decoded().len() ==> (#[trigger] self.decoded()[j]).0 != address,
    {
        let mut i: usize = self.decoded.len();
        while i > 0
            invariant
                i <= self.decoded@.len(),
                forall|j: int| i <= j < self.decoded@.len() ==> (#[trigger] self.decoded@[j]).0 != address,
            decreases i,
        {
            if self.decoded[i - 1].0 == address {
                return Some(i - 1);
            }
            i = i - 1;
        }
        None
    }

    /// The error of fetching an instruction at `address`, if fetching fails:
    /// the code there is not readable as a word, or no ARMv6-M operation with
    /// a translation was decoded there, whatever the instruction set of the
    /// project.
    pub open spec fn fetch_error(self, address: u64) -> Option<ProjectError> {
        if !self.readable(address, self.word_bits() / 8) {
            Some(ProjectError::ProgramMemmoryError(MemoryError::OutOfBounds))
        } else {
            match last_for(self.decoded(), address) {
                Some(ins) => if v6_supported(ins.operation) {
                    None
                } else {
                    Some(ProjectError::UnabvalableOperation)
                },
                None => Some(ProjectError::UnabvalableOperation),
            }
        }
    }

    /// Whether `i` is the translation of the last ARMv6-M instruction
    /// decoded at `address`, with its size and Cortex-M0+ cycle count.
    pub open spec fn gives_instruction(self, address: u64, i: Instruction) -> bool {
        match last_for(self.decoded(), address) {
            Some(ins) => i.instruction_size == v6_size(ins.operation) && i.max_cycle == cycles_m0plus(ins.operation)
                && translation_of(ins.operation, i.operations@),
            None => false,
        }
    }

    /// The instruction at `address`: the code there must be readable as a
    /// word, and the last ARMv6-M instruction decoded there is translated.
    pub fn get_instruction(&self, address: u64) -> (r: Result<Instruction, ProjectError>)
        ensures
            self.fetch_error(address) is None ==> (r matches Ok(i) && self.gives_instruction(address, i)),
            self.fetch_error(address) matches Some(e) ==> r == Err::<Instruction, ProjectError>(e),
            !self.readable(address, self.word_bits() / 8) ==> r == Err::<Instruction, ProjectError>(
                ProjectError::ProgramMemmoryError(MemoryError::OutOfBounds),
            ),
            self.readable(address, self.word_bits() / 8) ==> match last_for(self.decoded(), address) {
                Some(ins) => if v6_supported(ins.operation) {
                    r matches Ok(i) && i.instruction_size == v6_size(ins.operation) && i.max_cycle == cycles_m0plus(
                        ins.operation,
                    ) && translation_of(ins.operation, i.operations@)
                } else {
                    r == Err::<Instruction, ProjectError>(ProjectError::UnabvalableOperation)
                },
                None => r == Err::<Instruction, ProjectError>(ProjectError::UnabvalableOperation),
            },
    {
        let _raw: RawDataWord = self.get_raw_word(address)?;
        let found: Option<usize> = self.find_decoded(address);
        proof {
            match found {
                Some(i) => lemma_last_for_at(self.decoded(), address, i as int),
                None => lemma_last_for_none(self.decoded(), address),
            }
        }
        match found {
            Some(i) => match translate_v6(&self.decoded[i].1) {
                Ok(instruction) => Ok(instruction),
                Err(_) => Err(ProjectError::UnabvalableOperation),
            },
            None => Err(ProjectError::UnabvalableOperation),
        }
    }

    /// The index of the last decoded ARMv7-M instruction at `address`.
    fn find_decoded_v7(&self, address: u64) -> (r: Option<usize>)
        ensures
            r is None ==> forall|i: int| 0 <= i < self.decoded_v7().len() ==> (#[trigger] self.decoded_v7()[i]).0 != address,
            r matches Some(i) ==> i < self.decoded_v7().len() && self.decoded_v7()[i as int].0 == address
                && forall|j: int| i < j < self.decoded_v7().len() ==> (#[trigger] self.decoded_v7()[j]).0 != address,
    {
        let mut i: usize = self.decoded_v7.len();
        while i > 0
            invariant
                i <= self.decoded_v7@.len(),
                forall|j: int| i <= j < self.decoded_v7@.len() ==> (#[trigger] self.decoded_v7@[j]).0 != address,
            decreases i,
        {
            if self.decoded_v7[i - 1].0 == address {
                return Some(i - 1);
            }
            i = i - 1;
        }
        None
    }

    /// The ARMv7-M instruction at `address`, inside an IT block or not: the
    /// code there must be readable as a word, and the last instruction
    /// decoded there is translated; its timing counts one cycle.
    pub fn get_v7_instruction(&self, address: u64, in_it_block: bool) -> (r: Result<Instruction, ProjectError>)
        ensures
            !self.readable(address, self.word_bits() / 8) ==> r == Err::<Instruction, ProjectError>(
                ProjectError::ProgramMemmoryError(MemoryError::OutOfBounds),
            ),
            self.readable(address, self.word_bits() / 8) ==> match last_for(self.decoded_v7(), address) {
                Some((size, op)) => if translatable(op, in_it_block) && size <= u32::MAX {
                    r matches Ok(i) && i.instruction_size == size && i.max_cycle == CycleCount::Value(1) && crate::arch::arm::v7::decoder::translation_of(op, in_it_block, i.operations@)
                } else {
                    r == Err::<Instruction, ProjectError>(ProjectError::UnabvalableOperation)
                },
                None => r == Err::<Instruction, ProjectError>(ProjectError::UnabvalableOperation),
            },
    {
        let _raw: RawDataWord = self.get_raw_word(address)?;
        let found: Option<usize> = self.find_decoded_v7(address);
        proof {
            match found {
                Some(i) => lemma_last_for_at(self.decoded_v7(), address, i as int),
                None => lemma_last_for_none(self.decoded_v7(), address),
            }
        }
        match found {
            Some(i) => {
                let size: usize = self.decoded_v7[i].1.0;
                if size > u32::MAX as usize {
                    return Err(ProjectError::UnabvalableOperation);
                }
                match try_convert(size, &self.decoded_v7[i].1.1, in_it_block) {
                    Ok(operations) => Ok(Instruction { instruction_size: size as u32, operations, max_cycle: CycleCount::Value(1) }),
                    Err(_) => Err(ProjectError::UnabvalableOperation),
                }
            },
            None => Err(ProjectError::UnabvalableOperation),
        }
    }
}

} // verus!
