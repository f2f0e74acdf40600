//! Reading a project out of the bytes of an ELF file with the `object`
//! crate: the code section, the header, the symbol table and the ARM
//! attributes.
use vstd::prelude::*;
use object::{Object, ObjectSection, ObjectSymbol};
use crate::arch::arm::isa::{Arm, ArmIsa, isa_of_attributes};
use crate::arch::arm::v6::instruction::V6Instruction;
use crate::arch::errors::ArchError;
use crate::symex::loader::{isa_read_hooks, isa_write_hooks, run_patterns};
use crate::symex::dwarf::{debug_functions, debug_readable, elf_functions, names_of, try_elf_functions};
use crate::symex::patterns::hooks_for_all;
use crate::symex::project::{MemoryReadHook, PCHook, Project, ProjectError};
use crate::symex::types::{Endianness, WordSize};

verus! {

/// What `object::File::parse` reads from the header of `file`: `None` when
/// it refuses the bytes, else whether the file is little endian, whether it
/// is a 64 bit file and whether it is an ELF file.
pub uninterp spec fn elf_header(file: Seq<u8>) -> Option<(bool, bool, bool)>;

/// The section named `name` that `object` finds in `file`: its address, its
/// size and its bytes (`None` where they cannot be read); `None` when the
/// file does not parse or has no such section.
pub uninterp spec fn elf_section(file: Seq<u8>, name: Seq<char>) -> Option<(u64, u64, Option<Seq<u8>>)>;

/// The symbols of `file` whose names `object` can read, with their
/// addresses, in the order of the symbol table; empty when the file does
/// not parse.
pub uninterp spec fn elf_symbols(file: Seq<u8>) -> Seq<(Seq<char>, u64)>;

/// Parses `file` with `object::File::parse` and reads `is_little_endian`,
/// `is_64` and `format` of the result; the contract claims the answer is a
/// function of the bytes alone.
#[verifier::external_body]
pub(crate) fn read_header(file: &[u8]) -> (r: Option<(bool, bool, bool)>)
    ensures
        r == elf_header(file@),
{
    match object::File::parse(file) {
        Ok(obj) => Some((obj.is_little_endian(), obj.is_64(), matches!(obj.format(), object::BinaryFormat::Elf))),
        Err(_) => None,
    }
}

/// Parses `file` with `object::File::parse` and looks the section `name` up
/// with `section_by_name`, reading its `address`, `size` and `data`; the
/// contract claims the answer is a function of the bytes and the name alone.
#[verifier::external_body]
pub(crate) fn read_section(file: &[u8], name: &str) -> (r: Option<(u64, u64, Option<Vec<u8>>)>)
    ensures
        match r {
            Some((a, s, Some(d))) => elf_section(file@, name@) == Some((a, s, Some(d@))),
            Some((a, s, None)) => elf_section(file@, name@) == Some((a, s, None::<Seq<u8>>)),
            None => elf_section(file@, name@) is None,
        },
{
    let obj = match object::File::parse(file) {
        Ok(obj) => obj,
        Err(_) => return None,
    };
    let section = obj.section_by_name(name)?;
    let data: Option<Vec<u8>> = match section.data() {
        Ok(d) => Some(d.to_vec()),
        Err(_) => None,
    };
    Some((section.address(), section.size(), data))
}

/// Parses `file` with `object::File::parse` and lists its `symbols`, each
/// by `name` and `address`, leaving out those whose name cannot be read;
/// the contract claims the list is a function of the bytes alone.
#[verifier::external_body]
fn read_symbols(file: &[u8]) -> (r: Vec<(String, u64)>)
    ensures
        r@.len() == elf_symbols(file@).len(),
        forall|i: int| 0 <= i < r@.len() ==> (#[trigger] r@[i]).0@ == elf_symbols(file@)[i].0 && r@[i].1
            == elf_symbols(file@)[i].1,
{
    let mut out: Vec<(String, u64)> = Vec::new();
    if let Ok(obj) = object::File::parse(file) {
        for symbol in obj.symbols() {
            if let Ok(name) = symbol.name() {
                out.push((name.to_owned(), symbol.address()));
            }
        }
    }
    out
}

/// The instruction set of `file`: ARM ELF32 files only, told apart by their
/// ARM attributes.
pub open spec fn elf_isa(file: Seq<u8>) -> Result<ArmIsa, ArchError> {
    match elf_header(file) {
        Some((_, is_64, is_elf)) => if !is_elf || is_64 {
            Err(ArchError::IncorrectFileType)
        } else {
            match elf_section(file, ".ARM.attributes"@) {
                Some((_, _, Some(d))) => isa_of_attributes(d),
                _ => Err(ArchError::MissingSection(".ARM.attributes")),
            }
        },
        None => Err(ArchError::IncorrectFileType),
    }
}

/// Reads a project out of the bytes of the ELF file at `path`: its `.text`
/// section is the code, from its address to its address plus its size; the
/// header gives the byte order and the word size; the symbol table, the
/// instruction set told by the ARM attributes (ARMv6-M where they tell
/// none), the functions that its debug information names and the decoded
/// instructions complete it. Its hooks are those of its instruction set with
/// the default function hooks of a run, placed at those functions.
pub fn project_from_elf(path: &str, file: &[u8], decoded: Vec<(u64, V6Instruction)>) -> (r: Result<
    Project,
    ProjectError,
>)
    requires
        elf_header(file@) is Some && (elf_section(file@, ".text"@) matches Some((_, _, Some(_)))) ==> debug_readable(
            file@,
        ),
    ensures
        elf_header(file@) is None ==> (r matches Err(ProjectError::UnableToParseElf(m)) && m@ == path@),
        elf_header(file@) is Some && elf_section(file@, ".text"@) is None ==> (r matches Err(
            ProjectError::UnableToParseElf(m),
        ) && m@ == ".text section not found."@),
        elf_header(file@) is Some && (elf_section(file@, ".text"@) matches Some((_, _, None))) ==> (r matches Err(
            ProjectError::UnableToParseElf(m),
        ) && m@ == "Unable to read .text section."@),
        r is Ok <==> (elf_header(file@) is Some && (elf_section(file@, ".text"@) matches Some((_, _, Some(_))))),
        r matches Ok(p) ==> {
            let (little, is_64, _) = elf_header(file@).unwrap();
            let (start, size, data) = elf_section(file@, ".text"@).unwrap();
            &&& p.code() == data.unwrap()
            &&& p.start() == start
            &&& p.end() == (start + size) % 0x1_0000_0000_0000_0000
            &&& p.endian() == if little { Endianness::Little } else { Endianness::Big }
            &&& p.word() == if is_64 { WordSize::Bit64 } else { WordSize::Bit32 }
            &&& p.isa() == match elf_isa(file@) {
                Ok(isa) => isa,
                Err(_) => ArmIsa::ArmV6M,
            }
            &&& p.symbols().len() == elf_symbols(file@).len()
            &&& forall|i: int| 0 <= i < p.symbols().len() ==> (#[trigger] p.symbols()[i]).0@ == elf_symbols(
                file@,
            )[i].0 && p.symbols()[i].1 == elf_symbols(file@)[i].1
            &&& p.decoded() == decoded@
            &&& exists|patterns: Seq<(String, PCHook)>, functions: Seq<(String, u64)>|
                #![trigger run_patterns(patterns), names_of(functions)]
                run_patterns(patterns) && names_of(functions) == debug_functions(file@) && p.pc_hook_entries()
                    == hooks_for_all(patterns, functions)
            &&& isa_read_hooks(p.isa(), p.register_read_hooks())
            &&& isa_write_hooks(p.isa(), p.register_write_hooks())
            &&& forall|a: u64| #[trigger] p.memory_read_hook(a) == if a == 0x4000c008 {
                Some(MemoryReadHook::AllOnesWord)
            } else {
                None
            }
            &&& forall|a: u64| #[trigger] p.memory_write_hook(a) is None
        },
{
    proof {
        reveal_strlit(".text");
        reveal_strlit(".ARM.attributes");
        reveal_strlit(".text section not found.");
        reveal_strlit("Unable to read .text section.");
    }
    let (little, is_64, is_elf) = match read_header(file) {
        Some(h) => h,
        None => return Err(ProjectError::UnableToParseElf(path.to_owned())),
    };
    let (start, size, data) = match read_section(file, ".text") {
        Some(s) => s,
        None => return Err(ProjectError::UnableToParseElf(".text section not found.".to_owned())),
    };
    let text: Vec<u8> = match data {
        Some(d) => d,
        None => return Err(ProjectError::UnableToParseElf("Unable to read .text section.".to_owned())),
    };
    let end: u64 = start.wrapping_add(size);
    let endianness: Endianness = if little { Endianness::Little } else { Endianness::Big };
    let word_size: WordSize = if is_64 { WordSize::Bit64 } else { WordSize::Bit32 };
    let attributes: Option<Vec<u8>> = match read_section(file, ".ARM.attributes") {
        Some((_, _, d)) => d,
        None => None,
    };
    let isa: ArmIsa = match &attributes {
        Some(a) => match Arm::try_from(is_elf && !is_64, Some(a.as_slice())) {
            Ok(isa) => isa,
            Err(_) => ArmIsa::ArmV6M,
        },
        None => match Arm::try_from(is_elf && !is_64, None) {
            Ok(isa) => isa,
            Err(_) => ArmIsa::ArmV6M,
        },
    };
    let symtab: Vec<(String, u64)> = read_symbols(file);
    let functions: Vec<(String, u64)> = elf_functions(file);
    let project: Project = Project::from_parts(text, start, end, word_size, endianness, isa, symtab, &functions, decoded);
    proof {
        let patterns = choose|patterns: Seq<(String, PCHook)>| #[trigger] run_patterns(patterns)
            && project.pc_hook_entries() == hooks_for_all(patterns, functions@);
        assert(run_patterns(patterns) && names_of(functions@) == debug_functions(file@) && project.pc_hook_entries()
            == hooks_for_all(patterns, functions@));
    }
    Ok(project)
}

/// Reads a project out of the bytes of the ELF file at `path` as
/// [`project_from_elf`] does; `None` when the file has a readable `.text`
/// section but debug information that cannot be read.
pub fn try_project_from_elf(path: &str, file: &[u8], decoded: Vec<(u64, V6Instruction)>) -> (r: Option<
    Result<Project, ProjectError>,
>)
    ensures
        r is None <==> (elf_header(file@) is Some && (elf_section(file@, ".text"@) matches Some((_, _, Some(_))))
            && !debug_readable(file@)),
{
    proof {
        reveal_strlit(".text");
    }
    let readable_text: bool = match read_header(file) {
        Some(_) => match read_section(file, ".text") {
            Some((_, _, Some(_))) => true,
            _ => false,
        },
        None => false,
    };
    if readable_text && try_elf_functions(file).is_none() {
        return None;
    }
    Some(project_from_elf(path, file, decoded))
}

} // verus!
