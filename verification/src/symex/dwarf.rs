//! The functions that the DWARF debug information of an ELF file names,
//! read with the `gimli` crate: every subprogram entry with a name in the
//! string table and a start address.
use vstd::prelude::*;
use gimli::{AttributeValue, DebugAbbrev, DebugInfo, DebugInfoOffset, DebugStr, DebugStrOffset, RunTimeEndian};
use crate::symex::elf::{elf_header, elf_section, read_header, read_section};

verus! {

/// The offsets of the units of the `.debug_info` section `info` in the
/// byte order `little`, as `gimli` walks them; `None` when a unit header
/// cannot be read.
pub uninterp spec fn dwarf_units(info: Seq<u8>, little: bool) -> Option<Seq<usize>>;

/// The entries of the unit at offset `unit` of `info`, in depth first
/// order, with the abbreviations of `abbrev`: the tag of each, the string
/// table offset of its name where the name is one, and its start address
/// where that is an address; `None` when the unit or an entry cannot be
/// read.
pub uninterp spec fn dwarf_unit_entries(
    info: Seq<u8>,
    abbrev: Seq<u8>,
    little: bool,
    unit: usize,
) -> Option<Seq<(u16, Option<usize>, Option<u64>)>>;

/// The UTF-8 string at `offset` of the string table `strs`; `None` when it
/// cannot be read.
pub uninterp spec fn dwarf_string(strs: Seq<u8>, little: bool, offset: usize) -> Option<Seq<char>>;

/// Walks the unit headers of `info` with `gimli::DebugInfo::units` and
/// lists the `debug_info_offset` of each, stopping with `None` at the first
/// error; the contract claims the answer is a function of its arguments.
#[verifier::external_body]
fn read_unit_offsets(info: &[u8], little: bool) -> (r: Option<Vec<usize>>)
    ensures
        match r {
            Some(v) => dwarf_units(info@, little) == Some(v@),
            None => dwarf_units(info@, little) is None,
        },
{
    let endian = if little { RunTimeEndian::Little } else { RunTimeEndian::Big };
    let mut units = DebugInfo::new(info, endian).units();
    let mut out = Vec::new();
    while let Some(unit) = units.next().ok()? {
        out.push(unit.debug_info_offset()?.0);
    }
    Some(out)
}

/// Reads the unit at `unit` of `info` with `header_from_offset`, its
/// `abbreviations` from `abbrev`, and walks its entries with `next_dfs`,
/// reading `tag` and the `DW_AT_name` and `DW_AT_low_pc` values of each;
/// `None` at the first error. The contract claims the answer is a function
/// of the arguments.
#[verifier::external_body]
fn read_unit_entries(info: &[u8], abbrev: &[u8], little: bool, unit: usize) -> (r: Option<
    Vec<(u16, Option<usize>, Option<u64>)>,
>)
    ensures
        match r {
            Some(v) => dwarf_unit_entries(info@, abbrev@, little, unit) == Some(v@),
            None => dwarf_unit_entries(info@, abbrev@, little, unit) is None,
        },
{
    let endian = if little { RunTimeEndian::Little } else { RunTimeEndian::Big };
    let header = DebugInfo::new(info, endian).header_from_offset(DebugInfoOffset(unit)).ok()?;
    let abbrevs = header.abbreviations(&DebugAbbrev::new(abbrev, endian)).ok()?;
    let mut cursor = header.entries(&abbrevs);
    let mut out = Vec::new();
    while let Some(e) = cursor.next_dfs().ok()? {
        let name = match e.attr_value(gimli::DW_AT_name) { Some(AttributeValue::DebugStrRef(s)) => Some(s.0), _ => None };
        let low = match e.attr_value(gimli::DW_AT_low_pc) { Some(AttributeValue::Addr(a)) => Some(a), _ => None };
        out.push((e.tag().0, name, low));
    }
    Some(out)
}

/// Reads the string at `offset` of `strs` with `gimli::DebugStr::get_str`
/// and `to_string`; the contract claims the answer is a function of the
/// arguments.
#[verifier::external_body]
fn read_debug_string(strs: &[u8], little: bool, offset: usize) -> (r: Option<String>)
    ensures
        match r {
            Some(s) => dwarf_string(strs@, little, offset) == Some(s@),
            None => dwarf_string(strs@, little, offset) is None,
        },
{
    let endian = if little { RunTimeEndian::Little } else { RunTimeEndian::Big };
    let s = DebugStr::new(strs, endian).get_str(DebugStrOffset(offset)).ok()?;
    Some(s.to_string().ok()?.to_owned())
}

/// The DWARF tag of a subprogram.
pub const DW_TAG_SUBPROGRAM: u16 = 0x2e;

/// Whether an entry is a subprogram whose name is in the string table.
pub open spec fn named_subprogram(e: (u16, Option<usize>, Option<u64>)) -> bool {
    e.0 == DW_TAG_SUBPROGRAM && e.1 is Some
}

/// Whether the name of every named subprogram among `es` can be read.
pub open spec fn entries_readable(es: Seq<(u16, Option<usize>, Option<u64>)>, strs: Seq<u8>, little: bool) -> bool {
    forall|i: int| 0 <= i < es.len() && named_subprogram(#[trigger] es[i]) ==> dwarf_string(strs, little, es[i].1.unwrap()) is Some
}

/// The functions among the entries `es`: each named subprogram with a
/// start address, by name and address, in order.
pub open spec fn entry_functions(
    es: Seq<(u16, Option<usize>, Option<u64>)>,
    strs: Seq<u8>,
    little: bool,
) -> Seq<(Seq<char>, u64)>
    decreases es.len(),
{
    if es.len() == 0 {
        Seq::empty()
    } else {
        let rest = entry_functions(es.drop_last(), strs, little);
        let e = es.last();
        if named_subprogram(e) && e.2 is Some {
            rest.push((dwarf_string(strs, little, e.1.unwrap()).unwrap(), e.2.unwrap()))
        } else {
            rest
        }
    }
}

/// Whether every unit among `units` and the names of its subprograms can
/// be read.
pub open spec fn units_readable(units: Seq<usize>, info: Seq<u8>, abbrev: Seq<u8>, strs: Seq<u8>, little: bool) -> bool {
    forall|i: int| 0 <= i < units.len() ==> (#[trigger] dwarf_unit_entries(info, abbrev, little, units[i]) matches Some(
        es,
    ) && entries_readable(es, strs, little))
}

/// The functions of the units `units`, unit after unit.
pub open spec fn unit_functions(
    units: Seq<usize>,
    info: Seq<u8>,
    abbrev: Seq<u8>,
    strs: Seq<u8>,
    little: bool,
) -> Seq<(Seq<char>, u64)>
    decreases units.len(),
{
    if units.len() == 0 {
        Seq::empty()
    } else {
        unit_functions(units.drop_last(), info, abbrev, strs, little) + entry_functions(
            dwarf_unit_entries(info, abbrev, little, units.last()).unwrap(),
            strs,
            little,
        )
    }
}

/// The bytes of section `name` of `file`, where the section and its bytes
/// can be read.
pub open spec fn section_bytes(file: Seq<u8>, name: Seq<char>) -> Option<Seq<u8>> {
    match elf_section(file, name) {
        Some((_, _, Some(d))) => Some(d),
        _ => None,
    }
}

/// Whether the debug information of `file` can be read: the file parses,
/// its `.debug_info`, `.debug_abbrev` and `.debug_str` sections can be read,
/// and so can its units and the names of their subprograms.
pub open spec fn debug_readable(file: Seq<u8>) -> bool {
    &&& elf_header(file) is Some
    &&& section_bytes(file, ".debug_info"@) is Some
    &&& section_bytes(file, ".debug_abbrev"@) is Some
    &&& section_bytes(file, ".debug_str"@) is Some
    &&& {
        let little = elf_header(file).unwrap().0;
        let info = section_bytes(file, ".debug_info"@).unwrap();
        &&& dwarf_units(info, little) is Some
        &&& units_readable(
            dwarf_units(info, little).unwrap(),
            info,
            section_bytes(file, ".debug_abbrev"@).unwrap(),
            section_bytes(file, ".debug_str"@).unwrap(),
            little,
        )
    }
}

/// The functions that the debug information of `file` names, by name and
/// start address, in the order of its units and entries.
pub open spec fn debug_functions(file: Seq<u8>) -> Seq<(Seq<char>, u64)> {
    let little = elf_header(file).unwrap().0;
    let info = section_bytes(file, ".debug_info"@).unwrap();
    unit_functions(
        dwarf_units(info, little).unwrap(),
        info,
        section_bytes(file, ".debug_abbrev"@).unwrap(),
        section_bytes(file, ".debug_str"@).unwrap(),
        little,
    )
}

/// A list of names and addresses with each name taken by its view.
pub open spec fn names_of(v: Seq<(String, u64)>) -> Seq<(Seq<char>, u64)> {
    v.map_values(|e: (String, u64)| (e.0@, e.1))
}

/// The bytes of section `name`, where they can be read.
fn section_data(file: &[u8], name: &str) -> (r: Option<Vec<u8>>)
    ensures
        match r {
            Some(d) => section_bytes(file@, name@) == Some(d@),
            None => section_bytes(file@, name@) is None,
        },
{
    match read_section(file, name) {
        Some((_, _, Some(d))) => Some(d),
        _ => None,
    }
}

/// The functions of the entries of one unit, appended to `out`; `false`
/// when the name of a subprogram cannot be read.
fn append_entry_functions(
    out: &mut Vec<(String, u64)>,
    entries: &Vec<(u16, Option<usize>, Option<u64>)>,
    strs: &[u8],
    little: bool,
) -> (ok: bool)
    ensures
        ok == entries_readable(entries@, strs@, little),
        ok ==> names_of(final(out)@) == names_of(old(out)@) + entry_functions(entries@, strs@, little),
{
    let ghost start = names_of(out@);
    let mut j: usize = 0;
    while j < entries.len()
        invariant
            j <= entries@.len(),
            entries_readable(entries@.take(j as int), strs@, little),
            names_of(out@) == start + entry_functions(entries@.take(j as int), strs@, little),
        decreases entries.len() - j,
    {
        proof {
            assert(entries@.take(j as int + 1).drop_last() =~= entries@.take(j as int));
            assert(entries@.take(j as int + 1).last() == entries@[j as int]);
        }
        let (tag, name, low) = entries[j];
        if tag == DW_TAG_SUBPROGRAM {
            if let Some(offset) = name {
                let text: String = match read_debug_string(strs, little, offset) {
                    Some(t) => t,
                    None => {
                        proof {
                            assert(named_subprogram(entries@[j as int]));
                        }
                        return false;
                    },
                };
                if let Some(address) = low {
                    let ghost before = out@;
                    out.push((text, address));
                    proof {
                        assert(names_of(out@) =~= names_of(before).push((text@, address)));
                    }
                }
            }
        }
        proof {
            assert forall|i: int| 0 <= i < j + 1 && named_subprogram(#[trigger] entries@.take(j as int + 1)[i]) implies dwarf_string(
                strs@,
                little,
                entries@.take(j as int + 1)[i].1.unwrap(),
            ) is Some by {
                if i < j {
                    assert(entries@.take(j as int + 1)[i] == entries@.take(j as int)[i]);
                }
            }
        }
        j = j + 1;
    }
    proof {
        assert(entries@.take(j as int) =~= entries@);
    }
    true
}

/// The functions that the debug information of `file` names, where it can
/// be read.
fn walk_debug_info(file: &[u8]) -> (r: Option<Vec<(String, u64)>>)
    ensures
        r is Some <==> debug_readable(file@),
        r matches Some(v) ==> names_of(v@) == debug_functions(file@),
{
    proof {
        reveal_strlit(".debug_info");
        reveal_strlit(".debug_abbrev");
        reveal_strlit(".debug_str");
    }
    let little: bool = match read_header(file) {
        Some((l, _, _)) => l,
        None => return None,
    };
    let info: Vec<u8> = match section_data(file, ".debug_info") {
        Some(d) => d,
        None => return None,
    };
    let abbrev: Vec<u8> = match section_data(file, ".debug_abbrev") {
        Some(d) => d,
        None => return None,
    };
    let strs: Vec<u8> = match section_data(file, ".debug_str") {
        Some(d) => d,
        None => return None,
    };
    let units: Vec<usize> = match read_unit_offsets(info.as_slice(), little) {
        Some(u) => u,
        None => return None,
    };
    let mut out: Vec<(String, u64)> = Vec::new();
    let mut i: usize = 0;
    proof {
        assert(names_of(out@) =~= Seq::<(Seq<char>, u64)>::empty());
    }
    while i < units.len()
        invariant
            i <= units@.len(),
            elf_header(file@) matches Some(h) && h.0 == little,
            section_bytes(file@, ".debug_info"@) == Some(info@),
            section_bytes(file@, ".debug_abbrev"@) == Some(abbrev@),
            section_bytes(file@, ".debug_str"@) == Some(strs@),
            dwarf_units(info@, little) == Some(units@),
            units_readable(units@.take(i as int), info@, abbrev@, strs@, little),
            names_of(out@) == unit_functions(units@.take(i as int), info@, abbrev@, strs@, little),
        decreases units.len() - i,
    {
        proof {
            assert(units@.take(i as int + 1).drop_last() =~= units@.take(i as int));
            assert(units@.take(i as int + 1).last() == units@[i as int]);
        }
        let entries: Vec<(u16, Option<usize>, Option<u64>)> = match read_unit_entries(
            info.as_slice(),
            abbrev.as_slice(),
            little,
            units[i],
        ) {
            Some(e) => e,
            None => {
                proof {
                    assert(!units_readable(units@, info@, abbrev@, strs@, little)) by {
                        assert(dwarf_unit_entries(info@, abbrev@, little, units@[i as int]) is None);
                    }
                }
                return None;
            },
        };
        if !append_entry_functions(&mut out, &entries, strs.as_slice(), little) {
            proof {
                assert(!units_readable(units@, info@, abbrev@, strs@, little)) by {
                    assert(dwarf_unit_entries(info@, abbrev@, little, units@[i as int]) == Some(entries@));
                }
            }
            return None;
        }
        proof {
            assert forall|k: int| 0 <= k < i + 1 implies (#[trigger] dwarf_unit_entries(
                info@,
                abbrev@,
                little,
                units@.take(i as int + 1)[k],
            ) matches Some(es) && entries_readable(es, strs@, little)) by {
                if k < i {
                    assert(units@.take(i as int + 1)[k] == units@.take(i as int)[k]);
                }
            }
        }
        i = i + 1;
    }
    proof {
        assert(units@.take(i as int) =~= units@);
    }
    Some(out)
}

/// The functions that the debug information of an ELF file names, by name
/// and start address: every subprogram entry whose name is in the string
/// table and whose start address is an address, in the order of the units
/// and of the entries in each.
pub fn elf_functions(file: &[u8]) -> (r: Vec<(String, u64)>)
    requires
        debug_readable(file@),
    ensures
        names_of(r@) == debug_functions(file@),
{
    match walk_debug_info(file) {
        Some(v) => v,
        None => Vec::new(),
    }
}

/// The functions that the debug information of `file` names (see
/// [`elf_functions`]); `None` when the debug information cannot be read.
pub fn try_elf_functions(file: &[u8]) -> (r: Option<Vec<(String, u64)>>)
    ensures
        r is Some <==> debug_readable(file@),
        r matches Some(v) ==> names_of(v@) == debug_functions(file@),
{
    match walk_debug_info(file) {
        Some(_) => Some(elf_functions(file)),
        None => None,
    }
}

} // verus!
