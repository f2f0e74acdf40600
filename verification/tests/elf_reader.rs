use symex::arch::arm::isa::ArmIsa;
use symex::symex::dwarf::try_elf_functions;
use symex::symex::elf::{project_from_elf, try_project_from_elf};
use symex::symex::segments::Segments;
use symex::symex::project::{MemoryReadHook, PCHook, ProjectError, RegisterReadHook, RegisterWriteHook};
use symex::symex::types::Endianness;

fn push_u16(v: &mut Vec<u8>, x: u16) {
    v.extend_from_slice(&x.to_le_bytes());
}

fn push_u32(v: &mut Vec<u8>, x: u32) {
    v.extend_from_slice(&x.to_le_bytes());
}

/// One section header of an ELF32 file.
fn section_header(v: &mut Vec<u8>, name: u32, kind: u32, flags: u32, addr: u32, offset: u32, size: u32) {
    push_u32(v, name);
    push_u32(v, kind);
    push_u32(v, flags);
    push_u32(v, addr);
    push_u32(v, offset);
    push_u32(v, size);
    push_u32(v, 0);
    push_u32(v, 0);
    push_u32(v, 1);
    push_u32(v, 0);
}

/// The debug information of three functions: `panic` at `0x200`,
/// `suppress_path` at `0x300` and `other` at `0x400`.
fn debug_sections() -> Vec<(&'static str, Vec<u8>)> {
    let abbrev: Vec<u8> = vec![1, 0x11, 1, 0, 0, 2, 0x2e, 0, 0x03, 0x0e, 0x11, 0x01, 0, 0, 0];
    let strs: Vec<u8> = b"panic\0suppress_path\0other\0".to_vec();
    let mut info: Vec<u8> = Vec::new();
    push_u32(&mut info, 36);
    push_u16(&mut info, 4);
    push_u32(&mut info, 0);
    info.push(4);
    info.push(1);
    for (name, address) in [(0u32, 0x200u32), (6, 0x300), (20, 0x400)] {
        info.push(2);
        push_u32(&mut info, name);
        push_u32(&mut info, address);
    }
    info.push(0);
    vec![(".debug_info", info), (".debug_abbrev", abbrev), (".debug_str", strs)]
}

/// A little endian ARM ELF32 file with a `.text` section of `text` at
/// `0x100`, when `cpu_arch` is given an `.ARM.attributes` section whose
/// 24th byte is `cpu_arch`, and, when `debug` is set, the debug information
/// of [`debug_sections`].
fn elf32_with(text: &[u8], cpu_arch: Option<u8>, debug: bool) -> Vec<u8> {
    let mut sections: Vec<(&'static str, u32, u32, Vec<u8>)> = vec![(".text", 1, 0x100, text.to_vec())];
    if let Some(a) = cpu_arch {
        let mut attributes = vec![0u8; 24];
        attributes[23] = a;
        sections.push((".ARM.attributes", 0x7000_0003, 0, attributes));
    }
    if debug {
        for (name, data) in debug_sections() {
            sections.push((name, 1, 0, data));
        }
    }
    let mut shstrtab: Vec<u8> = vec![0];
    let mut names: Vec<u32> = Vec::new();
    for (name, _, _, _) in &sections {
        names.push(shstrtab.len() as u32);
        shstrtab.extend_from_slice(name.as_bytes());
        shstrtab.push(0);
    }
    let shstrtab_name = shstrtab.len() as u32;
    shstrtab.extend_from_slice(b".shstrtab\0");
    let mut body: Vec<u8> = Vec::new();
    let mut offsets: Vec<u32> = Vec::new();
    for (_, _, _, data) in &sections {
        offsets.push(52 + body.len() as u32);
        body.extend_from_slice(data);
    }
    let str_off: u32 = 52 + body.len() as u32;
    body.extend_from_slice(&shstrtab);
    while body.len() % 4 != 0 {
        body.push(0);
    }
    let sh_off: u32 = 52 + body.len() as u32;
    let count: u16 = sections.len() as u16 + 2;

    let mut v: Vec<u8> = vec![0x7f, b'E', b'L', b'F', 1, 1, 1, 0, 0, 0, 0, 0, 0, 0, 0, 0];
    push_u16(&mut v, 2); // executable
    push_u16(&mut v, 40); // ARM
    push_u32(&mut v, 1);
    push_u32(&mut v, 0x101);
    push_u32(&mut v, 0);
    push_u32(&mut v, sh_off);
    push_u32(&mut v, 0x0500_0200);
    push_u16(&mut v, 52);
    push_u16(&mut v, 32);
    push_u16(&mut v, 0);
    push_u16(&mut v, 40);
    push_u16(&mut v, count);
    push_u16(&mut v, count - 1);
    assert_eq!(v.len(), 52);
    v.extend_from_slice(&body);
    section_header(&mut v, 0, 0, 0, 0, 0, 0);
    for (i, (_, kind, addr, data)) in sections.iter().enumerate() {
        let flags = if *kind == 1 && *addr != 0 { 6 } else { 0 };
        section_header(&mut v, names[i], *kind, flags, *addr, offsets[i], data.len() as u32);
    }
    section_header(&mut v, shstrtab_name, 3, 0, 0, str_off, shstrtab.len() as u32);
    v
}

/// [`elf32_with`] with debug information.
fn elf32(text: &[u8], cpu_arch: Option<u8>) -> Vec<u8> {
    elf32_with(text, cpu_arch, true)
}

#[test]
fn elf_bytes_that_do_not_parse_name_the_file() {
    let r = project_from_elf("firmware.elf", &[0, 1, 2, 3], Vec::new());
    match r {
        Err(ProjectError::UnableToParseElf(m)) => assert_eq!(m, "firmware.elf"),
        _ => panic!("expected a parse error"),
    }
}

#[test]
fn elf_text_section_is_the_code() {
    let file = elf32(&[0x01, 0x20, 0x70, 0x47], Some(12));
    let project = match project_from_elf("a.elf", &file, Vec::new()) {
        Ok(p) => p,
        Err(e) => panic!("not read: {:?}", e),
    };
    assert_eq!(project.get_word_size(), 32);
    assert!(matches!(project.get_endianness(), Endianness::Little));
    assert!(matches!(project.get_architecture(), ArmIsa::ArmV6M));
    assert_eq!(project.get_byte(0x100).unwrap(), 0x01);
    assert_eq!(project.get_byte(0x103).unwrap(), 0x47);
    assert!(project.address_in_range(0x102));
}

#[test]
fn elf_attributes_choose_armv7() {
    let file = elf32(&[0, 0, 0, 0], Some(13));
    let project = project_from_elf("b.elf", &file, Vec::new()).unwrap();
    assert!(matches!(project.get_architecture(), ArmIsa::ArmV7EM));
}

#[test]
fn elf_without_attributes_is_armv6() {
    let file = elf32(&[0, 0, 0, 0], None);
    let project = project_from_elf("c.elf", &file, Vec::new()).unwrap();
    assert!(matches!(project.get_architecture(), ArmIsa::ArmV6M));
}

#[test]
fn elf_unknown_cpu_is_armv6() {
    let file = elf32(&[0, 0, 0, 0], Some(7));
    let project = project_from_elf("d.elf", &file, Vec::new()).unwrap();
    assert!(matches!(project.get_architecture(), ArmIsa::ArmV6M));
}

#[test]
fn elf_project_has_the_run_hooks() {
    let file = elf32(&[0x01, 0x20, 0x70, 0x47], Some(12));
    let project = project_from_elf("e.elf", &file, Vec::new()).unwrap();
    assert!(matches!(project.get_pc_hook(0x200), Some(PCHook::EndFaliure("panic"))));
    assert!(matches!(project.get_pc_hook(0x300), Some(PCHook::Suppress)));
    assert!(project.get_pc_hook(0x400).is_none());
    assert!(matches!(project.get_register_read_hook("PC+"), Some(RegisterReadHook::PcPlusOne)));
    assert!(matches!(project.get_register_write_hook("PC+"), Some(RegisterWriteHook::WritePc)));
    assert!(matches!(project.get_memory_read_hook(0x4000c008), Some(MemoryReadHook::AllOnesWord)));
    assert!(project.get_memory_write_hook(0x4000c008).is_none());
}

/// A little endian ELF32 file with no sections and two program headers: a
/// loadable one holding `data` at `0x1000` and a note.
fn elf32_with_segment(data: &[u8]) -> Vec<u8> {
    let data_off: u32 = 52 + 2 * 32;
    let mut v: Vec<u8> = vec![0x7f, b'E', b'L', b'F', 1, 1, 1, 0, 0, 0, 0, 0, 0, 0, 0, 0];
    push_u16(&mut v, 2);
    push_u16(&mut v, 40);
    push_u32(&mut v, 1);
    push_u32(&mut v, 0x1001);
    push_u32(&mut v, 52);
    push_u32(&mut v, 0);
    push_u32(&mut v, 0x0500_0200);
    push_u16(&mut v, 52);
    push_u16(&mut v, 32);
    push_u16(&mut v, 2);
    push_u16(&mut v, 40);
    push_u16(&mut v, 0);
    push_u16(&mut v, 0);
    for (kind, vaddr) in [(1u32, 0x1000u32), (4u32, 0x2000u32)] {
        push_u32(&mut v, kind);
        push_u32(&mut v, data_off);
        push_u32(&mut v, vaddr);
        push_u32(&mut v, vaddr);
        push_u32(&mut v, data.len() as u32);
        push_u32(&mut v, data.len() as u32);
        push_u32(&mut v, 5);
        push_u32(&mut v, 4);
    }
    v.extend_from_slice(data);
    v
}

#[test]
fn elf_load_segments_are_read() {
    let file = elf32_with_segment(&[0xde, 0xad, 0xbe, 0xef]);
    let segments = Segments::try_from_elf(&file).expect("an ELF32 file");
    assert_eq!(segments.read_raw_bytes(0x1000, 4), Some(&[0xde, 0xad, 0xbe, 0xef][..]));
    assert_eq!(segments.read_raw_bytes(0x1002, 2), Some(&[0xbe, 0xef][..]));
    assert_eq!(segments.read_raw_bytes(0x2000, 1), None);
    assert_eq!(segments.read_raw_bytes(0x1004, 1), None);
    let again = Segments::from_elf(&file);
    assert_eq!(again.read_raw_bytes(0x1001, 1), Some(&[0xad][..]));
}

#[test]
fn elf_segments_of_a_non_elf_file_are_none() {
    assert!(Segments::try_from_elf(&[0, 1, 2, 3]).is_none());
}

#[test]
fn elf_debug_information_names_the_functions() {
    let file = elf32(&[0, 0, 0, 0], Some(12));
    let functions = try_elf_functions(&file).expect("readable debug information");
    assert_eq!(
        functions,
        vec![("panic".to_string(), 0x200u64), ("suppress_path".to_string(), 0x300u64), ("other".to_string(), 0x400u64)]
    );
}

#[test]
fn elf_without_debug_information_is_refused() {
    let file = elf32_with(&[0, 0, 0, 0], Some(12), false);
    assert!(try_elf_functions(&file).is_none());
    assert!(try_project_from_elf("f.elf", &file, Vec::new()).is_none());
    let with_debug = elf32(&[0, 0, 0, 0], Some(12));
    assert!(matches!(try_project_from_elf("g.elf", &with_debug, Vec::new()), Some(Ok(_))));
    assert!(matches!(try_project_from_elf("h.elf", &[1, 2, 3], Vec::new()), Some(Err(_))));
}
