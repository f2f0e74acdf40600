use symex::memory::ArrayMemory;
use symex::smt::expr::DContext;
use symex::symex::types::Endianness;

fn setup_test_memory(endianness: Endianness) -> ArrayMemory {
    let ctx = DContext::new();
    ArrayMemory::new(&ctx, 32, endianness)
}

#[test]
fn test_little_endian_write() {
    let mut memory = setup_test_memory(Endianness::Little);
    let indata = memory.ctx.from_u64(0x01020304, 32);
    let addr = memory.ctx.from_u64(0, 32);
    let one = memory.ctx.from_u64(1, 32);
    memory.write(&addr, indata).ok();
    let b1 = memory.read_u8(&addr);
    let addr = addr.add(&one);
    let b2 = memory.read_u8(&addr);
    let addr = addr.add(&one);
    let b3 = memory.read_u8(&addr);
    let addr = addr.add(&one);
    let b4 = memory.read_u8(&addr);

    assert_eq!(b1.get_constant().unwrap(), 0x04);
    assert_eq!(b2.get_constant().unwrap(), 0x03);
    assert_eq!(b3.get_constant().unwrap(), 0x02);
    assert_eq!(b4.get_constant().unwrap(), 0x01);
}

#[test]
fn test_big_endian_write() {
    let mut memory = setup_test_memory(Endianness::Big);
    let indata = memory.ctx.from_u64(0x01020304, 32);
    let addr = memory.ctx.from_u64(0, 32);
    let one = memory.ctx.from_u64(1, 32);
    memory.write(&addr, indata).ok();
    let b1 = memory.read_u8(&addr);
    let addr = addr.add(&one);
    let b2 = memory.read_u8(&addr);
    let addr = addr.add(&one);
    let b3 = memory.read_u8(&addr);
    let addr = addr.add(&one);
    let b4 = memory.read_u8(&addr);

    assert_eq!(b1.get_constant().unwrap(), 0x01);
    assert_eq!(b2.get_constant().unwrap(), 0x02);
    assert_eq!(b3.get_constant().unwrap(), 0x03);
    assert_eq!(b4.get_constant().unwrap(), 0x04);
}

#[test]
fn test_little_endian_read() {
    let mut memory = setup_test_memory(Endianness::Little);
    let b1 = memory.ctx.from_u64(0x04, 8);
    let b2 = memory.ctx.from_u64(0x03, 8);
    let b3 = memory.ctx.from_u64(0x02, 8);
    let b4 = memory.ctx.from_u64(0x01, 8);

    let one = memory.ctx.from_u64(1, 32);
    let addr = memory.ctx.from_u64(0, 32);
    memory.write_u8(&addr, b1);
    let addr = addr.add(&one);
    memory.write_u8(&addr, b2);
    let addr = addr.add(&one);
    memory.write_u8(&addr, b3);
    let addr = addr.add(&one);
    memory.write_u8(&addr, b4);

    let addr = memory.ctx.from_u64(0, 32);
    let result = memory.read(&addr, 32).ok().unwrap();
    assert_eq!(result.get_constant().unwrap(), 0x01020304);
}

#[test]
fn test_big_endian_read() {
    let mut memory = setup_test_memory(Endianness::Big);
    let b1 = memory.ctx.from_u64(0x01, 8);
    let b2 = memory.ctx.from_u64(0x02, 8);
    let b3 = memory.ctx.from_u64(0x03, 8);
    let b4 = memory.ctx.from_u64(0x04, 8);

    let one = memory.ctx.from_u64(1, 32);
    let addr = memory.ctx.from_u64(0, 32);
    memory.write_u8(&addr, b1);
    let addr = addr.add(&one);
    memory.write_u8(&addr, b2);
    let addr = addr.add(&one);
    memory.write_u8(&addr, b3);
    let addr = addr.add(&one);
    memory.write_u8(&addr, b4);

    let addr = memory.ctx.from_u64(0, 32);
    let result = memory.read(&addr, 32).ok().unwrap();
    assert_eq!(result.get_constant().unwrap(), 0x01020304);
}

#[test]
fn fresh_memory_bytes_are_not_constants() {
    let memory = setup_test_memory(Endianness::Little);
    let addr = memory.ctx.from_u64(0x1000, 32);
    assert!(memory.read(&addr, 8).unwrap().get_constant().is_none());
    assert!(memory.read_u8(&addr).get_constant().is_none());
}

#[test]
fn write_leaves_other_bytes_alone() {
    let mut memory = setup_test_memory(Endianness::Little);
    let addr4 = memory.ctx.from_u64(4, 32);
    let byte = memory.ctx.from_u64(0xaa, 8);
    memory.write(&addr4, byte).unwrap();
    let addr0 = memory.ctx.from_u64(0, 32);
    let word = memory.ctx.from_u64(0x01020304, 32);
    memory.write(&addr0, word).unwrap();
    assert_eq!(memory.read(&addr4, 8).unwrap().get_constant(), Some(0xaa));
    assert_eq!(memory.read(&addr0, 32).unwrap().get_constant(), Some(0x01020304));
    let addr8 = memory.ctx.from_u64(8, 32);
    assert!(memory.read(&addr8, 8).unwrap().get_constant().is_none());
}
