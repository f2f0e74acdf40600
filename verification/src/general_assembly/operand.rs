//! Operands of the general assembly language.
use vstd::prelude::*;

verus! {

/// An immediate value together with its width.
#[derive(Debug, Clone, Copy, PartialEq, Eq, Structural)]
pub enum DataWord {
    Word64(u64),
    Word32(u32),
    Word16(u16),
    Word8(u8),
}

/// A half word immediate: it occupies the least significant half of a
/// machine word (of 64, 32 or 16 bits).
#[derive(Debug, Clone, Copy, PartialEq, Eq, Structural)]
pub enum DataHalfWord {
    HalfWord64(u32),
    HalfWord32(u16),
    HalfWord16(u8),
}

impl DataWord {
    /// The numeric value of the word.
    pub open spec fn value(self) -> nat {
        match self {
            DataWord::Word64(v) => v as nat,
            DataWord::Word32(v) => v as nat,
            DataWord::Word16(v) => v as nat,
            DataWord::Word8(v) => v as nat,
        }
    }

    /// The width of the word in bits.
    pub open spec fn bits(self) -> nat {
        match self {
            DataWord::Word64(_) => 64,
            DataWord::Word32(_) => 32,
            DataWord::Word16(_) => 16,
            DataWord::Word8(_) => 8,
        }
    }

    /// The width of the word in bits.
    pub fn width(&self) -> (r: u32)
        ensures
            r == self.bits(),
    {
        match self {
            DataWord::Word64(_) => 64,
            DataWord::Word32(_) => 32,
            DataWord::Word16(_) => 16,
            DataWord::Word8(_) => 8,
        }
    }

    /// The value of the word widened to 64 bits.
    pub fn to_u64(&self) -> (r: u64)
        ensures
            r == self.value(),
    {
        match *self {
            DataWord::Word64(v) => v,
            DataWord::Word32(v) => v as u64,
            DataWord::Word16(v) => v as u64,
            DataWord::Word8(v) => v as u64,
        }
    }
}

impl DataHalfWord {
    /// The numeric value of the half word.
    pub open spec fn value(self) -> nat {
        match self {
            DataHalfWord::HalfWord64(v) => v as nat,
            DataHalfWord::HalfWord32(v) => v as nat,
            DataHalfWord::HalfWord16(v) => v as nat,
        }
    }

    /// The data word of the machine word width that holds this half word:
    /// a half of a 64 bit word becomes a 64 bit word of the same value.
    pub open spec fn widened(self) -> DataWord {
        match self {
            DataHalfWord::HalfWord64(v) => DataWord::Word64(v as u64),
            DataHalfWord::HalfWord32(v) => DataWord::Word32(v as u32),
            DataHalfWord::HalfWord16(v) => DataWord::Word16(v as u16),
        }
    }
}

impl From<DataHalfWord> for DataWord {
    fn from(value: DataHalfWord) -> (r: DataWord) {
        match value {
            DataHalfWord::HalfWord64(v) => DataWord::Word64(v as u64),
            DataHalfWord::HalfWord32(v) => DataWord::Word32(v as u32),
            DataHalfWord::HalfWord16(v) => DataWord::Word16(v as u16),
        }
    }
}

impl vstd::std_specs::convert::FromSpecImpl<DataHalfWord> for DataWord {
    open spec fn obeys_from_spec() -> bool {
        true
    }

    open spec fn from_spec(v: DataHalfWord) -> DataWord {
        v.widened()
    }
}

impl From<u64> for DataWord {
    fn from(value: u64) -> (r: DataWord) {
        DataWord::Word64(value)
    }
}

impl vstd::std_specs::convert::FromSpecImpl<u64> for DataWord {
    open spec fn obeys_from_spec() -> bool {
        true
    }

    open spec fn from_spec(v: u64) -> DataWord {
        DataWord::Word64(v)
    }
}

impl From<u32> for DataWord {
    fn from(value: u32) -> (r: DataWord) {
        DataWord::Word32(value)
    }
}

impl vstd::std_specs::convert::FromSpecImpl<u32> for DataWord {
    open spec fn obeys_from_spec() -> bool {
        true
    }

    open spec fn from_spec(v: u32) -> DataWord {
        DataWord::Word32(v)
    }
}

impl From<u16> for DataWord {
    fn from(value: u16) -> (r: DataWord) {
        DataWord::Word16(value)
    }
}

impl vstd::std_specs::convert::FromSpecImpl<u16> for DataWord {
    open spec fn obeys_from_spec() -> bool {
        true
    }

    open spec fn from_spec(v: u16) -> DataWord {
        DataWord::Word16(v)
    }
}

impl From<u8> for DataWord {
    fn from(value: u8) -> (r: DataWord) {
        DataWord::Word8(value)
    }
}

impl vstd::std_specs::convert::FromSpecImpl<u8> for DataWord {
    open spec fn obeys_from_spec() -> bool {
        true
    }

    open spec fn from_spec(v: u8) -> DataWord {
        DataWord::Word8(v)
    }
}

impl From<DataWord> for u64 {
    fn from(value: DataWord) -> (r: u64) {
        match value {
            DataWord::Word64(v) => v,
            DataWord::Word32(v) => v as u64,
            DataWord::Word16(v) => v as u64,
            DataWord::Word8(v) => v as u64,
        }
    }
}

impl vstd::std_specs::convert::FromSpecImpl<DataWord> for u64 {
    open spec fn obeys_from_spec() -> bool {
        true
    }

    open spec fn from_spec(v: DataWord) -> u64 {
        v.value() as u64
    }
}

/// Widening a word to 64 bits and back loses nothing: converting a `u64`
/// into a data word and that word back into a `u64` gives the original
/// value, and widening a half word keeps its value.
pub proof fn lemma_data_word_round_trip(x: u64, h: DataHalfWord)
    ensures
        DataWord::Word64(x).value() as u64 == x,
        h.widened().value() == h.value(),
        h.widened().bits() == 2 * match h {
            DataHalfWord::HalfWord64(_) => 32nat,
            DataHalfWord::HalfWord32(_) => 16nat,
            DataHalfWord::HalfWord16(_) => 8nat,
        },
{
}

/// The operands of general assembly operations.
#[derive(Debug)]
pub enum Operand {
    /// The value in a register.
    Register(String),
    /// An immediate value.
    Immediate(DataWord),
    /// The value in memory at the address held in a local, read with the given width in bits.
    AddressInLocal(String, u32),
    /// The value in memory at a constant address, with the given width in bits.
    Address(DataWord, u32),
    /// The value in memory at a constant address offset by a register.
    AddressWithOffset { address: DataWord, offset_reg: String, width: u32 },
    /// A value local to the instruction being executed.
    Local(String),
    /// A flag of the core.
    Flag(String),
}

impl Clone for Operand {
    fn clone(&self) -> (r: Operand)
        ensures
            r == *self,
    {
        match self {
            Operand::Register(n) => Operand::Register(n.clone()),
            Operand::Immediate(d) => Operand::Immediate(*d),
            Operand::AddressInLocal(n, w) => Operand::AddressInLocal(n.clone(), *w),
            Operand::Address(d, w) => Operand::Address(*d, *w),
            Operand::AddressWithOffset { address, offset_reg, width } => Operand::AddressWithOffset {
                address: *address,
                offset_reg: offset_reg.clone(),
                width: *width,
            },
            Operand::Local(n) => Operand::Local(n.clone()),
            Operand::Flag(n) => Operand::Flag(n.clone()),
        }
    }
}

/// A data word as its bytes, in memory order.
#[derive(Debug, Clone, Copy)]
pub enum RawDataWord {
    Word64([u8; 8]),
    Word32([u8; 4]),
    Word16([u8; 2]),
    Word8([u8; 1]),
}

impl RawDataWord {
    /// The bytes of the word.
    pub open spec fn bytes(self) -> Seq<u8> {
        match self {
            RawDataWord::Word64(b) => b@,
            RawDataWord::Word32(b) => b@,
            RawDataWord::Word16(b) => b@,
            RawDataWord::Word8(b) => b@,
        }
    }
}

} // verus!
