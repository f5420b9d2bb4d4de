//! The bind opcodes and the masks that take an opcode byte apart.

use vstd::prelude::*;

verus! {

/// A bind opcode byte: an operation in the high nibble, an immediate in the low one.
pub type Opcode = u8;

/// The bind type of a plain pointer, the default of the lazy stream.
pub const BIND_TYPE_POINTER: u8 = 1;

/// The symbol flag that marks a weak import.
pub const BIND_SYMBOL_FLAGS_WEAK_IMPORT: Opcode = 0x1;

/// Selects the operation of an opcode byte.
pub const BIND_OPCODE_MASK: Opcode = 0xF0;

/// Selects the immediate of an opcode byte.
pub const BIND_IMMEDIATE_MASK: Opcode = 0x0F;

pub const BIND_OPCODE_DONE: Opcode = 0x00;

pub const BIND_OPCODE_SET_DYLIB_ORDINAL_IMM: Opcode = 0x10;

pub const BIND_OPCODE_SET_DYLIB_ORDINAL_ULEB: Opcode = 0x20;

pub const BIND_OPCODE_SET_DYLIB_SPECIAL_IMM: Opcode = 0x30;

pub const BIND_OPCODE_SET_SYMBOL_TRAILING_FLAGS_IMM: Opcode = 0x40;

pub const BIND_OPCODE_SET_TYPE_IMM: Opcode = 0x50;

pub const BIND_OPCODE_SET_ADDEND_SLEB: Opcode = 0x60;

pub const BIND_OPCODE_SET_SEGMENT_AND_OFFSET_ULEB: Opcode = 0x70;

pub const BIND_OPCODE_ADD_ADDR_ULEB: Opcode = 0x80;

pub const BIND_OPCODE_DO_BIND: Opcode = 0x90;

pub const BIND_OPCODE_DO_BIND_ADD_ADDR_ULEB: Opcode = 0xA0;

pub const BIND_OPCODE_DO_BIND_ADD_ADDR_IMM_SCALED: Opcode = 0xB0;

pub const BIND_OPCODE_DO_BIND_ULEB_TIMES_SKIPPING_ULEB: Opcode = 0xC0;

/// The operation of an opcode byte.
pub open spec fn operation(opcode: Opcode) -> Opcode {
    opcode & BIND_OPCODE_MASK
}

/// The immediate of an opcode byte.
pub open spec fn immediate(opcode: Opcode) -> u8 {
    opcode & BIND_IMMEDIATE_MASK
}

/// The immediate of an opcode byte is one of sixteen values.
pub proof fn lemma_immediate_bound(opcode: Opcode)
    ensures
        immediate(opcode) <= 15,
{
    assert(opcode & 0x0F <= 15) by (bit_vector);
}

} // verus!
