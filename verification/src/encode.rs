//! Instruction-word encoding.
//!
//! Every micro-operation of the coprocessor is triggered by a single raw
//! instruction word of the form
//!
//! ```text
//! word = BASE_WORD + (opcode << 5) + encoded_operand
//! encoded_operand = (operand & 0xF) + (operand >> 4) * 10
//! ```
//!
//! together with a packed 64-bit addressing operand: either a register index
//! in the high byte above a 56-bit buffer address (load/store), or three
//! packed bit fields (outer product), or a fixed flag (state control).
//!
//! The functions here compute those words and operands exactly; the lemmas
//! prove that packing loses nothing beyond the documented masking, so a
//! packed operand still determines the register index, address and offsets
//! that were put into it.

use vstd::prelude::*;

verus! {

/// Fixed instruction template every issued word is built on.
pub const BASE_WORD: u64 = 0x0020_1000;

/// Low 56 bits of a packed load/store operand: the buffer address field.
pub const ADDR_MASK: u64 = 0x00ff_ffff_ffff_ffff;

/// The micro-operations the coprocessor accepts, each with its fixed
/// operation code.
#[derive(Clone, Copy, PartialEq, Eq, Structural, Debug)]
pub enum Opcode {
    LoadX,
    LoadY,
    StoreX,
    StoreY,
    LoadZ,
    StoreZ,
    FmaF32,
    StateCtrl,
}

impl Opcode {
    /// The operation code carried by this variant.
    pub open spec fn spec_code(self) -> u64 {
        match self {
            Opcode::LoadX => 0,
            Opcode::LoadY => 1,
            Opcode::StoreX => 2,
            Opcode::StoreY => 3,
            Opcode::LoadZ => 4,
            Opcode::StoreZ => 5,
            Opcode::FmaF32 => 12,
            Opcode::StateCtrl => 17,
        }
    }

    /// Operation codes occupy a five-bit field.
    pub proof fn lemma_code_in_field(self)
        ensures
            self.spec_code() < 32,
    {
    }

    pub fn code(self) -> (c: u64)
        ensures
            c == self.spec_code(),
    {
        match self {
            Opcode::LoadX => 0,
            Opcode::LoadY => 1,
            Opcode::StoreX => 2,
            Opcode::StoreY => 3,
            Opcode::LoadZ => 4,
            Opcode::StoreZ => 5,
            Opcode::FmaF32 => 12,
            Opcode::StateCtrl => 17,
        }
    }
}

/// The fixed, non-linear mangling the instruction format applies to an
/// operand: the low nibble (`operand & 0xF`) is kept, the upper part
/// (`operand >> 4`) is folded in as a decimal-like term.
pub open spec fn operand_encoding(operand: u64) -> int {
    (operand as int) % 16 + ((operand as int) / 16) * 10
}

/// The complete instruction word for one micro-operation.
pub open spec fn word_spec(opcode: Opcode, operand: u64) -> int {
    BASE_WORD + opcode.spec_code() * 32 + operand_encoding(operand)
}

/// Builds the raw instruction word that triggers `opcode` on `operand`.
///
/// The word is returned to the caller; physically issuing it to the
/// execution unit is the host environment's business, not this crate's.
pub fn op(opcode: Opcode, operand: u64) -> (w: u64)
    ensures
        w == word_spec(opcode, operand),
{
    let code = opcode.code();
    proof {
        opcode.lemma_code_in_field();
    }
    assert(code < 32 ==> code << 5 == code * 32) by (bit_vector);
    assert(operand & 0xF == operand % 16 && operand >> 4 == operand / 16) by (bit_vector);
    assert(operand & 0xF < 16) by (bit_vector);
    assert(operand >> 4 <= 0x0fff_ffff_ffff_ffff) by (bit_vector);
    BASE_WORD + (code << 5) + (operand & 0xF) + (operand >> 4) * 10
}

/// The packed addressing operand for a load or store on the X or Y bank:
/// the register index (masked to 3 bits) in the high byte, the buffer
/// address in the low 56 bits.
pub open spec fn xy_operand_spec(regidx: u8, addr: u64) -> u64 {
    (((regidx & 0x7) as u64) << 56) | (addr & ADDR_MASK)
}

pub fn xy_operand(regidx: u8, addr: u64) -> (gpr: u64)
    ensures
        gpr == xy_operand_spec(regidx, addr),
{
    (((regidx & 0x7) as u64) << 56) | (addr & ADDR_MASK)
}

/// The packed addressing operand for a load or store on the Z (accumulator)
/// bank: the physical row (masked to 6 bits) in the high byte, the buffer
/// address in the low 56 bits.
pub open spec fn z_operand_spec(zrow: u8, addr: u64) -> u64 {
    (((zrow & 0x3f) as u64) << 56) | (addr & ADDR_MASK)
}

pub fn z_operand(zrow: u8, addr: u64) -> (gpr: u64)
    ensures
        gpr == z_operand_spec(zrow, addr),
{
    (((zrow & 0x3f) as u64) << 56) | (addr & ADDR_MASK)
}

/// The packed operand for the fused outer-product instruction: the
/// accumulator-row selector (6 bits) above the X byte offset (9 bits) above
/// the Y byte offset (9 bits).
pub open spec fn fma_operand_spec(zrow: u8, xoffset: u16, yoffset: u16) -> u64 {
    (((zrow & 0x3f) as u64) << 20) | (((xoffset & 0x1ff) as u64) << 10) | ((yoffset
        & 0x1ff) as u64)
}

pub fn fma_operand(zrow: u8, xoffset: u16, yoffset: u16) -> (gpr: u64)
    ensures
        gpr == fma_operand_spec(zrow, xoffset, yoffset),
{
    (((zrow & 0x3f) as u64) << 20) | (((xoffset & 0x1ff) as u64) << 10) | ((yoffset
        & 0x1ff) as u64)
}

/// The fixed word that enables (`disable == false`) or disables
/// (`disable == true`) the coprocessor's execution context: opcode 17 with
/// operand 0 or 1. The hardware wants a short fixed alignment padding
/// ahead of this word; supplying it, like issuing itself, is the host
/// environment's business.
pub fn state_word(disable: bool) -> (w: u64)
    ensures
        w == word_spec(Opcode::StateCtrl, if disable { 1u64 } else { 0u64 }),
{
    if disable {
        op(Opcode::StateCtrl, 1)
    } else {
        op(Opcode::StateCtrl, 0)
    }
}

/// Packing an X/Y addressing operand loses nothing beyond the documented
/// masking: the register index and the 56-bit address are both recoverable
/// from the packed word.
pub proof fn lemma_xy_operand_fields(regidx: u8, addr: u64)
    ensures
        xy_operand_spec(regidx, addr) >> 56 == (regidx & 0x7) as u64,
        xy_operand_spec(regidx, addr) & ADDR_MASK == addr & ADDR_MASK,
{
    assert(((((regidx & 0x7) as u64) << 56) | (addr & 0x00ff_ffff_ffff_ffff)) >> 56 == (regidx
        & 0x7) as u64) by (bit_vector);
    assert(((((regidx & 0x7) as u64) << 56) | (addr & 0x00ff_ffff_ffff_ffff))
        & 0x00ff_ffff_ffff_ffff == addr & 0x00ff_ffff_ffff_ffff) by (bit_vector);
}

/// Packing a Z addressing operand loses nothing beyond the documented
/// masking.
pub proof fn lemma_z_operand_fields(zrow: u8, addr: u64)
    ensures
        z_operand_spec(zrow, addr) >> 56 == (zrow & 0x3f) as u64,
        z_operand_spec(zrow, addr) & ADDR_MASK == addr & ADDR_MASK,
{
    assert(((((zrow & 0x3f) as u64) << 56) | (addr & 0x00ff_ffff_ffff_ffff)) >> 56 == (zrow
        & 0x3f) as u64) by (bit_vector);
    assert(((((zrow & 0x3f) as u64) << 56) | (addr & 0x00ff_ffff_ffff_ffff))
        & 0x00ff_ffff_ffff_ffff == addr & 0x00ff_ffff_ffff_ffff) by (bit_vector);
}

/// Packing the outer-product operand keeps the three bit fields apart: the
/// accumulator selector and both offsets are recoverable from the packed
/// word.
pub proof fn lemma_fma_operand_fields(zrow: u8, xoffset: u16, yoffset: u16)
    ensures
        (fma_operand_spec(zrow, xoffset, yoffset) >> 20) & 0x3f == (zrow & 0x3f) as u64,
        (fma_operand_spec(zrow, xoffset, yoffset) >> 10) & 0x1ff == (xoffset & 0x1ff) as u64,
        fma_operand_spec(zrow, xoffset, yoffset) & 0x1ff == (yoffset & 0x1ff) as u64,
{
    assert((((((zrow & 0x3f) as u64) << 20) | (((xoffset & 0x1ff) as u64) << 10) | ((yoffset
        & 0x1ff) as u64)) >> 20) & 0x3f == (zrow & 0x3f) as u64) by (bit_vector);
    assert((((((zrow & 0x3f) as u64) << 20) | (((xoffset & 0x1ff) as u64) << 10) | ((yoffset
        & 0x1ff) as u64)) >> 10) & 0x1ff == (xoffset & 0x1ff) as u64) by (bit_vector);
    assert(((((zrow & 0x3f) as u64) << 20) | (((xoffset & 0x1ff) as u64) << 10) | ((yoffset
        & 0x1ff) as u64)) & 0x1ff == (yoffset & 0x1ff) as u64) by (bit_vector);
}

} // verus!
