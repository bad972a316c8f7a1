//! The decoder and the dispatcher: extract the operand fields of a fetched
//! instruction word, name the operation it encodes, and route a decoded
//! instruction to the matching execute handler.

use vstd::prelude::*;

use crate::draw::spec_draw;
use crate::emu::Emu;
use crate::emu::EmuView;
use crate::emu::RAM_SIZE;
use crate::emu::VREG_SIZE;
use crate::emu::spec_add_vx;
use crate::emu::spec_clear_screen;
use crate::emu::spec_jump;
use crate::emu::spec_set_i_reg;
use crate::emu::spec_set_vx;

verus! {

/// A decoded instruction: one variant per implemented operation, plus an
/// explicit variant for a word that matches no known encoding, which is
/// fatal to the run.
#[derive(Clone, Copy, Debug, PartialEq, Eq, Structural)]
pub enum Instr {
    /// Set every display cell unlit.
    ClearScreen,
    /// Set the program counter to the 12-bit address.
    Jump(u16),
    /// Set register `x` to the immediate byte.
    SetVx(usize, u8),
    /// Add the immediate byte to register `x`, wrapping, with no
    /// flags-register effect.
    AddVx(usize, u8),
    /// Set the index register to the 12-bit address.
    SetIReg(u16),
    /// Draw a sprite with origin registers `x`, `y` and the given row count.
    Draw(usize, usize, u8),
    /// No known encoding matches the word.
    Unknown(u16),
}

/// Opcode class of an instruction word: bits 15–12.
pub open spec fn op_class(word: u16) -> u16 {
    word >> 12
}

/// Register selector `x`: bits 11–8.
pub open spec fn field_x(word: u16) -> usize {
    ((word >> 8) & 0xF) as usize
}

/// Register selector `y`: bits 7–4.
pub open spec fn field_y(word: u16) -> usize {
    ((word >> 4) & 0xF) as usize
}

/// Immediate nibble `n`: bits 3–0.
pub open spec fn field_n(word: u16) -> u8 {
    (word & 0xF) as u8
}

/// Immediate byte `nn`: bits 7–0.
pub open spec fn field_nn(word: u16) -> u8 {
    (word & 0xFF) as u8
}

/// Address `nnn`: bits 11–0.
pub open spec fn field_nnn(word: u16) -> u16 {
    word & 0xFFF
}

/// The instruction a word encodes: the single no-operand case matches on the
/// full word, every other known class on the top 4 bits alone; anything else
/// is unknown.
pub open spec fn spec_decode(word: u16) -> Instr {
    if word == 0x00E0 {
        Instr::ClearScreen
    } else if op_class(word) == 0x1 {
        Instr::Jump(field_nnn(word))
    } else if op_class(word) == 0x6 {
        Instr::SetVx(field_x(word), field_nn(word))
    } else if op_class(word) == 0x7 {
        Instr::AddVx(field_x(word), field_nn(word))
    } else if op_class(word) == 0xA {
        Instr::SetIReg(field_nnn(word))
    } else if op_class(word) == 0xD {
        Instr::Draw(field_x(word), field_y(word), field_n(word))
    } else {
        Instr::Unknown(word)
    }
}

/// Decode an instruction word into exactly one instruction; every register
/// selector and row count a decoded instruction carries fits its 4-bit
/// field.
pub fn decode(word: u16) -> (instr: Instr)
    ensures
        instr == spec_decode(word),
        instr matches Instr::SetVx(x, _) ==> x < VREG_SIZE,
        instr matches Instr::AddVx(x, _) ==> x < VREG_SIZE,
        instr matches Instr::Draw(x, y, n) ==> x < VREG_SIZE && y < VREG_SIZE && n < 16,
{
    proof {
        assert((word & 0xF000 == 0x0000) <==> (word >> 12 == 0x0)) by (bit_vector);
        assert((word & 0xF000 == 0x1000) <==> (word >> 12 == 0x1)) by (bit_vector);
        assert((word & 0xF000 == 0x6000) <==> (word >> 12 == 0x6)) by (bit_vector);
        assert((word & 0xF000 == 0x7000) <==> (word >> 12 == 0x7)) by (bit_vector);
        assert((word & 0xF000 == 0xA000) <==> (word >> 12 == 0xA)) by (bit_vector);
        assert((word & 0xF000 == 0xD000) <==> (word >> 12 == 0xD)) by (bit_vector);
        assert((word & 0x0F00) >> 8 == (word >> 8) & 0xF) by (bit_vector);
        assert((word & 0x00F0) >> 4 == (word >> 4) & 0xF) by (bit_vector);
        assert((word >> 8) & 0xF < 16 && (word >> 4) & 0xF < 16 && word & 0xF < 16) by (bit_vector);
        assert(word == 0x00E0 ==> word & 0xF000 == 0x0000) by (bit_vector);
    }
    match word & 0xF000 {
        0x0000 => {
            if word == 0x00E0 {
                Instr::ClearScreen
            } else {
                Instr::Unknown(word)
            }
        },
        0x1000 => Instr::Jump(word & 0x0FFF),
        0x6000 => Instr::SetVx(((word & 0x0F00) >> 8) as usize, (word & 0x00FF) as u8),
        0x7000 => Instr::AddVx(((word & 0x0F00) >> 8) as usize, (word & 0x00FF) as u8),
        0xA000 => Instr::SetIReg(word & 0x0FFF),
        0xD000 => Instr::Draw(
            ((word & 0x0F00) >> 8) as usize,
            ((word & 0x00F0) >> 4) as usize,
            (word & 0x000F) as u8,
        ),
        _ => Instr::Unknown(word),
    }
}

/// The state transition a known instruction performs; an unknown word halts
/// the run and performs none.
pub open spec fn spec_execute(s: EmuView, instr: Instr) -> EmuView {
    match instr {
        Instr::ClearScreen => spec_clear_screen(s),
        Instr::Jump(address) => spec_jump(s, address),
        Instr::SetVx(x, nn) => spec_set_vx(s, x as int, nn),
        Instr::AddVx(x, nn) => spec_add_vx(s, x as int, nn),
        Instr::SetIReg(address) => spec_set_i_reg(s, address),
        Instr::Draw(x, y, n) => spec_draw(s, x as int, y as int, n),
        Instr::Unknown(_) => s,
    }
}

impl Emu {
    /// Dispatcher: route one decoded, known instruction to its execute
    /// handler. A draw needs its sprite rows inside memory; register
    /// selectors must fit the register file, as the ones [`decode`] produces
    /// do.
    pub fn execute(&mut self, instr: Instr)
        requires
            !(instr is Unknown),
            instr matches Instr::SetVx(x, _) ==> x < VREG_SIZE,
            instr matches Instr::AddVx(x, _) ==> x < VREG_SIZE,
            instr matches Instr::Draw(x, y, n) ==> x < VREG_SIZE && y < VREG_SIZE && (n > 0
                ==> old(self).i_reg as int + n as int <= RAM_SIZE),
        ensures
            final(self)@ == spec_execute(old(self)@, instr),
    {
        match instr {
            Instr::ClearScreen => self.op_00e0_clear_screen(),
            Instr::Jump(address) => self.op_1nnn_jump(address),
            Instr::SetVx(x, nn) => self.op_6xnn_set_vx(x, nn),
            Instr::AddVx(x, nn) => self.op_7xnn_add_vx(x, nn),
            Instr::SetIReg(address) => self.op_annn_set_i_reg(address),
            Instr::Draw(x, y, n) => self.op_dxyn_draw(x, y, n),
            Instr::Unknown(_) => {
                proof {
                    assert(false);
                }
            },
        }
    }
}

} // verus!
