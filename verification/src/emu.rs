//! Machine state, the fetch stage, and the execute handlers that touch no
//! sprite data: screen clear, jump, immediate register set, wrapping
//! immediate add, and index-register set.

use vstd::prelude::*;

verus! {

/// Number of byte-addressable memory cells.
pub const RAM_SIZE: usize = 4096;

/// Display width in cells.
pub const SCREEN_WIDTH: usize = 64;

/// Display height in cells.
pub const SCREEN_HEIGHT: usize = 32;

/// Number of display cells, row-major.
pub const SCREEN_CELLS: usize = 2048;

/// Number of general-purpose registers.
pub const VREG_SIZE: usize = 16;

/// Index of the register that the draw handler repurposes as a flags
/// register to report pixel collision.
pub const FLAG_REG: usize = 15;

/// Mathematical model of the machine state: the program counter, memory as a
/// sequence of bytes, the display as a row-major sequence of lit/unlit cells,
/// the index register, and the register file as a sequence of bytes.
#[verifier::ext_equal]
pub ghost struct EmuView {
    pub pc: u16,
    pub memory: Seq<u8>,
    pub screen: Seq<bool>,
    pub i_reg: u16,
    pub v_reg: Seq<u8>,
}

impl EmuView {
    /// The fixed sizes of the machine's storage.
    pub open spec fn wf(self) -> bool {
        &&& self.memory.len() == RAM_SIZE
        &&& self.screen.len() == SCREEN_CELLS
        &&& self.v_reg.len() == VREG_SIZE
    }
}

/// The state of a freshly constructed machine: everything zeroed, every
/// display cell unlit.
pub open spec fn init_view() -> EmuView {
    EmuView {
        pc: 0,
        memory: Seq::new(RAM_SIZE as nat, |i: int| 0u8),
        screen: Seq::new(SCREEN_CELLS as nat, |i: int| false),
        i_reg: 0,
        v_reg: Seq::new(VREG_SIZE as nat, |i: int| 0u8),
    }
}

/// The instruction word composed big-endian from a high and a low byte.
pub open spec fn word_be(hi: u8, lo: u8) -> u16 {
    ((hi as u16) << 8) | (lo as u16)
}

/// The word that a fetch at `s.pc` returns.
pub open spec fn fetched_word(s: EmuView) -> u16 {
    word_be(s.memory[s.pc as int], s.memory[s.pc as int + 1])
}

/// State transition of the fetch stage: the program counter advances by
/// exactly 2; nothing else changes.
pub open spec fn spec_fetch(s: EmuView) -> EmuView {
    EmuView { pc: (s.pc + 2) as u16, ..s }
}

/// State transition of the screen-clear handler: every display cell becomes
/// unlit, regardless of prior contents; nothing else changes.
pub open spec fn spec_clear_screen(s: EmuView) -> EmuView {
    EmuView { screen: Seq::new(SCREEN_CELLS as nat, |i: int| false), ..s }
}

/// State transition of the jump handler: the program counter becomes
/// `address` exactly; nothing else changes.
pub open spec fn spec_jump(s: EmuView, address: u16) -> EmuView {
    EmuView { pc: address, ..s }
}

/// State transition of the immediate register-set handler: register `x`
/// becomes `nn`; nothing else changes.
pub open spec fn spec_set_vx(s: EmuView, x: int, nn: u8) -> EmuView {
    EmuView { v_reg: s.v_reg.update(x, nn), ..s }
}

/// State transition of the wrapping immediate-add handler: register `x`
/// becomes `register[x] + nn` modulo 256; nothing else changes — in
/// particular the flags register is not touched unless it is the target.
pub open spec fn spec_add_vx(s: EmuView, x: int, nn: u8) -> EmuView {
    EmuView { v_reg: s.v_reg.update(x, ((s.v_reg[x] + nn) % 256) as u8), ..s }
}

/// State transition of the index-register-set handler: the index register
/// becomes `address`; nothing else changes.
pub open spec fn spec_set_i_reg(s: EmuView, address: u16) -> EmuView {
    EmuView { i_reg: address, ..s }
}

/// A jump sets the program counter to the given address exactly, even right
/// after a fetch: it overrides the fetch-driven advance.
pub proof fn lemma_jump_overrides_fetch(s: EmuView, address: u16)
    ensures
        spec_jump(s, address).pc == address,
        spec_jump(spec_fetch(s), address).pc == address,
{
}

/// An immediate register set assigns the value directly and has no side
/// effect on any other register, on memory, on the display, or on either
/// address register.
pub proof fn lemma_set_vx_targets_one_register(s: EmuView, x: int, nn: u8)
    requires
        s.wf(),
        0 <= x < VREG_SIZE,
    ensures
        spec_set_vx(s, x, nn).v_reg[x] == nn,
        forall|j: int| 0 <= j < VREG_SIZE && j != x ==> spec_set_vx(s, x, nn).v_reg[j] == s.v_reg[j],
        spec_set_vx(s, x, nn).memory == s.memory,
        spec_set_vx(s, x, nn).screen == s.screen,
        spec_set_vx(s, x, nn).pc == s.pc,
        spec_set_vx(s, x, nn).i_reg == s.i_reg,
{
}

/// An index-register set assigns the value directly and has no side effect
/// on any general register, on memory, on the display, or on the program
/// counter.
pub proof fn lemma_set_i_reg_targets_only_index(s: EmuView, address: u16)
    ensures
        spec_set_i_reg(s, address).i_reg == address,
        spec_set_i_reg(s, address).v_reg == s.v_reg,
        spec_set_i_reg(s, address).memory == s.memory,
        spec_set_i_reg(s, address).screen == s.screen,
        spec_set_i_reg(s, address).pc == s.pc,
{
}

/// An immediate add wraps modulo 256 and, unless the flags register is
/// itself the target, leaves the flags register — and every other register,
/// memory, the display, and both address registers — unchanged.
pub proof fn lemma_add_vx_wraps(s: EmuView, x: int, nn: u8)
    requires
        s.wf(),
        0 <= x < VREG_SIZE,
    ensures
        spec_add_vx(s, x, nn).v_reg[x] == (s.v_reg[x] + nn) % 256,
        forall|j: int| 0 <= j < VREG_SIZE && j != x ==> spec_add_vx(s, x, nn).v_reg[j] == s.v_reg[j],
        x != FLAG_REG ==> spec_add_vx(s, x, nn).v_reg[FLAG_REG as int] == s.v_reg[FLAG_REG as int],
        spec_add_vx(s, x, nn).memory == s.memory,
        spec_add_vx(s, x, nn).screen == s.screen,
        spec_add_vx(s, x, nn).pc == s.pc,
        spec_add_vx(s, x, nn).i_reg == s.i_reg,
{
}

/// Clearing the screen twice in a row is equivalent to clearing it once: the
/// result never depends on the prior display contents.
pub proof fn lemma_clear_screen_idempotent(s: EmuView)
    ensures
        spec_clear_screen(spec_clear_screen(s)) == spec_clear_screen(s),
{
    assert(spec_clear_screen(spec_clear_screen(s)) =~= spec_clear_screen(s));
}

/// The machine state: program counter, memory, display, index register, and
/// the sixteen general-purpose registers. The fields are plain data; the
/// surrounding loader and renderer read and write them directly.
pub struct Emu {
    pub pc: u16,
    pub memory: [u8; RAM_SIZE],
    pub screen: [bool; SCREEN_CELLS],
    pub i_reg: u16,
    pub v_reg: [u8; VREG_SIZE],
}

impl View for Emu {
    type V = EmuView;

    open spec fn view(&self) -> EmuView {
        EmuView {
            pc: self.pc,
            memory: self.memory@,
            screen: self.screen@,
            i_reg: self.i_reg,
            v_reg: self.v_reg@,
        }
    }
}

impl Emu {
    /// Construct a fully zeroed machine.
    pub fn new() -> (emu: Emu)
        ensures
            emu@ == init_view(),
            emu@.wf(),
    {
        let emu = Emu {
            pc: 0,
            memory: [0u8; RAM_SIZE],
            screen: [false; SCREEN_CELLS],
            i_reg: 0,
            v_reg: [0u8; VREG_SIZE],
        };
        proof {
            assert(emu@ =~= init_view());
        }
        emu
    }

    /// Fetch stage: read the byte at the program counter as the high byte and
    /// the next byte as the low byte, compose them big-endian, and advance
    /// the program counter by exactly 2.
    pub fn fetch(&mut self) -> (word: u16)
        requires
            old(self).pc as int + 1 < RAM_SIZE,
        ensures
            word == fetched_word(old(self)@),
            word == word_be(
                old(self)@.memory[old(self).pc as int],
                old(self)@.memory[old(self).pc as int + 1],
            ),
            final(self)@ == spec_fetch(old(self)@),
    {
        let hi = self.memory[self.pc as usize] as u16;
        let lo = self.memory[(self.pc + 1) as usize] as u16;
        self.pc = self.pc + 2;
        (hi << 8) | lo
    }

    /// Screen-clear handler: set every display cell unlit.
    pub fn op_00e0_clear_screen(&mut self)
        ensures
            final(self)@ == spec_clear_screen(old(self)@),
            forall|k: int| 0 <= k < SCREEN_CELLS ==> !final(self)@.screen[k],
    {
        let mut idx: usize = 0;
        while idx < SCREEN_CELLS
            invariant
                idx <= SCREEN_CELLS,
                self.pc == old(self).pc,
                self.memory@ == old(self).memory@,
                self.i_reg == old(self).i_reg,
                self.v_reg@ == old(self).v_reg@,
                forall|k: int| 0 <= k < idx ==> !self.screen@[k],
                forall|k: int| idx <= k < SCREEN_CELLS ==> self.screen@[k] == old(self).screen@[k],
            decreases SCREEN_CELLS - idx,
        {
            self.screen[idx] = false;
            idx = idx + 1;
        }
        proof {
            assert(self@ =~= spec_clear_screen(old(self)@));
        }
    }

    /// Jump handler: the program counter becomes `address` exactly,
    /// overriding any fetch-driven advance.
    pub fn op_1nnn_jump(&mut self, address: u16)
        ensures
            final(self)@ == spec_jump(old(self)@, address),
            final(self).pc == address,
    {
        self.pc = address;
    }

    /// Immediate register-set handler: register `x` becomes `nn`.
    pub fn op_6xnn_set_vx(&mut self, x: usize, nn: u8)
        requires
            x < VREG_SIZE,
        ensures
            final(self)@ == spec_set_vx(old(self)@, x as int, nn),
    {
        self.v_reg[x] = nn;
        proof {
            assert(self@ =~= spec_set_vx(old(self)@, x as int, nn));
        }
    }

    /// Wrapping immediate-add handler: register `x` becomes
    /// `register[x] + nn` modulo 256. This operation does not touch the
    /// flags register.
    pub fn op_7xnn_add_vx(&mut self, x: usize, nn: u8)
        requires
            x < VREG_SIZE,
        ensures
            final(self)@ == spec_add_vx(old(self)@, x as int, nn),
    {
        let result = self.v_reg[x].wrapping_add(nn);
        self.v_reg[x] = result;
        proof {
            assert(self@ =~= spec_add_vx(old(self)@, x as int, nn));
        }
    }

    /// Index-register-set handler: the index register becomes `address`.
    pub fn op_annn_set_i_reg(&mut self, address: u16)
        ensures
            final(self)@ == spec_set_i_reg(old(self)@, address),
            final(self).i_reg == address,
    {
        self.i_reg = address;
    }
}

} // verus!
