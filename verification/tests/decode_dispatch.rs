use chip8::emu::Emu;
use chip8::instr::Instr;
use chip8::instr::decode;

#[test]
fn test_decode_clear_screen() {
    assert_eq!(decode(0x00E0), Instr::ClearScreen);
}

#[test]
fn test_decode_jump() {
    assert_eq!(decode(0x1ABC), Instr::Jump(0xABC));
    assert_eq!(decode(0x1000), Instr::Jump(0x000));
}

#[test]
fn test_decode_set_vx() {
    assert_eq!(decode(0x6AFF), Instr::SetVx(0xA, 0xFF));
    assert_eq!(decode(0x6000), Instr::SetVx(0x0, 0x00));
}

#[test]
fn test_decode_add_vx() {
    assert_eq!(decode(0x7312), Instr::AddVx(0x3, 0x12));
}

#[test]
fn test_decode_set_i_reg() {
    assert_eq!(decode(0xA123), Instr::SetIReg(0x123));
}

#[test]
fn test_decode_draw() {
    assert_eq!(decode(0xD9A7), Instr::Draw(0x9, 0xA, 0x7));
}

#[test]
fn test_decode_unknown_opcodes() {
    // A class-0 word other than the single no-operand case is unknown.
    assert_eq!(decode(0x00EE), Instr::Unknown(0x00EE));
    assert_eq!(decode(0x0000), Instr::Unknown(0x0000));
    // Unimplemented classes are unknown, whatever their operands.
    assert_eq!(decode(0x2123), Instr::Unknown(0x2123));
    assert_eq!(decode(0x8001), Instr::Unknown(0x8001));
    assert_eq!(decode(0xFFFF), Instr::Unknown(0xFFFF));
}

#[test]
fn test_execute_set_and_add() {
    let emu = &mut Emu::new();
    emu.execute(decode(0x6A2B));
    assert_eq!(emu.v_reg[0xA], 0x2B);
    emu.execute(decode(0x7A05));
    assert_eq!(emu.v_reg[0xA], 0x30);
}

#[test]
fn test_execute_jump_and_set_i_reg() {
    let emu = &mut Emu::new();
    emu.execute(decode(0x1400));
    assert_eq!(emu.pc, 0x400);
    emu.execute(decode(0xA250));
    assert_eq!(emu.i_reg, 0x250);
}

#[test]
fn test_execute_clear_screen() {
    let emu = &mut Emu::new();
    emu.screen[100] = true;
    emu.execute(decode(0x00E0));
    for &pixel in emu.screen.iter() {
        assert_eq!(pixel, false);
    }
}

#[test]
fn test_execute_draw() {
    let emu = &mut Emu::new();
    emu.execute(decode(0xA200));
    emu.memory[0x200] = 0b10000000;
    emu.execute(decode(0xD011));
    assert_eq!(emu.screen[0], true);
    assert_eq!(emu.screen[1], false);
    assert_eq!(emu.v_reg[0xF], 0);
}

#[test]
fn test_fetch_decode_execute_cycle() {
    let emu = &mut Emu::new();
    // A small program image: set register 0, set the index register, draw one
    // sprite row, then jump back to the start.
    let program: [u16; 4] = [0x6003, 0xA200, 0xD011, 0x1000];
    for (j, word) in program.iter().enumerate() {
        emu.memory[2 * j] = (word >> 8) as u8;
        emu.memory[2 * j + 1] = (word & 0xFF) as u8;
    }
    emu.memory[0x200] = 0b11000000;
    for _ in 0..4 {
        let opcode = emu.fetch();
        let instr = decode(opcode);
        assert!(!matches!(instr, Instr::Unknown(_)));
        emu.execute(instr);
    }
    // Register 0 holds 3, so the sprite was drawn with its left edge at
    // column 3; the jump then returned the program counter to the start.
    assert_eq!(emu.v_reg[0], 3);
    assert_eq!(emu.i_reg, 0x200);
    assert_eq!(emu.screen[2], false);
    assert_eq!(emu.screen[3], true);
    assert_eq!(emu.screen[4], true);
    assert_eq!(emu.screen[5], false);
    assert_eq!(emu.pc, 0);
}
