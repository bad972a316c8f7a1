use chip8::emu::Emu;
use chip8::emu::SCREEN_WIDTH;

#[test]
fn main_test_memory_initialization() {
    let chip8 = Emu::new();
    for &byte in chip8.memory.iter() {
        assert_eq!(byte, 0);
    }
}

#[test]
fn main_test_fetch_instruction() {
    let chip8 = &mut Emu::new();
    chip8.memory[0] = 0xAB;
    chip8.memory[1] = 0xCD;
    let actual = chip8.fetch();
    let expected = 0xABCD;
    assert_eq!(actual, expected);
}

#[test]
fn main_test_fetch_instruction_increments_pc() {
    let chip8 = &mut Emu::new();
    let expected = chip8.pc + 2;
    let _ = chip8.fetch();
    assert_eq!(chip8.pc, expected);
}

#[test]
fn main_test_op_00e0_clear_screen() {
    let chip8 = &mut Emu::new();
    chip8.screen[0] = true;
    chip8.op_00e0_clear_screen();
    for &pixel in chip8.screen.iter() {
        assert_eq!(pixel, false);
    }
}

#[test]
fn main_test_op_1nnn_jump() {
    let chip8 = &mut Emu::new();
    chip8.memory[0] = 0x12;
    chip8.memory[1] = 0x34;
    let address: u16 = 0x234;
    chip8.op_1nnn_jump(address);
    assert_eq!(chip8.pc, address);
}

#[test]
fn main_test_op_6xnn_set_vx() {
    let chip8 = &mut Emu::new();
    chip8.memory[0] = 0x60;
    chip8.memory[1] = 0xFF;
    let opcode = chip8.fetch();
    let x = ((opcode & 0x0F00) >> 8) as usize;
    let nn = (opcode & 0x00FF) as u8;
    chip8.v_reg[x] = nn;
    assert_eq!(chip8.v_reg[x], 0xFF);
}

#[test]
fn main_test_op_7xnn_add_vx() {
    let chip8 = &mut Emu::new();
    let old_carry = chip8.v_reg[0xF];
    chip8.v_reg[0] = 0x10;
    chip8.op_7xnn_add_vx(0, 0x20);
    assert_eq!(chip8.v_reg[0], 0x30);

    chip8.v_reg[1] = 0xFF;
    chip8.op_7xnn_add_vx(1, 0x02);
    assert_eq!(chip8.v_reg[1], 0x01); // Overflow wraps around

    assert_eq!(chip8.v_reg[0xF], old_carry); // Carry flag unchanged
}

#[test]
fn main_test_op_annn_set_i_reg() {
    let chip8 = &mut Emu::new();
    let address: u16 = 0x300;
    chip8.op_annn_set_i_reg(address);
    assert_eq!(chip8.i_reg, address);
}

#[test]
fn main_test_dxyn_draw() {
    let chip8 = &mut Emu::new();
    chip8.i_reg = 0x200;
    chip8.memory[0x200] = 0b11110000;
    chip8.v_reg[0] = 0; // x coordinate
    chip8.v_reg[1] = 0; // y coordinate
    chip8.op_dxyn_draw(0, 1, 1);
    assert_eq!(chip8.screen[0], true);
    assert_eq!(chip8.screen[1], true);
    assert_eq!(chip8.screen[2], true);
    assert_eq!(chip8.screen[3], true);
    assert_eq!(chip8.screen[4], false);
    assert_eq!(chip8.v_reg[0xF], 0); // No pixels flipped

    // Draw the same sprite again to test pixel flipping
    chip8.op_dxyn_draw(0, 1, 1);
    assert_eq!(chip8.screen[0], false);
    assert_eq!(chip8.screen[1], false);
    assert_eq!(chip8.screen[2], false);
    assert_eq!(chip8.screen[3], false);
    assert_eq!(chip8.v_reg[0xF], 1); // Pixels flipped

    chip8.memory[0x201] = 0b11111111;
    chip8.v_reg[0] = 60; // x coordinate near edge
    chip8.v_reg[1] = 30; // y coordinate near edge
    chip8.op_dxyn_draw(0, 1, 1);
    // Only the first 4 pixels should be drawn
    assert_eq!(chip8.screen[30 * SCREEN_WIDTH + 60], true);
    assert_eq!(chip8.screen[30 * SCREEN_WIDTH + 61], true);
    assert_eq!(chip8.screen[30 * SCREEN_WIDTH + 62], true);
    assert_eq!(chip8.screen[30 * SCREEN_WIDTH + 63], true);
    assert_eq!(chip8.v_reg[0xF], 0); // No pixels flipped
}
