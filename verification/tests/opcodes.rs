use chip8::emulator::Chip8;
use chip8::error::Chip8Error;
use chip8::keypad::Keypad;
use chip8::opcode::Opcode;

fn new_headless_chip8() -> Chip8 {
    Chip8::new(&[], false).unwrap()
}

#[test]
fn test_opcode_add() {
    let mut chip8 = new_headless_chip8();
    let mut keypad = Keypad::new();
    chip8.regs[0xF] = 200;
    chip8.current_instruction = 0x7F64;

    let opcode = chip8.decode().unwrap();
    chip8.execute(opcode, &mut keypad).unwrap();

    // no overflow in this instruction
    assert_eq!(chip8.regs[0xF], 44);

    chip8.regs[0] = 20;
    chip8.current_instruction = 0x7064;

    let opcode = chip8.decode().unwrap();
    chip8.execute(opcode, &mut keypad).unwrap();

    assert_eq!(chip8.regs[0], 120);
}

#[test]
fn test_opcode_sub_y() {
    let mut chip8 = new_headless_chip8();
    let mut keypad = Keypad::new();
    chip8.regs[0xF] = 10;
    chip8.current_instruction = 0x8FF7;

    let opcode = chip8.decode().unwrap();
    chip8.execute(opcode, &mut keypad).unwrap();

    assert_eq!(chip8.regs[0xF], 1);

    chip8.regs[0x1] = 10;
    chip8.regs[0x2] = 15;
    chip8.current_instruction = 0x8125;

    let opcode = chip8.decode().unwrap();
    chip8.execute(opcode, &mut keypad).unwrap();

    assert_eq!(chip8.regs[1], 251);
    assert_eq!(chip8.regs[0xF], 0);
}

#[test]
fn test_opcode_clear() {
    let mut chip8 = new_headless_chip8();
    let mut keypad = Keypad::new();
    chip8.framebuffer = vec![1; 64 * 32];
    chip8.current_instruction = 0x00E0;

    let opcode = chip8.decode().unwrap();
    chip8.execute(opcode, &mut keypad).unwrap();

    assert_eq!(chip8.framebuffer, vec![0; 64 * 32]);
}

#[test]
fn test_opcode_jump() {
    let mut chip8 = new_headless_chip8();
    let mut keypad = Keypad::new();
    chip8.current_instruction = 0x1234;

    let opcode = chip8.decode().unwrap();
    chip8.execute(opcode, &mut keypad).unwrap();

    assert_eq!(chip8.pc, 0x234);
}

#[test]
fn test_opcode_store_bcd() {
    let mut chip8 = new_headless_chip8();
    let mut keypad = Keypad::new();
    chip8.i = 0x300;
    chip8.regs[6] = 137;
    chip8.current_instruction = 0xF633;

    let opcode = chip8.decode().unwrap();
    chip8.execute(opcode, &mut keypad).unwrap();

    assert_eq!(chip8.memory[0x300], 1);
    assert_eq!(chip8.memory[0x301], 3);
    assert_eq!(chip8.memory[0x302], 7);

    chip8.regs[6] = 65;
    chip8.current_instruction = 0xF633;

    let opcode = chip8.decode().unwrap();
    chip8.execute(opcode, &mut keypad).unwrap();

    assert_eq!(chip8.memory[0x300], 0);
    assert_eq!(chip8.memory[0x301], 6);
    assert_eq!(chip8.memory[0x302], 5);

    chip8.regs[6] = 4;
    chip8.current_instruction = 0xF633;

    let opcode = chip8.decode().unwrap();
    chip8.execute(opcode, &mut keypad).unwrap();

    assert_eq!(chip8.memory[0x300], 0);
    assert_eq!(chip8.memory[0x301], 0);
    assert_eq!(chip8.memory[0x302], 4);
}

#[test]
fn test_opcode_store_regs_detailed() {
    let mut chip8 = new_headless_chip8();
    let mut keypad = Keypad::new();

    chip8.regs[0] = 0;
    chip8.regs[1] = 48;

    let scratchpad: u16 = 0x300;
    chip8.i = scratchpad;

    chip8.current_instruction = 0xF155;
    let opcode = chip8.decode().unwrap();
    chip8.execute(opcode, &mut keypad).unwrap();

    assert_eq!(chip8.memory[scratchpad as usize], 0, "Memory[I] should be 0");
    assert_eq!(chip8.memory[(scratchpad + 1) as usize], 48, "Memory[I+1] should be 48");

    chip8.regs[0] = 0xFF;
    chip8.regs[1] = 0xFF;

    chip8.i = scratchpad;
    chip8.current_instruction = 0xF065;
    let opcode = chip8.decode().unwrap();
    chip8.execute(opcode, &mut keypad).unwrap();

    let v1_temp = chip8.regs[0];

    chip8.i = scratchpad + 1;
    chip8.current_instruction = 0xF065;
    let opcode = chip8.decode().unwrap();
    chip8.execute(opcode, &mut keypad).unwrap();

    assert_eq!(chip8.regs[0], 48, "v0 should be 48 after loading from scratchpad+1");
    assert_eq!(v1_temp, 0, "v1_temp should be 0 after loading from scratchpad");
}

#[test]
fn test_opcode_load_regs() {
    let mut chip8 = new_headless_chip8();
    let mut keypad = Keypad::new();
    chip8.i = 0x300;
    for i in 0..=5 {
        chip8.memory[0x300 + i] = i as u8 * 10;
    }
    chip8.current_instruction = 0xF565;

    let opcode = chip8.decode().unwrap();
    chip8.execute(opcode, &mut keypad).unwrap();

    for i in 0..=5 {
        assert_eq!(chip8.regs[i], i as u8 * 10);
    }
}

#[test]
fn test_add_overflow_flag() {
    let mut chip8 = new_headless_chip8();
    let mut keypad = Keypad::new();

    // 200 + 100 wraps to 44 and raises the carry flag.
    chip8.regs[0] = 200;
    chip8.regs[1] = 100;
    chip8.current_instruction = 0x8014;
    let opcode = chip8.decode().unwrap();
    chip8.execute(opcode, &mut keypad).unwrap();
    assert_eq!(chip8.regs[0], 44);
    assert_eq!(chip8.regs[0xF], 1);

    // 20 + 30 fits and clears the carry flag.
    chip8.regs[2] = 20;
    chip8.regs[3] = 30;
    chip8.current_instruction = 0x8234;
    let opcode = chip8.decode().unwrap();
    chip8.execute(opcode, &mut keypad).unwrap();
    assert_eq!(chip8.regs[2], 50);
    assert_eq!(chip8.regs[0xF], 0);
}

#[test]
fn test_sub_no_borrow() {
    let mut chip8 = new_headless_chip8();
    let mut keypad = Keypad::new();

    // 15 - 10 needs no borrow: VF is 1.
    chip8.regs[1] = 15;
    chip8.regs[2] = 10;
    chip8.current_instruction = 0x8125;
    let opcode = chip8.decode().unwrap();
    chip8.execute(opcode, &mut keypad).unwrap();
    assert_eq!(chip8.regs[1], 5);
    assert_eq!(chip8.regs[0xF], 1);
}

#[test]
fn test_decode_variants() {
    let mut chip8 = new_headless_chip8();

    chip8.current_instruction = 0x00E0;
    assert_eq!(chip8.decode().unwrap(), Opcode::Clear);
    chip8.current_instruction = 0x00EE;
    assert_eq!(chip8.decode().unwrap(), Opcode::Return);
    chip8.current_instruction = 0x2ABC;
    assert_eq!(chip8.decode().unwrap(), Opcode::Call(0xABC));
    chip8.current_instruction = 0x3A42;
    assert_eq!(chip8.decode().unwrap(), Opcode::SkipEqualVal(0xA, 0x42));
    chip8.current_instruction = 0x8AB6;
    assert_eq!(chip8.decode().unwrap(), Opcode::ShiftRight(0xA));
    chip8.current_instruction = 0x8ABE;
    assert_eq!(chip8.decode().unwrap(), Opcode::ShiftLeft(0xA));
    chip8.current_instruction = 0xB123;
    assert_eq!(chip8.decode().unwrap(), Opcode::JumpV0(0x123));
    chip8.current_instruction = 0xD12A;
    assert_eq!(chip8.decode().unwrap(), Opcode::Draw(1, 2, 0xA));
    chip8.current_instruction = 0xE19E;
    assert_eq!(chip8.decode().unwrap(), Opcode::SkipKey(1));
    chip8.current_instruction = 0xF10A;
    assert_eq!(chip8.decode().unwrap(), Opcode::WaitKey(1));
}

#[test]
fn test_decode_invalid_opcode() {
    let mut chip8 = new_headless_chip8();

    // Class 0 words other than clear and return decode to nothing.
    chip8.current_instruction = 0x0123;
    assert!(matches!(chip8.decode(), Err(Chip8Error::InvalidOpcode(0x0123))));

    // 5XY1 is not an instruction (5XY0 is).
    chip8.current_instruction = 0x5121;
    assert!(matches!(chip8.decode(), Err(Chip8Error::InvalidOpcode(0x5121))));

    // 8XY8 is not an instruction.
    chip8.current_instruction = 0x8128;
    assert!(matches!(chip8.decode(), Err(Chip8Error::InvalidOpcode(0x8128))));
}

#[test]
fn test_shift_flags() {
    let mut chip8 = new_headless_chip8();
    let mut keypad = Keypad::new();

    // Shift right stores the dropped low bit in VF.
    chip8.regs[3] = 0b0000_0101;
    chip8.current_instruction = 0x8306;
    let opcode = chip8.decode().unwrap();
    chip8.execute(opcode, &mut keypad).unwrap();
    assert_eq!(chip8.regs[3], 0b0000_0010);
    assert_eq!(chip8.regs[0xF], 1);

    // Shift left stores the dropped high bit in VF.
    chip8.regs[4] = 0b1100_0000;
    chip8.current_instruction = 0x84AE;
    let opcode = chip8.decode().unwrap();
    chip8.execute(opcode, &mut keypad).unwrap();
    assert_eq!(chip8.regs[4], 0b1000_0000);
    assert_eq!(chip8.regs[0xF], 1);
}

#[test]
fn test_random_masked() {
    let mut chip8 = new_headless_chip8();
    let mut keypad = Keypad::new();

    // A zero mask forces a zero result whatever the random byte was.
    chip8.regs[1] = 0xAA;
    chip8.current_instruction = 0xC100;
    let opcode = chip8.decode().unwrap();
    chip8.execute(opcode, &mut keypad).unwrap();
    assert_eq!(chip8.regs[1], 0);

    // Bits outside the mask always come back clear.
    chip8.current_instruction = 0xC20F;
    let opcode = chip8.decode().unwrap();
    chip8.execute(opcode, &mut keypad).unwrap();
    assert_eq!(chip8.regs[2] & 0xF0, 0);
}

#[test]
fn test_sprite_address() {
    let mut chip8 = new_headless_chip8();
    let mut keypad = Keypad::new();

    // The glyph for digit 3 sits 3 * 5 bytes into the font table.
    chip8.regs[0] = 0x03;
    chip8.current_instruction = 0xF029;
    let opcode = chip8.decode().unwrap();
    chip8.execute(opcode, &mut keypad).unwrap();
    assert_eq!(chip8.i, 0x050 + 15);

    // Only the low nibble of the register names the glyph.
    chip8.regs[0] = 0xA7;
    chip8.current_instruction = 0xF029;
    let opcode = chip8.decode().unwrap();
    chip8.execute(opcode, &mut keypad).unwrap();
    assert_eq!(chip8.i, 0x050 + 35);
}

#[test]
fn test_draw_collision() {
    let mut chip8 = new_headless_chip8();
    let mut keypad = Keypad::new();

    // An 8x1 sprite of all set bits, drawn at (0, 0).
    chip8.memory[0x300] = 0xFF;
    chip8.i = 0x300;
    chip8.regs[0] = 0;
    chip8.regs[1] = 0;
    chip8.current_instruction = 0xD011;

    // First draw on an all-zero framebuffer: pixels set, no collision.
    let opcode = chip8.decode().unwrap();
    chip8.execute(opcode, &mut keypad).unwrap();
    assert_eq!(chip8.regs[0xF], 0);
    for col in 0..8 {
        assert_eq!(chip8.framebuffer[col], 1);
    }

    // Second draw of the same sprite at the same position: every pixel
    // flips back off and the collision flag is raised.
    let opcode = chip8.decode().unwrap();
    chip8.execute(opcode, &mut keypad).unwrap();
    assert_eq!(chip8.regs[0xF], 1);
    for col in 0..8 {
        assert_eq!(chip8.framebuffer[col], 0);
    }
}

#[test]
fn test_draw_clips_at_edges() {
    let mut chip8 = new_headless_chip8();
    let mut keypad = Keypad::new();

    // A 2-row sprite drawn at the bottom-right corner: only the top-left
    // bit of it is on screen; nothing wraps around.
    chip8.memory[0x300] = 0xFF;
    chip8.memory[0x301] = 0xFF;
    chip8.i = 0x300;
    chip8.regs[0] = 63;
    chip8.regs[1] = 31;
    chip8.current_instruction = 0xD012;

    let opcode = chip8.decode().unwrap();
    chip8.execute(opcode, &mut keypad).unwrap();

    assert_eq!(chip8.framebuffer[31 * 64 + 63], 1);
    let set_cells: usize = chip8.framebuffer.iter().map(|&c| c as usize).sum();
    assert_eq!(set_cells, 1);
}

#[test]
fn test_skip_instructions() {
    let mut chip8 = new_headless_chip8();
    let mut keypad = Keypad::new();

    // skip-if-equal-immediate takes the skip.
    chip8.pc = 0x202;
    chip8.regs[1] = 0x42;
    chip8.current_instruction = 0x3142;
    let opcode = chip8.decode().unwrap();
    chip8.execute(opcode, &mut keypad).unwrap();
    assert_eq!(chip8.pc, 0x204);

    // skip-if-not-equal-immediate does not.
    chip8.current_instruction = 0x4142;
    let opcode = chip8.decode().unwrap();
    chip8.execute(opcode, &mut keypad).unwrap();
    assert_eq!(chip8.pc, 0x204);

    // skip-if-registers-equal takes it again.
    chip8.regs[2] = 0x42;
    chip8.current_instruction = 0x5120;
    let opcode = chip8.decode().unwrap();
    chip8.execute(opcode, &mut keypad).unwrap();
    assert_eq!(chip8.pc, 0x206);
}

#[test]
fn test_wait_key() {
    let mut chip8 = new_headless_chip8();
    let mut keypad = Keypad::new();

    // No pending key: the program counter steps back to refetch the same
    // instruction next cycle.
    chip8.pc = 0x204;
    chip8.current_instruction = 0xF30A;
    let opcode = chip8.decode().unwrap();
    chip8.execute(opcode, &mut keypad).unwrap();
    assert_eq!(chip8.pc, 0x202);

    // A pending key is consumed exactly once.
    keypad.pending = Some(0xB);
    let opcode = chip8.decode().unwrap();
    chip8.execute(opcode, &mut keypad).unwrap();
    assert_eq!(chip8.regs[3], 0xB);
    assert_eq!(keypad.pending, None);
    assert_eq!(chip8.pc, 0x202);
}

#[test]
fn test_skip_key_invalid_register() {
    let mut chip8 = new_headless_chip8();
    let mut keypad = Keypad::new();

    // A key code above 0xF cannot name a key.
    chip8.regs[1] = 0x10;
    chip8.current_instruction = 0xE19E;
    let opcode = chip8.decode().unwrap();
    let result = chip8.execute(opcode, &mut keypad);
    assert!(matches!(result, Err(Chip8Error::InvalidRegister(0x10))));
}

#[test]
fn test_skip_key_pressed() {
    let mut chip8 = new_headless_chip8();
    let mut keypad = Keypad::new();

    keypad.set_key(0x5, true);
    chip8.pc = 0x202;
    chip8.regs[1] = 0x5;

    chip8.current_instruction = 0xE19E;
    let opcode = chip8.decode().unwrap();
    chip8.execute(opcode, &mut keypad).unwrap();
    assert_eq!(chip8.pc, 0x204);

    chip8.current_instruction = 0xE1A1;
    let opcode = chip8.decode().unwrap();
    chip8.execute(opcode, &mut keypad).unwrap();
    assert_eq!(chip8.pc, 0x204);

    keypad.set_key(0x5, false);
    chip8.current_instruction = 0xE1A1;
    let opcode = chip8.decode().unwrap();
    chip8.execute(opcode, &mut keypad).unwrap();
    assert_eq!(chip8.pc, 0x206);
}

#[test]
fn test_store_load_round_trip() {
    let mut chip8 = new_headless_chip8();
    let mut keypad = Keypad::new();

    for v in 0..6u8 {
        chip8.regs[v as usize] = v * 11 + 1;
    }
    chip8.i = 0x340;

    chip8.current_instruction = 0xF555;
    let opcode = chip8.decode().unwrap();
    chip8.execute(opcode, &mut keypad).unwrap();
    assert_eq!(chip8.i, 0x340, "store leaves I unmodified");

    // Clobber the registers, then load them back.
    for v in 0..6u8 {
        chip8.regs[v as usize] = 0xEE;
    }
    chip8.current_instruction = 0xF565;
    let opcode = chip8.decode().unwrap();
    chip8.execute(opcode, &mut keypad).unwrap();

    assert_eq!(chip8.i, 0x340, "load leaves I unmodified");
    for v in 0..6u8 {
        assert_eq!(chip8.regs[v as usize], v * 11 + 1);
    }
}

#[test]
fn test_register_ops() {
    let mut chip8 = new_headless_chip8();
    let mut keypad = Keypad::new();

    // set-immediate, copy, or, and, xor.
    chip8.current_instruction = 0x61F0;
    let opcode = chip8.decode().unwrap();
    chip8.execute(opcode, &mut keypad).unwrap();
    assert_eq!(chip8.regs[1], 0xF0);

    chip8.current_instruction = 0x6233;
    let opcode = chip8.decode().unwrap();
    chip8.execute(opcode, &mut keypad).unwrap();
    assert_eq!(chip8.regs[2], 0x33);

    chip8.current_instruction = 0x8321;
    let opcode = chip8.decode().unwrap();
    chip8.execute(opcode, &mut keypad).unwrap();
    assert_eq!(chip8.regs[3], 0x00 | 0x33);

    chip8.current_instruction = 0x8122;
    let opcode = chip8.decode().unwrap();
    chip8.execute(opcode, &mut keypad).unwrap();
    assert_eq!(chip8.regs[1], 0xF0 & 0x33);

    chip8.current_instruction = 0x8313;
    let opcode = chip8.decode().unwrap();
    chip8.execute(opcode, &mut keypad).unwrap();
    assert_eq!(chip8.regs[3], 0x33 ^ 0x30);

    chip8.current_instruction = 0x8430;
    let opcode = chip8.decode().unwrap();
    chip8.execute(opcode, &mut keypad).unwrap();
    assert_eq!(chip8.regs[4], chip8.regs[3]);
}

#[test]
fn test_index_ops() {
    let mut chip8 = new_headless_chip8();
    let mut keypad = Keypad::new();

    chip8.current_instruction = 0xA123;
    let opcode = chip8.decode().unwrap();
    chip8.execute(opcode, &mut keypad).unwrap();
    assert_eq!(chip8.i, 0x123);

    // add-to-index.
    chip8.regs[1] = 0x20;
    chip8.current_instruction = 0xF11E;
    let opcode = chip8.decode().unwrap();
    chip8.execute(opcode, &mut keypad).unwrap();
    assert_eq!(chip8.i, 0x143);
}

#[test]
fn test_jump_with_v0_offset() {
    let mut chip8 = new_headless_chip8();
    let mut keypad = Keypad::new();

    // The BNNN form adds V0 (never Vx) to the 12-bit literal.
    chip8.regs[0] = 5;
    chip8.regs[1] = 99;
    chip8.current_instruction = 0xB100;
    let opcode = chip8.decode().unwrap();
    chip8.execute(opcode, &mut keypad).unwrap();
    assert_eq!(chip8.pc, 0x105);
}

#[test]
fn test_timer_opcodes() {
    let mut chip8 = new_headless_chip8();
    let mut keypad = Keypad::new();

    chip8.regs[2] = 42;
    chip8.current_instruction = 0xF215;
    let opcode = chip8.decode().unwrap();
    chip8.execute(opcode, &mut keypad).unwrap();
    assert_eq!(chip8.delay_timer, 42);

    chip8.current_instruction = 0xF218;
    let opcode = chip8.decode().unwrap();
    chip8.execute(opcode, &mut keypad).unwrap();
    assert_eq!(chip8.sound_timer, 42);

    chip8.current_instruction = 0xF307;
    let opcode = chip8.decode().unwrap();
    chip8.execute(opcode, &mut keypad).unwrap();
    assert_eq!(chip8.regs[3], 42);
}
