use deca::{
    Byte, Chip8, Chip8Error, Font, Instruction, LoResDxy0Behavior, Options, Quirks, Register,
};

fn quirks_off() -> Quirks {
    Quirks {
        shift: None,
        load_store: None,
        jump0: None,
        logic: None,
        clip: None,
        vblank: None,
        res_clear: None,
        delay_wrap: None,
        lores_dxy0: None,
        multi_collision: None,
    }
}

fn chip8_with(quirks: Quirks) -> Chip8 {
    Chip8::new(Options { start_address: None, font_style: Font::Octo, quirks })
}

fn plain() -> Chip8 {
    chip8_with(quirks_off())
}

fn lit_cells(chip8: &Chip8) -> Vec<(usize, usize, u8)> {
    let mut cells = Vec::new();
    for r in 0..64 {
        for c in 0..128 {
            if chip8.display.display[r][c] != 0 {
                cells.push((r, c, chip8.display.display[r][c]));
            }
        }
    }
    cells
}

#[test]
fn add_registers_sets_the_carry() {
    let mut chip8 = plain();
    chip8.v[0] = 0xFF;
    chip8.v[1] = 0x02;
    let add = Instruction::Add(Register::V0, Byte::Register(Register::V1));
    assert_eq!(chip8.execute(add), Ok(()));
    assert_eq!(chip8.v[0], 0x01);
    assert_eq!(chip8.v[0xF], 1);
    assert_eq!(chip8.execute(add), Ok(()));
    assert_eq!(chip8.v[0], 0x03);
    assert_eq!(chip8.v[0xF], 0);
}

#[test]
fn add_from_memory_sets_the_carry() {
    let mut chip8 = plain();
    chip8.v[0] = 0xFF;
    chip8.v[1] = 0x02;
    chip8.read_rom(&[0x80, 0x14]);
    assert_eq!(chip8.run(1), Ok(()));
    assert_eq!(chip8.v[0], 0x01);
    assert_eq!(chip8.v[0xF], 1);
}

#[test]
fn add_to_the_flag_register_adds_to_the_carry() {
    let mut chip8 = plain();
    chip8.v[0xF] = 0xFF;
    chip8.v[1] = 0x02;
    chip8.execute(Instruction::Add(Register::VF, Byte::Register(Register::V1))).unwrap();
    // The carry is written first, then the sum is taken.
    assert_eq!(chip8.v[0xF], 1 + 2);
}

#[test]
fn add_immediate_wraps_and_keeps_the_flag() {
    let mut chip8 = plain();
    chip8.v[2] = 0xFE;
    chip8.v[0xF] = 7;
    chip8.execute(Instruction::Add(Register::V2, Byte::Immediate(3))).unwrap();
    assert_eq!(chip8.v[2], 1);
    assert_eq!(chip8.v[0xF], 7);
}

#[test]
fn sub_sets_the_flag_when_nothing_is_borrowed() {
    let mut chip8 = plain();
    chip8.v[2] = 0x0A;
    chip8.v[3] = 0x05;
    chip8.read_rom(&[0x82, 0x35, 0x82, 0x35, 0x82, 0x35]);
    assert_eq!(chip8.run(1), Ok(()));
    assert_eq!((chip8.v[2], chip8.v[0xF]), (0x05, 1));
    assert_eq!(chip8.run(1), Ok(()));
    assert_eq!((chip8.v[2], chip8.v[0xF]), (0x00, 1));
    assert_eq!(chip8.run(1), Ok(()));
    assert_eq!((chip8.v[2], chip8.v[0xF]), (0xFB, 0));
}

#[test]
fn sub_reverse_subtracts_from_the_other_register() {
    let mut chip8 = plain();
    chip8.v[2] = 0x03;
    chip8.v[3] = 0x0A;
    let sub = Instruction::SubReverse(Register::V2, Register::V3);
    chip8.execute(sub).unwrap();
    assert_eq!((chip8.v[2], chip8.v[3], chip8.v[0xF]), (0x07, 0x0A, 1));
    chip8.v[2] = 0x0B;
    chip8.execute(sub).unwrap();
    assert_eq!((chip8.v[2], chip8.v[0xF]), (0xFF, 0));
    chip8.v[2] = 0x0A;
    chip8.execute(sub).unwrap();
    assert_eq!((chip8.v[2], chip8.v[0xF]), (0x00, 1));
}

#[test]
fn shifts_take_the_other_register_without_the_quirk() {
    let mut chip8 = plain();
    chip8.v[1] = 0xFF;
    chip8.v[2] = 0b1000_0101;
    chip8.execute(Instruction::ShiftRight(Register::V1, Register::V2)).unwrap();
    assert_eq!((chip8.v[1], chip8.v[2], chip8.v[0xF]), (0b0100_0010, 0b1000_0101, 1));
    chip8.execute(Instruction::ShiftLeft(Register::V1, Register::V2)).unwrap();
    assert_eq!((chip8.v[1], chip8.v[2], chip8.v[0xF]), (0b0000_1010, 0b1000_0101, 1));
    chip8.v[2] = 0b0100_0010;
    chip8.execute(Instruction::ShiftLeft(Register::V1, Register::V2)).unwrap();
    assert_eq!((chip8.v[1], chip8.v[0xF]), (0b1000_0100, 0));
    chip8.execute(Instruction::ShiftRight(Register::V1, Register::V2)).unwrap();
    assert_eq!((chip8.v[1], chip8.v[0xF]), (0b0010_0001, 0));
}

#[test]
fn shifts_work_in_place_with_the_quirk() {
    let mut quirks = quirks_off();
    quirks.shift = Some(true);
    let mut chip8 = chip8_with(quirks);
    chip8.v[1] = 0b1000_0011;
    chip8.v[2] = 0;
    chip8.execute(Instruction::ShiftRight(Register::V1, Register::V2)).unwrap();
    assert_eq!((chip8.v[1], chip8.v[2], chip8.v[0xF]), (0b0100_0001, 0, 1));
    chip8.v[1] = 0b1000_0011;
    chip8.execute(Instruction::ShiftLeft(Register::V1, Register::V2)).unwrap();
    assert_eq!((chip8.v[1], chip8.v[2], chip8.v[0xF]), (0b0000_0110, 0, 1));
}

#[test]
fn shifting_the_flag_register_keeps_the_shifted_value() {
    let mut chip8 = plain();
    chip8.v[2] = 0b0000_0111;
    chip8.execute(Instruction::ShiftRight(Register::VF, Register::V2)).unwrap();
    assert_eq!(chip8.v[0xF], 0b0000_0011);
}

#[test]
fn logic_leaves_the_flag_without_the_quirk() {
    let mut chip8 = plain();
    chip8.v[0xF] = 9;
    chip8.v[1] = 0b1100;
    chip8.v[2] = 0b1010;
    chip8.execute(Instruction::Or(Register::V1, Register::V2)).unwrap();
    assert_eq!((chip8.v[1], chip8.v[0xF]), (0b1110, 9));
    chip8.v[1] = 0b1100;
    chip8.execute(Instruction::And(Register::V1, Register::V2)).unwrap();
    assert_eq!((chip8.v[1], chip8.v[0xF]), (0b1000, 9));
    chip8.v[1] = 0b1100;
    chip8.execute(Instruction::Xor(Register::V1, Register::V2)).unwrap();
    assert_eq!((chip8.v[1], chip8.v[0xF]), (0b0110, 9));
}

#[test]
fn logic_resets_the_flag_with_the_quirk() {
    let mut quirks = quirks_off();
    quirks.logic = Some(true);
    let mut chip8 = chip8_with(quirks);
    for instruction in [
        Instruction::Or(Register::V1, Register::V2),
        Instruction::And(Register::V1, Register::V2),
        Instruction::Xor(Register::V1, Register::V2),
    ] {
        chip8.v[0xF] = 9;
        chip8.v[1] = 0b1100;
        chip8.v[2] = 0b1010;
        chip8.execute(instruction).unwrap();
        assert_eq!(chip8.v[0xF], 0);
        assert_ne!(chip8.v[1], 0);
    }
    chip8.v[0xF] = 0b1100;
    chip8.v[2] = 0b1010;
    chip8.execute(Instruction::Or(Register::VF, Register::V2)).unwrap();
    assert_eq!(chip8.v[0xF], 0);
}

#[test]
fn set_register_from_both_operands() {
    let mut chip8 = plain();
    chip8.execute(Instruction::SetRegister(Register::V7, Byte::Immediate(0x77))).unwrap();
    chip8.execute(Instruction::SetRegister(Register::V8, Byte::Register(Register::V7))).unwrap();
    assert_eq!((chip8.v[7], chip8.v[8]), (0x77, 0x77));
}

#[test]
fn jump_and_relative_jump() {
    let mut chip8 = plain();
    chip8.execute(Instruction::Jump(0x345)).unwrap();
    assert_eq!(chip8.pc, 0x345);
    chip8.v[3] = 0x10;
    chip8.v[0] = 0x01;
    chip8.execute(Instruction::JumpRelative(0x320)).unwrap();
    assert_eq!(chip8.pc, 0x01 + 0x320);

    let mut quirks = quirks_off();
    quirks.jump0 = Some(true);
    let mut chip8 = chip8_with(quirks);
    chip8.v[3] = 0x10;
    chip8.v[0] = 0x01;
    chip8.execute(Instruction::JumpRelative(0x320)).unwrap();
    assert_eq!(chip8.pc, 0x10 + 0x320);
}

#[test]
fn relative_jump_from_memory() {
    for (jump0, target) in [(Some(true), 0x10 + 0x320), (Some(false), 0x01 + 0x320), (None, 0x321)]
    {
        let mut quirks = quirks_off();
        quirks.jump0 = jump0;
        let mut chip8 = chip8_with(quirks);
        chip8.v[3] = 0x10;
        chip8.v[0] = 0x01;
        chip8.read_rom(&[0xB3, 0x20]);
        assert_eq!(chip8.run(1), Ok(()));
        assert_eq!(chip8.pc, target);
    }
}

#[test]
fn relative_jump_wraps() {
    let mut chip8 = plain();
    chip8.v[0] = 0xFF;
    chip8.execute(Instruction::JumpRelative(0xFFFF)).unwrap();
    assert_eq!(chip8.pc, 0x00FE);
}

#[test]
fn call_pushes_and_return_pops() {
    let mut chip8 = plain();
    chip8.pc = 0x202;
    assert_eq!(chip8.execute(Instruction::Call(0x400)), Ok(()));
    assert_eq!((chip8.pc, chip8.sp, chip8.stack[1]), (0x400, 1, 0x202));
    chip8.pc = 0x456;
    assert_eq!(chip8.execute(Instruction::Call(0x500)), Ok(()));
    assert_eq!((chip8.pc, chip8.sp, chip8.stack[2]), (0x500, 2, 0x456));
    assert_eq!(chip8.execute(Instruction::Return), Ok(()));
    assert_eq!((chip8.pc, chip8.sp), (0x456, 1));
    assert_eq!(chip8.execute(Instruction::Return), Ok(()));
    assert_eq!((chip8.pc, chip8.sp), (0x202, 0));
}

#[test]
fn call_then_return_restores_pc_at_every_depth() {
    let mut chip8 = plain();
    for depth in 0..15 {
        chip8.sp = depth;
        chip8.pc = 0x300 + depth as u16;
        assert_eq!(chip8.execute(Instruction::Call(0xABC)), Ok(()));
        assert_eq!(chip8.pc, 0xABC);
        assert_eq!(chip8.execute(Instruction::Return), Ok(()));
        assert_eq!(chip8.pc, 0x300 + depth as u16);
        assert_eq!(chip8.sp, depth);
    }
}

#[test]
fn return_on_empty_stack_fails() {
    let mut chip8 = plain();
    chip8.pc = 0x222;
    assert_eq!(chip8.execute(Instruction::Return), Err(Chip8Error::StackUnderflow));
    assert_eq!((chip8.pc, chip8.sp), (0x222, 0));
}

#[test]
fn call_on_full_stack_fails() {
    let mut chip8 = plain();
    for depth in 1..=15 {
        chip8.pc = 0x200 + depth;
        assert_eq!(chip8.execute(Instruction::Call(0x300)), Ok(()));
        assert_eq!(chip8.sp, depth as usize);
    }
    chip8.pc = 0x999;
    assert_eq!(chip8.execute(Instruction::Call(0x300)), Err(Chip8Error::StackOverflow));
    assert_eq!(chip8.sp, 16);
    assert_eq!(chip8.pc, 0x999);
    assert_eq!(chip8.stack[15], 0x20F);
}

#[test]
fn exit_and_machine_code_fail_without_a_change() {
    let mut chip8 = plain();
    assert_eq!(chip8.execute(Instruction::Exit(None)), Err(Chip8Error::Exit(None)));
    assert_eq!(chip8.execute(Instruction::Exit(Some(7))), Err(Chip8Error::Exit(Some(7))));
    assert_eq!(
        chip8.execute(Instruction::CallMachineCode(0x123)),
        Err(Chip8Error::MachineCodeUnsupported)
    );
    assert_eq!((chip8.pc, chip8.sp, chip8.i), (0x200, 0, 0));
}

#[test]
fn skips_compare_with_both_operands() {
    let mut chip8 = plain();
    chip8.v[1] = 5;
    chip8.v[2] = 5;
    chip8.v[3] = 6;
    let cases = [
        (Instruction::SkipIfEqual(Register::V1, Byte::Immediate(5)), true),
        (Instruction::SkipIfEqual(Register::V1, Byte::Immediate(6)), false),
        (Instruction::SkipIfEqual(Register::V1, Byte::Register(Register::V2)), true),
        (Instruction::SkipIfEqual(Register::V1, Byte::Register(Register::V3)), false),
        (Instruction::SkipIfNotEqual(Register::V1, Byte::Immediate(5)), false),
        (Instruction::SkipIfNotEqual(Register::V1, Byte::Immediate(6)), true),
        (Instruction::SkipIfNotEqual(Register::V1, Byte::Register(Register::V2)), false),
        (Instruction::SkipIfNotEqual(Register::V1, Byte::Register(Register::V3)), true),
    ];
    for (instruction, skips) in cases {
        chip8.pc = 0x300;
        assert_eq!(chip8.execute(instruction), Ok(()));
        assert_eq!(chip8.pc, if skips { 0x302 } else { 0x300 });
    }
}

#[test]
fn skip_takes_four_bytes_over_a_long_index_load() {
    let mut chip8 = plain();
    chip8.memory[0x300] = 0xF0;
    chip8.memory[0x301] = 0x00;
    chip8.pc = 0x300;
    chip8.execute(Instruction::SkipIfEqual(Register::V0, Byte::Immediate(0))).unwrap();
    assert_eq!(chip8.pc, 0x304);
    // Only the word F000 counts, and only at the next instruction.
    chip8.memory[0x301] = 0x01;
    chip8.pc = 0x300;
    chip8.execute(Instruction::SkipIfEqual(Register::V0, Byte::Immediate(0))).unwrap();
    assert_eq!(chip8.pc, 0x302);
    chip8.memory[0x302] = 0xF0;
    chip8.pc = 0x300;
    chip8.execute(Instruction::SkipIfEqual(Register::V0, Byte::Immediate(0))).unwrap();
    assert_eq!(chip8.pc, 0x302);
}

#[test]
fn skip_ignores_what_the_next_word_means() {
    let mut chip8 = plain();
    // 5001 is no instruction.
    chip8.memory[0x300] = 0x50;
    chip8.memory[0x301] = 0x01;
    chip8.pc = 0x300;
    assert_eq!(chip8.execute(Instruction::SkipIfEqual(Register::V0, Byte::Immediate(0))), Ok(()));
    assert_eq!(chip8.pc, 0x302);
}

#[test]
fn skip_wraps_at_the_end_of_memory() {
    let mut chip8 = plain();
    chip8.memory[0xFFFF] = 0xF0;
    chip8.memory[0x0000] = 0x00;
    chip8.pc = 0xFFFF;
    chip8.execute(Instruction::SkipIfEqual(Register::V0, Byte::Immediate(0))).unwrap();
    assert_eq!(chip8.pc, 0x0003);
}

#[test]
fn key_skips_look_at_the_low_nibble() {
    let mut chip8 = plain();
    chip8.keyboard[0xA] = true;
    for (value, down) in [(0x0A, true), (0xFA, true), (0x0B, false), (0x1B, false)] {
        chip8.v[4] = value;
        chip8.pc = 0x300;
        chip8.execute(Instruction::SkipKey(Register::V4)).unwrap();
        assert_eq!(chip8.pc, if down { 0x302 } else { 0x300 });
        chip8.pc = 0x300;
        chip8.execute(Instruction::SkipNotKey(Register::V4)).unwrap();
        assert_eq!(chip8.pc, if down { 0x300 } else { 0x302 });
    }
    assert!(chip8.keyboard[0xA]);
}

#[test]
fn block_key_waits_on_the_instruction() {
    let mut chip8 = plain();
    chip8.read_rom(&[0xF5, 0x0A, 0x61, 0x01]);
    for _ in 0..3 {
        assert_eq!(chip8.run(1), Ok(()));
        assert_eq!(chip8.pc, 0x200);
    }
    assert_eq!(chip8.v[5], 0);
    chip8.keyboard[7] = true;
    chip8.keyboard[9] = true;
    assert_eq!(chip8.run(1), Ok(()));
    assert_eq!(chip8.pc, 0x202);
    assert_eq!(chip8.v[5], 7);
    assert!(!chip8.keyboard[7]);
    assert!(chip8.keyboard[9]);
    assert_eq!(chip8.run(1), Ok(()));
    assert_eq!(chip8.v[1], 1);
}

#[test]
fn block_key_takes_key_zero() {
    let mut chip8 = plain();
    chip8.v[2] = 0xEE;
    chip8.keyboard[0] = true;
    chip8.keyboard[15] = true;
    chip8.pc = 0x202;
    chip8.memory[0x200] = 0xF2;
    chip8.memory[0x201] = 0x0A;
    chip8.execute(Instruction::BlockKey(Register::V2)).unwrap();
    assert_eq!(chip8.v[2], 0);
    assert_eq!(chip8.pc, 0x202);
    assert!(!chip8.keyboard[0]);
    chip8.execute(Instruction::BlockKey(Register::V2)).unwrap();
    assert_eq!(chip8.v[2], 15);
    chip8.execute(Instruction::BlockKey(Register::V2)).unwrap();
    assert_eq!(chip8.pc, 0x200);
}

#[test]
fn index_instructions() {
    let mut chip8 = plain();
    chip8.execute(Instruction::SetIndex(0x123)).unwrap();
    assert_eq!(chip8.i, 0x123);
    chip8.v[1] = 0xFF;
    chip8.execute(Instruction::AddRegisterToIndex(Register::V1)).unwrap();
    assert_eq!(chip8.i, 0x222);
    chip8.i = 0xFFFF;
    chip8.v[0xF] = 3;
    chip8.execute(Instruction::AddRegisterToIndex(Register::V1)).unwrap();
    assert_eq!(chip8.i, 0x00FE);
    assert_eq!(chip8.v[0xF], 3);
}

#[test]
fn set_index_long_reads_the_next_word() {
    let mut chip8 = plain();
    chip8.memory[0x300] = 0xBE;
    chip8.memory[0x301] = 0xEF;
    chip8.pc = 0x300;
    chip8.execute(Instruction::SetIndexLong).unwrap();
    assert_eq!(chip8.i, 0xBEEF);
    assert_eq!(chip8.pc, 0x302);
}

#[test]
fn font_characters_point_into_the_fonts() {
    let mut chip8 = plain();
    for (value, small, big) in
        [(0x00, 0x50, 0xA0), (0x01, 0x55, 0xAA), (0x0F, 0x9B, 0x136), (0xF3, 0x5F, 0xBE)]
    {
        chip8.v[6] = value;
        chip8.execute(Instruction::FontCharacter(Register::V6)).unwrap();
        assert_eq!(chip8.i, small);
        chip8.execute(Instruction::BigFontCharacter(Register::V6)).unwrap();
        assert_eq!(chip8.i, big);
    }
}

#[test]
fn bcd_stores_three_digits() {
    let mut chip8 = plain();
    chip8.i = 0x300;
    chip8.v[0] = 123;
    chip8.read_rom(&[0xF0, 0x33]);
    assert_eq!(chip8.run(1), Ok(()));
    assert_eq!(&chip8.memory[0x2FF..0x304], &[0, 1, 2, 3, 0]);
    assert_eq!(chip8.i, 0x300);
}

#[test]
fn bcd_digits_give_back_every_byte() {
    let mut chip8 = plain();
    chip8.i = 0x400;
    for value in 0..=255u8 {
        chip8.v[9] = value;
        chip8.execute(Instruction::Bcd(Register::V9)).unwrap();
        let digits = &chip8.memory[0x400..0x403];
        assert!(digits.iter().all(|digit| *digit < 10));
        assert_eq!(
            100 * digits[0] as u16 + 10 * digits[1] as u16 + digits[2] as u16,
            value as u16
        );
    }
    chip8.v[9] = 255;
    chip8.execute(Instruction::Bcd(Register::V9)).unwrap();
    assert_eq!(&chip8.memory[0x400..0x403], &[2, 5, 5]);
    chip8.v[9] = 7;
    chip8.execute(Instruction::Bcd(Register::V9)).unwrap();
    assert_eq!(&chip8.memory[0x400..0x403], &[0, 0, 7]);
}

#[test]
fn bcd_wraps_at_the_end_of_memory() {
    let mut chip8 = plain();
    chip8.i = 0xFFFE;
    chip8.v[0] = 249;
    chip8.execute(Instruction::Bcd(Register::V0)).unwrap();
    assert_eq!(chip8.memory[0xFFFE], 2);
    assert_eq!(chip8.memory[0xFFFF], 4);
    assert_eq!(chip8.memory[0x0000], 9);
}

#[test]
fn store_and_load_move_the_index_without_the_quirk() {
    let mut chip8 = plain();
    for n in 0..16 {
        chip8.v[n] = 0x10 + n as u8;
    }
    chip8.i = 0x300;
    chip8.execute(Instruction::Store(Register::V3)).unwrap();
    assert_eq!(&chip8.memory[0x2FF..0x305], &[0, 0x10, 0x11, 0x12, 0x13, 0]);
    assert_eq!(chip8.i, 0x304);

    chip8.v = [0; 16];
    chip8.execute(Instruction::Load(Register::V3)).unwrap();
    // The index was not set back: zeros are loaded.
    assert_eq!(chip8.v, [0; 16]);
    assert_eq!(chip8.i, 0x308);
    chip8.i = 0x300;
    chip8.execute(Instruction::Load(Register::V2)).unwrap();
    assert_eq!(&chip8.v[0..5], &[0x10, 0x11, 0x12, 0, 0]);
    assert_eq!(chip8.i, 0x303);
}

#[test]
fn store_then_load_gives_back_the_registers_with_the_quirk() {
    let mut quirks = quirks_off();
    quirks.load_store = Some(true);
    let mut chip8 = chip8_with(quirks);
    for x in 0..16u8 {
        for n in 0..16 {
            chip8.v[n] = 0xA0 + n as u8 + x;
        }
        let before = chip8.v;
        chip8.i = 0x300;
        let register = Register::new(x).unwrap();
        chip8.execute(Instruction::Store(register)).unwrap();
        assert_eq!(chip8.i, 0x300);
        for n in 0..=x as usize {
            chip8.v[n] = 0;
        }
        chip8.execute(Instruction::Load(register)).unwrap();
        assert_eq!(chip8.v, before);
        assert_eq!(chip8.i, 0x300);
        assert_eq!(chip8.memory[0x300 + x as usize], before[x as usize]);
    }
}

#[test]
fn store_all_registers_wraps_at_the_end_of_memory() {
    let mut chip8 = plain();
    for n in 0..16 {
        chip8.v[n] = n as u8 + 1;
    }
    chip8.i = 0xFFF8;
    chip8.execute(Instruction::Store(Register::VF)).unwrap();
    assert_eq!(&chip8.memory[0xFFF8..], &[1, 2, 3, 4, 5, 6, 7, 8]);
    assert_eq!(&chip8.memory[..9], &[9, 10, 11, 12, 13, 14, 15, 16, 0]);
    assert_eq!(chip8.i, 0x0008);
    chip8.v = [0; 16];
    chip8.i = 0xFFF8;
    chip8.execute(Instruction::Load(Register::VF)).unwrap();
    assert_eq!(chip8.v[15], 16);
    assert_eq!(chip8.v[0], 1);
}

#[test]
fn toggle_flips_the_load_store_quirk() {
    let mut chip8 = plain();
    assert_eq!(chip8.options.quirks.load_store, None);
    chip8.execute(Instruction::ToggleLoadStoreQuirk).unwrap();
    assert_eq!(chip8.options.quirks.load_store, Some(true));
    chip8.i = 0x300;
    chip8.execute(Instruction::Store(Register::V1)).unwrap();
    assert_eq!(chip8.i, 0x300);
    chip8.execute(Instruction::ToggleLoadStoreQuirk).unwrap();
    assert_eq!(chip8.options.quirks.load_store, Some(false));
    chip8.execute(Instruction::Store(Register::V1)).unwrap();
    assert_eq!(chip8.i, 0x302);
    let mut others = quirks_off();
    others.load_store = Some(false);
    assert_eq!(chip8.options.quirks, others);
}

#[test]
fn ranges_count_up_and_down() {
    let mut chip8 = plain();
    for n in 0..16 {
        chip8.v[n] = 0x20 + n as u8;
    }
    chip8.i = 0x300;
    chip8.execute(Instruction::StoreRange(Register::V2, Register::V5)).unwrap();
    assert_eq!(&chip8.memory[0x2FF..0x305], &[0, 0x22, 0x23, 0x24, 0x25, 0]);
    assert_eq!(chip8.i, 0x300);
    chip8.execute(Instruction::StoreRange(Register::V5, Register::V2)).unwrap();
    assert_eq!(&chip8.memory[0x2FF..0x305], &[0, 0x25, 0x24, 0x23, 0x22, 0]);
    chip8.execute(Instruction::StoreRange(Register::V7, Register::V7)).unwrap();
    assert_eq!(&chip8.memory[0x2FF..0x305], &[0, 0x27, 0x24, 0x23, 0x22, 0]);

    chip8.memory[0x300..0x304].copy_from_slice(&[1, 2, 3, 4]);
    chip8.execute(Instruction::LoadRange(Register::VA, Register::VC)).unwrap();
    assert_eq!(&chip8.v[9..14], &[0x29, 1, 2, 3, 0x2D]);
    chip8.execute(Instruction::LoadRange(Register::VC, Register::VA)).unwrap();
    assert_eq!(&chip8.v[9..14], &[0x29, 3, 2, 1, 0x2D]);
    chip8.execute(Instruction::LoadRange(Register::V0, Register::V0)).unwrap();
    assert_eq!(&chip8.v[0..2], &[1, 0x21]);
    assert_eq!(chip8.i, 0x300);
}

#[test]
fn flags_keep_registers() {
    let mut chip8 = plain();
    for n in 0..16 {
        chip8.v[n] = 0x30 + n as u8;
    }
    chip8.execute(Instruction::StoreFlags(Register::V2)).unwrap();
    assert_eq!(&chip8.flags[0..4], &[0x30, 0x31, 0x32, 0]);
    chip8.v = [0; 16];
    chip8.execute(Instruction::LoadFlags(Register::V1)).unwrap();
    assert_eq!(&chip8.v[0..4], &[0x30, 0x31, 0, 0]);
    chip8.execute(Instruction::LoadFlags(Register::VF)).unwrap();
    assert_eq!(&chip8.v[0..4], &[0x30, 0x31, 0x32, 0]);
    assert_eq!(chip8.memory[0], 0);
}

#[test]
fn timers_are_set_and_read() {
    let mut chip8 = plain();
    chip8.v[1] = 0x44;
    chip8.execute(Instruction::SetDelay(Register::V1)).unwrap();
    chip8.v[1] = 0x55;
    chip8.execute(Instruction::SetSound(Register::V1)).unwrap();
    assert_eq!((chip8.delay, chip8.sound), (0x44, 0x55));
    chip8.execute(Instruction::LoadDelay(Register::V2)).unwrap();
    assert_eq!(chip8.v[2], 0x44);
}

#[test]
fn audio_instructions_change_nothing() {
    let mut chip8 = plain();
    chip8.v[1] = 0x44;
    chip8.i = 0x300;
    assert_eq!(chip8.execute(Instruction::LoadAudio), Ok(()));
    assert_eq!(chip8.execute(Instruction::SetPitch(Register::V1)), Ok(()));
    assert_eq!((chip8.pc, chip8.i, chip8.sound, chip8.v[1]), (0x200, 0x300, 0, 0x44));
    assert!(!chip8.display.dirty);
}

#[test]
fn select_plane_accepts_up_to_three() {
    let mut chip8 = plain();
    for n in 0..=3 {
        assert_eq!(chip8.execute(Instruction::SelectPlane(n)), Ok(()));
        assert_eq!(chip8.display.active_plane, n);
    }
    for n in [4, 15, 255] {
        assert_eq!(chip8.execute(Instruction::SelectPlane(n)), Err(Chip8Error::InvalidPlane(n)));
        assert_eq!(chip8.display.active_plane, 3);
    }
}

#[test]
fn display_instructions_reach_the_display() {
    let mut chip8 = plain();
    chip8.memory[0x300] = 0b1000_0000;
    chip8.i = 0x300;
    chip8.v[0] = 10;
    chip8.v[1] = 10;
    chip8.execute(Instruction::Draw(Register::V0, Register::V1, 1)).unwrap();
    assert_eq!(lit_cells(&chip8), vec![(10, 10, 1)]);
    chip8.execute(Instruction::ScrollDown(2)).unwrap();
    assert_eq!(lit_cells(&chip8), vec![(12, 10, 1)]);
    chip8.execute(Instruction::ScrollUp(1)).unwrap();
    assert_eq!(lit_cells(&chip8), vec![(11, 10, 1)]);
    chip8.execute(Instruction::ScrollRight).unwrap();
    assert_eq!(lit_cells(&chip8), vec![(11, 14, 1)]);
    chip8.execute(Instruction::ScrollLeft).unwrap();
    chip8.execute(Instruction::ScrollLeft).unwrap();
    assert_eq!(lit_cells(&chip8), vec![(11, 6, 1)]);
    chip8.execute(Instruction::Clear).unwrap();
    assert!(lit_cells(&chip8).is_empty());
    assert!(chip8.display.clear);
    assert!(chip8.display.dirty);
}

#[test]
fn resolution_switch_follows_the_quirk() {
    let mut chip8 = plain();
    chip8.memory[0x300] = 0xFF;
    chip8.i = 0x300;
    chip8.execute(Instruction::Draw(Register::V0, Register::V0, 1)).unwrap();
    chip8.execute(Instruction::HiRes).unwrap();
    assert!(chip8.display.hires);
    assert_eq!((chip8.display.width, chip8.display.height), (128, 64));
    assert_eq!(lit_cells(&chip8).len(), 8);
    chip8.options.quirks.res_clear = Some(true);
    chip8.execute(Instruction::LoRes).unwrap();
    assert!(!chip8.display.hires);
    assert_eq!((chip8.display.width, chip8.display.height), (64, 32));
    assert!(lit_cells(&chip8).is_empty());
    assert!(chip8.display.clear);
}

#[test]
fn draw_reads_rows_high_bit_first() {
    let mut chip8 = plain();
    chip8.memory[0x300..0x303].copy_from_slice(&[0b1010_0001, 0b0000_0000, 0b0100_0000]);
    chip8.i = 0x300;
    chip8.v[1] = 2;
    chip8.v[2] = 3;
    chip8.v[0xF] = 9;
    chip8.execute(Instruction::Draw(Register::V1, Register::V2, 3)).unwrap();
    assert_eq!(lit_cells(&chip8), vec![(3, 2, 1), (3, 4, 1), (3, 9, 1), (5, 3, 1)]);
    assert_eq!(chip8.v[0xF], 0);
    assert_eq!(chip8.i, 0x300);
    assert_eq!(chip8.display.active_plane, 1);
    assert!(chip8.display.dirty);
    chip8.execute(Instruction::Draw(Register::V1, Register::V2, 1)).unwrap();
    assert_eq!(lit_cells(&chip8), vec![(5, 3, 1)]);
    assert_eq!(chip8.v[0xF], 1);
}

#[test]
fn draw_clips_at_the_edges() {
    let mut chip8 = plain();
    chip8.memory[0x300..0x305].copy_from_slice(&[0xFF; 5]);
    chip8.i = 0x300;
    chip8.v[1] = 64 - 3;
    chip8.v[2] = 32 - 2;
    chip8.execute(Instruction::Draw(Register::V1, Register::V2, 5)).unwrap();
    assert_eq!(
        lit_cells(&chip8),
        vec![(30, 61, 1), (30, 62, 1), (30, 63, 1), (31, 61, 1), (31, 62, 1), (31, 63, 1)]
    );
    assert_eq!(chip8.v[0xF], 0);
}

#[test]
fn draw_on_two_planes_reads_two_sprites() {
    let mut chip8 = plain();
    chip8.memory[0x300..0x304].copy_from_slice(&[0b1100_0000, 0b1000_0000, 0b0110_0000, 0]);
    chip8.i = 0x300;
    chip8.display.plane(3);
    chip8.execute(Instruction::Draw(Register::V0, Register::V0, 2)).unwrap();
    assert_eq!(lit_cells(&chip8), vec![(0, 0, 1), (0, 1, 3), (0, 2, 2), (1, 0, 1)]);
    assert_eq!(chip8.v[0xF], 0);
    assert_eq!(chip8.display.active_plane, 3);
    assert_eq!(chip8.i, 0x300);
}

#[test]
fn draw_reports_a_collision_on_either_plane() {
    // Plane 1 collides, plane 2 does not.
    let mut chip8 = plain();
    chip8.memory[0x300..0x302].copy_from_slice(&[0x80, 0x40]);
    chip8.i = 0x300;
    chip8.display.display[0][0] = 1;
    chip8.display.clear = false;
    chip8.display.plane(3);
    chip8.v[5] = 0;
    chip8.execute(Instruction::Draw(Register::V5, Register::V5, 1)).unwrap();
    assert_eq!(chip8.v[0xF], 1);
    assert_eq!(lit_cells(&chip8), vec![(0, 1, 2)]);

    // Plane 2 collides, plane 1 does not.
    let mut chip8 = plain();
    chip8.memory[0x300..0x302].copy_from_slice(&[0x80, 0x40]);
    chip8.i = 0x300;
    chip8.display.display[0][1] = 2;
    chip8.display.clear = false;
    chip8.display.plane(3);
    chip8.execute(Instruction::Draw(Register::V5, Register::V5, 1)).unwrap();
    assert_eq!(chip8.v[0xF], 1);
    assert_eq!(lit_cells(&chip8), vec![(0, 0, 1)]);
}

#[test]
fn draw_on_plane_two_only() {
    let mut chip8 = plain();
    chip8.memory[0x300] = 0x80;
    chip8.i = 0x300;
    chip8.display.plane(2);
    chip8.execute(Instruction::Draw(Register::V0, Register::V0, 1)).unwrap();
    assert_eq!(lit_cells(&chip8), vec![(0, 0, 2)]);
    assert_eq!(chip8.display.active_plane, 2);
}

#[test]
fn draw_without_a_plane_leaves_the_flag() {
    let mut chip8 = plain();
    chip8.memory[0x300] = 0xFF;
    chip8.i = 0x300;
    chip8.v[0xF] = 9;
    chip8.display.plane(0);
    chip8.execute(Instruction::Draw(Register::V0, Register::V0, 1)).unwrap();
    assert!(lit_cells(&chip8).is_empty());
    assert_eq!(chip8.v[0xF], 9);
    assert!(!chip8.display.dirty);
}

#[test]
fn draw_with_zero_rows_follows_mode_and_quirk() {
    // Nothing in low resolution without a quirk.
    let mut chip8 = plain();
    chip8.memory[0x300..0x320].copy_from_slice(&[0xFF; 32]);
    chip8.i = 0x300;
    chip8.v[0xF] = 9;
    chip8.execute(Instruction::Draw(Register::V0, Register::V0, 0)).unwrap();
    assert!(lit_cells(&chip8).is_empty());
    assert!(!chip8.display.dirty);
    assert_eq!(chip8.v[0xF], 9);
    chip8.options.quirks.lores_dxy0 = Some(LoResDxy0Behavior::NoOp);
    chip8.execute(Instruction::Draw(Register::V0, Register::V0, 0)).unwrap();
    assert!(lit_cells(&chip8).is_empty());

    // 8 by 16 with the tall sprite.
    chip8.options.quirks.lores_dxy0 = Some(LoResDxy0Behavior::TallSprite);
    chip8.execute(Instruction::Draw(Register::V0, Register::V0, 0)).unwrap();
    assert_eq!(lit_cells(&chip8).len(), 8 * 16);
    assert_eq!(chip8.display.display[15][7], 1);
    assert_eq!(chip8.display.display[16][0], 0);
    assert_eq!(chip8.display.display[0][8], 0);
    chip8.execute(Instruction::Clear).unwrap();

    // 16 by 16 with the big sprite.
    chip8.options.quirks.lores_dxy0 = Some(LoResDxy0Behavior::BigSprite);
    chip8.execute(Instruction::Draw(Register::V0, Register::V0, 0)).unwrap();
    assert_eq!(lit_cells(&chip8).len(), 16 * 16);
    chip8.execute(Instruction::Clear).unwrap();

    // 16 by 16 in high resolution, whatever the quirk.
    chip8.options.quirks.lores_dxy0 = None;
    chip8.execute(Instruction::HiRes).unwrap();
    chip8.execute(Instruction::Draw(Register::V0, Register::V0, 0)).unwrap();
    assert_eq!(lit_cells(&chip8).len(), 16 * 16);
    assert_eq!(chip8.display.display[15][15], 1);
}

#[test]
fn wide_sprites_take_two_bytes_a_row() {
    let mut chip8 = plain();
    for row in 0..16 {
        chip8.memory[0x300 + 2 * row] = 0x80;
        chip8.memory[0x300 + 2 * row + 1] = 0x01;
    }
    chip8.memory[0x300] = 0xC0;
    chip8.i = 0x300;
    chip8.execute(Instruction::HiRes).unwrap();
    chip8.execute(Instruction::Draw(Register::V0, Register::V0, 0)).unwrap();
    let cells = lit_cells(&chip8);
    assert_eq!(cells.len(), 33);
    assert_eq!(&cells[0..3], &[(0, 0, 1), (0, 1, 1), (0, 15, 1)]);
    assert_eq!(&cells[31..33], &[(15, 0, 1), (15, 15, 1)]);
}

#[test]
fn sprite_data_wraps_at_the_end_of_memory() {
    let mut chip8 = plain();
    chip8.memory[0xFFFF] = 0x80;
    chip8.memory[0x0000] = 0x40;
    chip8.i = 0xFFFF;
    chip8.execute(Instruction::Draw(Register::V0, Register::V0, 2)).unwrap();
    assert_eq!(lit_cells(&chip8), vec![(0, 0, 1), (1, 1, 1)]);
}
