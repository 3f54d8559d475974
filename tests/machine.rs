use chip8::emulator::Emulator;
use chip8::hardware::{Keyboard, Screen};
use chip8::ops;
use chip8::vm::{Chip8, Instruction, MAX_ROM_SIZE};

fn machine_with(program: &[u8]) -> Chip8 {
    let mut vm = Chip8::create();
    vm.load_rom(program).unwrap();
    vm
}

#[test]
fn load_rom_places_bytes() {
    let mut vm = Chip8::create();
    let rom: Vec<u8> = (0..300u32).map(|k| (k * 7 % 256) as u8).collect();
    assert!(vm.load_rom(&rom).is_ok());
    for (k, b) in rom.iter().enumerate() {
        assert_eq!(vm.memory[0x200 + k], *b);
    }
    assert_eq!(vm.memory[0x200 + rom.len()], 0);
}

#[test]
fn load_rom_largest_fits() {
    let mut vm = Chip8::create();
    let rom = vec![0xAB; MAX_ROM_SIZE];
    assert!(vm.load_rom(&rom).is_ok());
    assert_eq!(vm.memory[0xFFF], 0xAB);
    assert_eq!(vm.memory[0x200], 0xAB);
}

#[test]
fn load_rom_too_large_changes_nothing() {
    let mut vm = Chip8::create();
    let before = vm.memory.clone();
    let rom = vec![0xAB; MAX_ROM_SIZE + 1];
    assert!(vm.load_rom(&rom).is_err());
    assert_eq!(vm.memory, before);
}

#[test]
fn reset_restores_power_on() {
    let mut vm = machine_with(&[0x60, 0x05, 0x22, 0x00]);
    vm.cycle();
    vm.cycle();
    vm.d_timer = 9;
    vm.s_timer = 3;
    vm.r_rpl[2] = 4;
    vm.change_mode(true);
    vm.keyboard.key_down('q');
    vm.screen.set_pixel(1, 1, true);
    vm.reset();
    assert_eq!(vm.r_pc, 0x200);
    assert!(vm.r_v.iter().all(|v| *v == 0));
    assert!(vm.r_rpl.iter().all(|v| *v == 0));
    assert_eq!(vm.r_rpl.len(), 8);
    assert!(vm.stack.is_empty());
    assert_eq!(vm.d_timer, 0);
    assert_eq!(vm.s_timer, 0);
    assert!(!vm.high_res);
    assert_eq!(vm.rate, 480);
    assert_eq!((vm.screen.rows, vm.screen.columns), (32, 64));
    for y in 0..32 {
        for x in 0..64 {
            assert!(!vm.screen.get_pixel(x, y));
        }
    }
    assert!(vm.keyboard.keys.iter().all(|k| !*k));
    assert_eq!(&vm.memory[0x50..0x55], &[0xF0, 0x90, 0x90, 0x90, 0xF0]);
    assert_eq!(&vm.memory[0x9B..0xA0], &[0xF0, 0x80, 0xF0, 0x80, 0x80]);
    assert_eq!(&vm.memory[0xA0..0xAA], &[0x3C, 0x7E, 0xE7, 0xC3, 0xC3, 0xC3, 0xC3, 0xE7, 0x7E, 0x3C]);
    assert_eq!(&vm.memory[0xFA..0x104], &[0x3C, 0x7E, 0xC3, 0xC3, 0x7F, 0x3F, 0x03, 0x03, 0x3E, 0x7C]);
    assert_eq!(vm.memory[0x104], 0);
    assert_eq!(vm.memory[0x00], 0);
    assert_eq!(vm.memory[0x200], 0);
}

#[test]
fn add_with_carry() {
    let mut vm = Chip8::create();
    vm.r_v[1] = 0xFF;
    vm.r_v[2] = 0x01;
    ops::add_vx_vy(&mut vm, &Instruction::new(0x8124));
    assert_eq!(vm.r_v[1], 0x00);
    assert_eq!(vm.r_v[0xF], 1);
}

#[test]
fn add_without_carry() {
    let mut vm = Chip8::create();
    vm.r_v[1] = 0x01;
    vm.r_v[2] = 0x01;
    vm.r_v[0xF] = 1;
    ops::add_vx_vy(&mut vm, &Instruction::new(0x8124));
    assert_eq!(vm.r_v[1], 0x02);
    assert_eq!(vm.r_v[0xF], 0);
}

#[test]
fn sub_with_borrow() {
    let mut vm = Chip8::create();
    vm.r_v[1] = 0x01;
    vm.r_v[2] = 0x02;
    ops::sub_vx_vy(&mut vm, &Instruction::new(0x8125));
    assert_eq!(vm.r_v[1], 0xFF);
    assert_eq!(vm.r_v[0xF], 0);
}

#[test]
fn sub_without_borrow() {
    let mut vm = Chip8::create();
    vm.r_v[1] = 0x02;
    vm.r_v[2] = 0x01;
    ops::sub_vx_vy(&mut vm, &Instruction::new(0x8125));
    assert_eq!(vm.r_v[1], 0x01);
    assert_eq!(vm.r_v[0xF], 1);
}

#[test]
fn subn_and_shifts() {
    let mut vm = Chip8::create();
    vm.r_v[1] = 0x03;
    vm.r_v[2] = 0x05;
    ops::subn_vy_vx(&mut vm, &Instruction::new(0x8127));
    assert_eq!((vm.r_v[1], vm.r_v[0xF]), (0x02, 1));
    vm.r_v[3] = 0x81;
    ops::shr_vx_vy(&mut vm, &Instruction::new(0x8306));
    assert_eq!((vm.r_v[3], vm.r_v[0xF]), (0x40, 1));
    vm.r_v[3] = 0x81;
    ops::shl_vx_vy(&mut vm, &Instruction::new(0x830E));
    assert_eq!((vm.r_v[3], vm.r_v[0xF]), (0x02, 1));
    vm.r_v[3] = 0x40;
    ops::shl_vx_vy(&mut vm, &Instruction::new(0x830E));
    assert_eq!((vm.r_v[3], vm.r_v[0xF]), (0x80, 0));
}

#[test]
fn bitwise_ops_leave_flag() {
    let mut vm = Chip8::create();
    vm.r_v[0xF] = 7;
    vm.r_v[1] = 0b1100;
    vm.r_v[2] = 0b1010;
    ops::or_vx_vy(&mut vm, &Instruction::new(0x8121));
    assert_eq!(vm.r_v[1], 0b1110);
    ops::and_vx_vy(&mut vm, &Instruction::new(0x8122));
    assert_eq!(vm.r_v[1], 0b1010);
    ops::xor_vx_vy(&mut vm, &Instruction::new(0x8123));
    assert_eq!(vm.r_v[1], 0);
    vm.r_v[1] = 0xFE;
    ops::add_vx_nn(&mut vm, &Instruction::new(0x7105));
    assert_eq!(vm.r_v[1], 0x03);
    assert_eq!(vm.r_v[0xF], 7);
}

#[test]
fn draw_over_set_row_collides() {
    let mut vm = Chip8::create();
    vm.memory[0x300] = 0xFF;
    vm.r_i = 0x300;
    vm.r_v[0] = 8;
    vm.r_v[1] = 4;
    for x in 8..16 {
        vm.screen.set_pixel(x, 4, true);
    }
    ops::drw_vx_vy_n(&mut vm, &Instruction::new(0xD011));
    for x in 0..64 {
        assert!(!vm.screen.get_pixel(x, 4));
    }
    assert_eq!(vm.r_v[0xF], 1);
    assert!(vm.draw_flag);
}

#[test]
fn draw_over_clear_row_sets() {
    let mut vm = Chip8::create();
    vm.memory[0x300] = 0xFF;
    vm.r_i = 0x300;
    vm.r_v[0] = 8;
    vm.r_v[1] = 4;
    vm.r_v[0xF] = 1;
    ops::drw_vx_vy_n(&mut vm, &Instruction::new(0xD011));
    for x in 0..64 {
        assert_eq!(vm.screen.get_pixel(x, 4), (8..16).contains(&x));
    }
    assert_eq!(vm.r_v[0xF], 0);
}

#[test]
fn draw_clips_at_edges() {
    let mut vm = Chip8::create();
    vm.memory[0x300] = 0xFF;
    vm.memory[0x301] = 0x81;
    vm.r_i = 0x300;
    vm.r_v[0] = 60;
    vm.r_v[1] = 31;
    ops::drw_vx_vy_n(&mut vm, &Instruction::new(0xD012));
    for x in 60..64 {
        assert!(vm.screen.get_pixel(x, 31));
    }
    assert!(!vm.screen.get_pixel(0, 0));
    assert!(!vm.screen.get_pixel(0, 31));
    assert_eq!(vm.r_v[0xF], 0);
}

#[test]
fn draw_large_sprite_in_high_res() {
    let mut vm = Chip8::create();
    ops::s8_high(&mut vm);
    ops::cls(&mut vm);
    assert_eq!((vm.screen.rows, vm.screen.columns), (64, 128));
    for k in 0..32 {
        vm.memory[0x300 + k] = if k % 2 == 0 { 0x80 } else { 0x01 };
    }
    vm.r_i = 0x300;
    vm.r_v[2] = 100;
    vm.r_v[3] = 50;
    vm.r_v[0xF] = 5;
    ops::s8_drw_vx_vy_0(&mut vm, &Instruction::new(0xD230));
    for row in 0..14u8 {
        assert!(vm.screen.get_pixel(100, 50 + row));
        assert!(vm.screen.get_pixel(115, 50 + row));
        assert!(!vm.screen.get_pixel(101, 50 + row));
    }
    assert_eq!(vm.r_v[0xF], 5);
    ops::s8_drw_vx_vy_0(&mut vm, &Instruction::new(0xD230));
    assert!(!vm.screen.get_pixel(100, 50));
    assert_eq!(vm.r_v[0xF], 1);
}

#[test]
fn cycle_dispatches_large_draw_only_in_high_res() {
    let mut vm = machine_with(&[0xD0, 0x10]);
    vm.memory[0x300] = 0xFF;
    vm.r_i = 0x300;
    vm.cycle();
    assert!(!vm.screen.get_pixel(0, 0));
    assert!(vm.draw_flag);
}

#[test]
fn skips_advance_by_four_or_two() {
    let cases: [(u16, u8, u8, bool); 8] = [
        (0x3142, 0x42, 0, true),
        (0x3142, 0x41, 0, false),
        (0x4142, 0x41, 0, true),
        (0x4142, 0x42, 0, false),
        (0x5120, 7, 7, true),
        (0x5120, 7, 8, false),
        (0x9120, 7, 8, true),
        (0x9120, 7, 7, false),
    ];
    for (word, v1, v2, skip) in cases {
        let mut vm = machine_with(&[(word >> 8) as u8, word as u8]);
        vm.r_v[1] = v1;
        vm.r_v[2] = v2;
        vm.cycle();
        assert_eq!(vm.r_pc, if skip { 0x204 } else { 0x202 });
    }
}

#[test]
fn key_skips() {
    let mut vm = machine_with(&[0xE1, 0x9E, 0x00, 0x00, 0xE1, 0xA1]);
    vm.r_v[1] = 0x15;
    vm.keyboard.key_down('4');
    vm.cycle();
    assert_eq!(vm.r_pc, 0x202);
    vm.keyboard.key_down('w');
    vm.r_pc = 0x200;
    vm.cycle();
    assert_eq!(vm.r_pc, 0x204);
    vm.cycle();
    assert_eq!(vm.r_pc, 0x206);
}

#[test]
fn key_mapping() {
    let mut kb = Keyboard::new();
    assert!(kb.key_down('x'));
    assert!(kb.keys[0]);
    assert!(kb.key_down('1'));
    assert!(kb.keys[1]);
    let before = kb.keys.clone();
    assert!(!kb.key_down('?'));
    assert_eq!(kb.keys, before);
    assert!(!kb.key_up('?'));
    assert!(kb.key_up('x'));
    assert!(!kb.keys[0]);
    assert!(kb.keys[1]);
    assert_eq!(kb.map_to('v'), Some(0xF));
    assert_eq!(kb.map_to('4'), Some(0xC));
    kb.reset();
    assert!(kb.keys.iter().all(|k| !*k));
}

#[test]
fn load_and_add_end_to_end() {
    let mut vm = machine_with(&[0x60, 0x05, 0x70, 0x03]);
    vm.cycle();
    vm.cycle();
    assert_eq!(vm.r_v[0], 8);
    assert_eq!(vm.r_pc, 0x204);
}

#[test]
fn clear_screen_end_to_end() {
    let mut vm = machine_with(&[0x00, 0xE0]);
    vm.screen.set_pixel(3, 3, true);
    vm.screen.set_pixel(63, 31, true);
    vm.cycle();
    for y in 0..32 {
        for x in 0..64 {
            assert!(!vm.screen.get_pixel(x, y));
        }
    }
    assert!(vm.draw_flag);
}

#[test]
fn exit_instruction_reports_code() {
    let mut vm = machine_with(&[0x00, 0x17, 0x00, 0xFD]);
    assert_eq!(vm.cycle(), Some(7));
    assert!(vm.running);
    assert_eq!(vm.cycle(), None);
    assert!(!vm.running);
}

#[test]
fn call_and_return() {
    let mut vm = machine_with(&[0x22, 0x06, 0x00, 0x00, 0x00, 0x00, 0x00, 0xEE]);
    vm.cycle();
    assert_eq!(vm.r_pc, 0x206);
    assert_eq!(vm.stack, vec![0x202]);
    vm.cycle();
    assert_eq!(vm.r_pc, 0x202);
    assert!(vm.stack.is_empty());
}

#[test]
fn return_on_empty_stack_is_noop() {
    let mut vm = machine_with(&[0x00, 0xEE]);
    vm.cycle();
    assert_eq!(vm.r_pc, 0x202);
}

#[test]
fn jumps() {
    let mut vm = machine_with(&[0x13, 0x45]);
    vm.cycle();
    assert_eq!(vm.r_pc, 0x345);
    vm.r_v[0] = 0x10;
    ops::jp_v0_nnn(&mut vm, &Instruction::new(0xBFF8));
    assert_eq!(vm.r_pc, 0x008);
    ops::call_nnn(&mut vm);
    assert_eq!(vm.r_pc, 0x00A);
}

#[test]
fn unknown_word_only_advances() {
    let mut vm = machine_with(&[0x80, 0x18, 0xE1, 0x00, 0xF1, 0x99]);
    vm.r_v[1] = 3;
    for _ in 0..3 {
        assert_eq!(vm.cycle(), None);
    }
    assert_eq!(vm.r_pc, 0x206);
    assert_eq!(vm.r_v[0], 0);
    assert_eq!(vm.r_v[1], 3);
}

#[test]
fn index_ops() {
    let mut vm = Chip8::create();
    ops::ld_i_nnn(&mut vm, &Instruction::new(0xAFFE));
    assert_eq!(vm.r_i, 0xFFE);
    vm.r_v[4] = 3;
    ops::add_i_vx(&mut vm, &Instruction::new(0xF41E));
    assert_eq!(vm.r_i, 0x001);
    assert_eq!(vm.r_v[0xF], 1);
    ops::add_i_vx(&mut vm, &Instruction::new(0xF41E));
    assert_eq!(vm.r_i, 0x004);
    assert_eq!(vm.r_v[0xF], 0);
    vm.r_v[4] = 0xA;
    ops::ld_i_font_vx(&mut vm, &Instruction::new(0xF429));
    assert_eq!(vm.r_i, 50);
    vm.r_v[4] = 9;
    ops::s8_ld_i_font_vx(&mut vm, &Instruction::new(0xF430));
    assert_eq!(vm.r_i, 0xA0 + 90);
}

#[test]
fn bcd_digits() {
    let mut vm = Chip8::create();
    vm.r_v[5] = 254;
    vm.r_i = 0x400;
    ops::bcd_vx(&mut vm, &Instruction::new(0xF533));
    assert_eq!(&vm.memory[0x400..0x403], &[2, 5, 4]);
    assert_eq!(vm.r_i, 0x400);
}

#[test]
fn register_block_transfers() {
    let mut vm = Chip8::create();
    for k in 0..16 {
        vm.r_v[k] = k as u8 + 1;
    }
    vm.r_i = 0xFFE;
    ops::ld_i_vx(&mut vm, &Instruction::new(0xF355));
    assert_eq!(vm.memory[0xFFE], 1);
    assert_eq!(vm.memory[0xFFF], 2);
    assert_eq!(vm.memory[0x000], 3);
    assert_eq!(vm.memory[0x001], 4);
    assert_eq!(vm.memory[0x002], 0);
    assert_eq!(vm.r_i, 0xFFE);
    vm.r_i = 0x50;
    ops::ld_vx_i(&mut vm, &Instruction::new(0xF165));
    assert_eq!((vm.r_v[0], vm.r_v[1], vm.r_v[2]), (0xF0, 0x90, 3));
}

#[test]
fn rpl_flags() {
    let mut vm = Chip8::create();
    for k in 0..16 {
        vm.r_v[k] = k as u8 + 1;
    }
    ops::ld_r_vx(&mut vm, &Instruction::new(0xFF75));
    assert_eq!(vm.r_rpl, vec![1, 2, 3, 4, 5, 6, 7, 8]);
    for k in 0..16 {
        vm.r_v[k] = 0;
    }
    ops::ld_vx_r(&mut vm, &Instruction::new(0xF285));
    assert_eq!(&vm.r_v[0..4], &[1, 2, 3, 0]);
    ops::ld_vx_r(&mut vm, &Instruction::new(0xFF85));
    assert_eq!(&vm.r_v[0..9], &[1, 2, 3, 4, 5, 6, 7, 8, 0]);
}

#[test]
fn wait_for_key() {
    let mut vm = Chip8::create();
    ops::ld_vx_key(&mut vm, &Instruction::new(0xF30A));
    assert_eq!(vm.r_pc, 0x200);
    assert_eq!(vm.r_v[3], 0);
    vm.keyboard.key_down('v');
    vm.keyboard.key_down('e');
    ops::ld_vx_key(&mut vm, &Instruction::new(0xF30A));
    assert_eq!(vm.r_v[3], 6);
    assert_eq!(vm.r_pc, 0x202);
}

#[test]
fn timers() {
    let mut vm = Chip8::create();
    vm.r_v[2] = 2;
    ops::ld_dt_vx(&mut vm, &Instruction::new(0xF215));
    vm.r_v[2] = 1;
    ops::ld_st_vx(&mut vm, &Instruction::new(0xF218));
    vm.ticker();
    assert_eq!((vm.d_timer, vm.s_timer), (1, 0));
    vm.ticker();
    vm.ticker();
    assert_eq!((vm.d_timer, vm.s_timer), (0, 0));
    vm.d_timer = 5;
    ops::ld_vx_dt(&mut vm, &Instruction::new(0xF907));
    assert_eq!(vm.r_v[9], 5);
}

#[test]
fn mode_switch_keeps_framebuffer() {
    let mut vm = Chip8::create();
    vm.screen.set_pixel(5, 5, true);
    vm.change_mode(true);
    assert_eq!(vm.rate, 700);
    assert!(vm.high_res);
    assert_eq!((vm.screen.rows, vm.screen.columns), (32, 64));
    assert!(vm.screen.get_pixel(5, 5));
    ops::s8_low(&mut vm);
    assert_eq!(vm.rate, 480);
    assert!(!vm.high_res);
}

#[test]
fn scrolls() {
    let mut vm = Chip8::create();
    vm.screen.set_pixel(10, 0, true);
    vm.screen.set_pixel(62, 31, true);
    ops::s8_scd_n(&mut vm, &Instruction::new(0x00C3));
    assert!(vm.screen.get_pixel(10, 3));
    assert!(!vm.screen.get_pixel(10, 0));
    assert!(!vm.screen.get_pixel(62, 31));
    assert!(vm.draw_flag);
    ops::s8_scr(&mut vm);
    assert!(vm.screen.get_pixel(14, 3));
    assert!(!vm.screen.get_pixel(10, 3));
    ops::s8_scl(&mut vm);
    ops::s8_scl(&mut vm);
    assert!(vm.screen.get_pixel(6, 3));
    for x in 60..64 {
        assert!(!vm.screen.get_pixel(x, 3));
    }
}

#[test]
fn random_byte_is_masked() {
    let mut vm = Chip8::create();
    ops::rnd_vx_nn_with(&mut vm, &Instruction::new(0xC50F), 0xAB);
    assert_eq!(vm.r_v[5], 0x0B);
    let mut seen_nonzero = false;
    for _ in 0..200 {
        ops::rnd_vx_nn(&mut vm, &Instruction::new(0xC5FF));
        assert!(vm.r_v[5] < 0xFF);
        seen_nonzero |= vm.r_v[5] != 0;
        ops::rnd_vx_nn(&mut vm, &Instruction::new(0xC500));
        assert_eq!(vm.r_v[5], 0);
    }
    assert!(seen_nonzero);
}

#[test]
fn decode_fields() {
    let ir = Instruction::new(0xD2A7);
    assert_eq!(ir.opcode, 0xD000);
    assert_eq!(ir.x, 0x2);
    assert_eq!(ir.y, 0xA);
    assert_eq!(ir.n, 0x7);
    assert_eq!(ir.kk, 0xA7);
    assert_eq!(ir.nnn, 0x2A7);
}

#[test]
fn screen_pixels() {
    let mut s = Screen::new();
    assert_eq!((s.rows, s.columns), (32, 64));
    s.set_pixel(63, 31, true);
    assert!(s.get_pixel(63, 31));
    assert!(!s.get_pixel(62, 31));
    s.clear();
    assert!(!s.get_pixel(63, 31));
    s.resize(true);
    assert_eq!((s.rows, s.columns), (64, 128));
    s.set_pixel(127, 63, true);
    assert!(s.get_pixel(127, 63));
}

#[test]
fn emulator_host_calls() {
    let mut emu = Emulator::new();
    assert_eq!(emu.get_rate(), 480);
    assert_eq!((emu.get_rows(), emu.get_columns()), (32, 64));
    assert!(!emu.get_high_res());
    emu.load_rom(vec![0x00, 0xFF, 0x00, 0xE0, 0x60, 0x02, 0xF0, 0x18]);
    emu.cycle();
    assert!(emu.get_high_res());
    assert_eq!(emu.get_rate(), 700);
    emu.cycle();
    assert_eq!((emu.get_rows(), emu.get_columns()), (64, 128));
    assert!(emu.is_draw_flag());
    emu.set_draw_flag(false);
    assert!(!emu.is_draw_flag());
    emu.cycle();
    emu.cycle();
    assert_eq!(emu.get_sound_timer(), 2);
    emu.ticker();
    assert_eq!(emu.get_sound_timer(), 1);
    assert!(!emu.get_pixel(200, 200));
    assert!(emu.key_down('z'));
    assert!(emu.chip8.keyboard.keys[0xA]);
    assert!(emu.key_up('z'));
    assert!(!emu.key_up('!'));
    emu.key_down('z');
    emu.reset_keys();
    assert!(!emu.chip8.keyboard.keys[0xA]);
    assert!(!emu.toggle_running());
    assert!(emu.toggle_running());
    emu.reset();
    assert_eq!(emu.chip8.r_pc, 0x200);
    assert_eq!(emu.get_sound_timer(), 0);
    emu.load_rom(vec![1; MAX_ROM_SIZE + 1]);
    assert_eq!(emu.chip8.memory[0x200], 0);
}
