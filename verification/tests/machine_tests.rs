use chip_egg::Chip8;
use chip_egg::HostKey;
use chip_egg::Options;
use chip_egg::Quirks;

const UNDERFLOW: &str = "Attempted to pop from empty stack.";
const OVERFLOW: &str = "Stack limit reached.";

fn machine_with(rom: Vec<u8>) -> Chip8 {
    let mut c = Chip8::new(Options::new());
    c.load_rom(rom);
    c
}

fn run(c: &mut Chip8, opcode: u16) {
    assert_eq!(c.execute(opcode, 0), Ok(()));
}

#[test]
fn new_machine_holds_the_font_and_starts_at_the_program_base() {
    let c = Chip8::new(Options::new());
    assert_eq!(c.program_counter(), 0x200);
    assert_eq!(c.index_register(), 0);
    assert_eq!(c.registers(), [0u8; 16]);
    assert_eq!(c.stack_depth(), 0);
    assert_eq!(c.delay_timer(), 0);
    assert_eq!(c.sound_timer(), 0);
    assert_eq!(c.keyboard(), [false; 16]);
    let memory = c.memory();
    assert_eq!(memory[0x4F], 0);
    assert_eq!(&memory[0x50..0x55], &[0xF0, 0x90, 0x90, 0x90, 0xF0]);
    assert_eq!(&memory[0x55..0x5A], &[0x20, 0x60, 0x20, 0x20, 0x70]);
    assert_eq!(&memory[0x9B..0xA0], &[0xF0, 0x80, 0xF0, 0x80, 0x80]);
    assert_eq!(memory[0xA0], 0);
    assert_eq!(&memory[0x50..0xA0], &Options::new().font()[..]);
    assert!(c.display().redraw());
    assert_eq!(c.display().display(), [[0u8; 32]; 64]);
}

#[test]
fn custom_font_is_copied_to_the_font_base() {
    let mut font = [0u8; 80];
    for i in 0..80 {
        font[i] = i as u8 + 1;
    }
    let options = Options::with(font, Quirks::default());
    assert_eq!(options.font(), font);
    assert_eq!(options.quirks(), Quirks::default());
    let c = Chip8::new(options);
    assert_eq!(c.memory()[0x50], 1);
    assert_eq!(c.memory()[0x9F], 80);
    assert_eq!(c.memory()[0xA0], 0);
}

#[test]
fn load_rom_copies_to_the_program_base() {
    let c = machine_with(vec![0xAB, 0xCD, 0xEF]);
    assert_eq!(&c.memory()[0x1FF..0x204], &[0x00, 0xAB, 0xCD, 0xEF, 0x00]);
    assert_eq!(c.memory()[0x50], 0xF0);
    let full = machine_with(vec![0x11; 4096 - 0x200]);
    assert_eq!(full.memory()[0x200], 0x11);
    assert_eq!(full.memory()[0xFFF], 0x11);
    assert_eq!(full.memory()[0x1FF], 0x00);
}

#[test]
fn fetch_reads_big_endian_and_advances() {
    let mut c = machine_with(vec![0x60, 0x05, 0x12, 0x34]);
    assert_eq!(c.fetch(), 0x6005);
    assert_eq!(c.program_counter(), 0x202);
    assert_eq!(c.fetch(), 0x1234);
    assert_eq!(c.program_counter(), 0x204);
    assert_eq!(c.fetch(), 0x0000);
}

#[test]
fn fetch_wraps_at_the_end_of_memory() {
    let mut rom = vec![0u8; 4096 - 0x200];
    rom[0xFFF - 0x200] = 0xA7;
    let mut c = machine_with(rom);
    run(&mut c, 0x1FFF);
    assert_eq!(c.program_counter(), 0x0FFF);
    assert_eq!(c.fetch(), 0xA700);
    assert_eq!(c.program_counter(), 0x1001);
    run(&mut c, 0x6AFF);
    run(&mut c, 0x60FF);
    run(&mut c, 0xBFFF);
    assert_eq!(c.program_counter(), 0x10FE);
    // 0x10FE names cell 0x0FE, which is empty
    assert_eq!(c.fetch(), 0x0000);
    assert_eq!(c.program_counter(), 0x1100);
}

#[test]
fn load_add_then_return_on_empty_stack() {
    let mut c = machine_with(vec![0x60, 0x05, 0x70, 0x03, 0x00, 0xEE]);
    assert_eq!(c.step(0, 0), Ok(()));
    assert_eq!(c.registers()[0], 5);
    assert_eq!(c.step(0, 0), Ok(()));
    assert_eq!(c.registers()[0], 8);
    assert_eq!(c.step(0, 0), Err(String::from(UNDERFLOW)));
    assert_eq!(c.registers()[0], 8);
    assert_eq!(c.program_counter(), 0x206);
    assert_eq!(c.stack_depth(), 0);
}

#[test]
fn timers_count_down_at_sixty_hertz_and_stop_at_zero() {
    let mut c = machine_with(vec![0x60, 0x02, 0xF0, 0x15, 0xF0, 0x18]);
    assert_eq!(c.step(0, 0), Ok(()));
    assert_eq!(c.step(0, 0), Ok(()));
    assert_eq!(c.step(0, 0), Ok(()));
    assert_eq!(c.delay_timer(), 2);
    assert_eq!(c.sound_timer(), 2);
    assert_eq!(c.step(16665, 0), Ok(()));
    assert_eq!(c.delay_timer(), 2);
    assert_eq!(c.step(16666, 0), Ok(()));
    assert_eq!(c.delay_timer(), 1);
    assert_eq!(c.sound_timer(), 1);
    // many steps within one period: one tick
    assert_eq!(c.step(20000, 0), Ok(()));
    assert_eq!(c.step(33331, 0), Ok(()));
    assert_eq!(c.delay_timer(), 1);
    assert_eq!(c.step(33332, 0), Ok(()));
    assert_eq!(c.delay_timer(), 0);
    assert_eq!(c.sound_timer(), 0);
    assert_eq!(c.step(49998, 0), Ok(()));
    assert_eq!(c.delay_timer(), 0);
    assert_eq!(c.sound_timer(), 0);
    // a clock that runs backwards does not tick
    run(&mut c, 0x6003);
    run(&mut c, 0xF015);
    assert_eq!(c.step(10, 0), Ok(()));
    assert_eq!(c.delay_timer(), 3);
}

#[test]
fn delay_timer_is_read_into_a_register() {
    let mut c = machine_with(vec![]);
    run(&mut c, 0x6A2A);
    run(&mut c, 0xFA15);
    run(&mut c, 0xF307);
    assert_eq!(c.registers()[3], 0x2A);
    run(&mut c, 0xFA18);
    assert_eq!(c.sound_timer(), 0x2A);
}

#[test]
fn jump_sets_the_program_counter() {
    let mut c = machine_with(vec![]);
    run(&mut c, 0x1ABC);
    assert_eq!(c.program_counter(), 0x0ABC);
    run(&mut c, 0x6010);
    run(&mut c, 0xB300);
    assert_eq!(c.program_counter(), 0x0310);
}

#[test]
fn calls_and_returns_form_a_stack() {
    let mut c = machine_with(vec![]);
    let mut return_addresses = Vec::new();
    for i in 0..16u16 {
        return_addresses.push(c.program_counter());
        run(&mut c, 0x2300 + 2 * i);
        assert_eq!(c.program_counter(), 0x0300 + 2 * i);
        assert_eq!(c.stack_depth(), i as usize + 1);
    }
    assert_eq!(c.execute(0x2400, 0), Err(String::from(OVERFLOW)));
    assert_eq!(c.stack_depth(), 16);
    assert_eq!(c.program_counter(), 0x031E);
    for i in (0..16).rev() {
        run(&mut c, 0x00EE);
        assert_eq!(c.program_counter(), return_addresses[i]);
        assert_eq!(c.stack_depth(), i);
    }
    assert_eq!(c.program_counter(), 0x200);
    assert_eq!(c.execute(0x00EE, 0), Err(String::from(UNDERFLOW)));
    assert_eq!(c.program_counter(), 0x200);
}

#[test]
fn call_returns_behind_the_call() {
    let mut c = machine_with(vec![0x22, 0x06, 0x61, 0x01, 0x00, 0x00, 0x62, 0x02, 0x00, 0xEE]);
    assert_eq!(c.step(0, 0), Ok(()));
    assert_eq!(c.program_counter(), 0x206);
    assert_eq!(c.step(0, 0), Ok(()));
    assert_eq!(c.step(0, 0), Ok(()));
    assert_eq!(c.program_counter(), 0x202);
    assert_eq!(c.step(0, 0), Ok(()));
    assert_eq!(c.registers()[1], 1);
    assert_eq!(c.registers()[2], 2);
}

#[test]
fn skips_compare_registers_and_immediates() {
    let mut c = machine_with(vec![]);
    run(&mut c, 0x6111);
    run(&mut c, 0x6211);
    run(&mut c, 0x6322);
    let mut expected = 0x200;
    for (opcode, skips) in [
        (0x3111, true),
        (0x3112, false),
        (0x4111, false),
        (0x4112, true),
        (0x5120, true),
        (0x5130, false),
        (0x9120, false),
        (0x9130, true),
    ] {
        run(&mut c, opcode);
        if skips {
            expected += 2;
        }
        assert_eq!(c.program_counter(), expected);
    }
}

#[test]
fn load_and_add_immediate_wrap_without_flag() {
    let mut c = machine_with(vec![]);
    run(&mut c, 0x65F0);
    run(&mut c, 0x7520);
    assert_eq!(c.registers()[5], 0x10);
    assert_eq!(c.registers()[15], 0);
}

#[test]
fn register_copy_and_logic() {
    let mut c = machine_with(vec![]);
    run(&mut c, 0x61CA);
    run(&mut c, 0x62A3);
    run(&mut c, 0x8320);
    assert_eq!(c.registers()[3], 0xA3);
    run(&mut c, 0x8311);
    assert_eq!(c.registers()[3], 0xEB);
    run(&mut c, 0x6300 + 0xA3);
    run(&mut c, 0x8312);
    assert_eq!(c.registers()[3], 0x82);
    run(&mut c, 0x63A3);
    run(&mut c, 0x8313);
    assert_eq!(c.registers()[3], 0x69);
    assert_eq!(c.registers()[1], 0xCA);
    assert_eq!(c.registers()[2], 0xA3);
}

#[test]
fn add_sets_the_flag_on_carry() {
    for (a, b) in [(200u8, 100u8), (1, 2), (255, 1), (255, 0), (128, 128), (0, 0), (255, 255)] {
        let mut c = machine_with(vec![]);
        run(&mut c, 0x6000 + a as u16);
        run(&mut c, 0x6100 + b as u16);
        run(&mut c, 0x6F07);
        run(&mut c, 0x8014);
        let sum = a as u16 + b as u16;
        assert_eq!(c.registers()[0], (sum % 256) as u8);
        assert_eq!(c.registers()[15], if sum > 255 { 1 } else { 0 });
        assert_eq!(c.registers()[1], b);
    }
    let mut c = machine_with(vec![]);
    run(&mut c, 0x60C8);
    run(&mut c, 0x6164);
    run(&mut c, 0x8014);
    assert_eq!(c.registers()[0], 44);
    assert_eq!(c.registers()[15], 1);
}

#[test]
fn subtract_clears_the_flag_on_borrow() {
    let mut c = machine_with(vec![]);
    run(&mut c, 0x6005);
    run(&mut c, 0x610A);
    run(&mut c, 0x8015);
    assert_eq!(c.registers()[0], 251);
    assert_eq!(c.registers()[15], 0);
    run(&mut c, 0x600A);
    run(&mut c, 0x6105);
    run(&mut c, 0x8015);
    assert_eq!(c.registers()[0], 5);
    assert_eq!(c.registers()[15], 1);
    run(&mut c, 0x6007);
    run(&mut c, 0x6107);
    run(&mut c, 0x8015);
    assert_eq!(c.registers()[0], 0);
    assert_eq!(c.registers()[15], 1);
}

#[test]
fn reverse_subtract_takes_the_first_from_the_second() {
    let mut c = machine_with(vec![]);
    run(&mut c, 0x6005);
    run(&mut c, 0x610A);
    run(&mut c, 0x8017);
    assert_eq!(c.registers()[0], 5);
    assert_eq!(c.registers()[15], 1);
    run(&mut c, 0x600A);
    run(&mut c, 0x6105);
    run(&mut c, 0x8017);
    assert_eq!(c.registers()[0], 251);
    assert_eq!(c.registers()[15], 0);
}

#[test]
fn shifts_copy_then_shift_and_flag_the_lost_bit() {
    let mut c = machine_with(vec![]);
    run(&mut c, 0x61FF);
    run(&mut c, 0x6205);
    run(&mut c, 0x8126);
    assert_eq!(c.registers()[1], 0x02);
    assert_eq!(c.registers()[2], 0x05);
    assert_eq!(c.registers()[15], 1);
    run(&mut c, 0x6204);
    run(&mut c, 0x8126);
    assert_eq!(c.registers()[1], 0x02);
    assert_eq!(c.registers()[15], 0);
    run(&mut c, 0x6281);
    run(&mut c, 0x812E);
    assert_eq!(c.registers()[1], 0x02);
    assert_eq!(c.registers()[2], 0x81);
    assert_eq!(c.registers()[15], 1);
    run(&mut c, 0x6241);
    run(&mut c, 0x812E);
    assert_eq!(c.registers()[1], 0x82);
    assert_eq!(c.registers()[15], 0);
}

#[test]
fn index_register_load_add_and_glyph() {
    let mut c = machine_with(vec![]);
    run(&mut c, 0xA123);
    assert_eq!(c.index_register(), 0x123);
    run(&mut c, 0x6005);
    run(&mut c, 0xF01E);
    assert_eq!(c.index_register(), 0x128);
    assert_eq!(c.registers()[15], 0);
    run(&mut c, 0xAFFE);
    run(&mut c, 0xF01E);
    assert_eq!(c.index_register(), 0x1003);
    assert_eq!(c.registers()[15], 1);
    run(&mut c, 0x611A);
    run(&mut c, 0xF129);
    assert_eq!(c.index_register(), 0x82);
    run(&mut c, 0x6100);
    run(&mut c, 0xF129);
    assert_eq!(c.index_register(), 0x50);
    run(&mut c, 0x610F);
    run(&mut c, 0xF129);
    assert_eq!(c.index_register(), 0x9B);
}

#[test]
fn index_add_at_the_last_address_sets_the_flag() {
    let mut c = machine_with(vec![]);
    run(&mut c, 0xAFFF);
    run(&mut c, 0x6001);
    run(&mut c, 0xF01E);
    assert_eq!(c.index_register(), 0x1000);
    assert_eq!(c.registers()[15], 1);
    // already outside: no crossing
    run(&mut c, 0x6F00);
    run(&mut c, 0xF01E);
    assert_eq!(c.index_register(), 0x1001);
    assert_eq!(c.registers()[15], 0);
}

#[test]
fn random_is_masked_by_the_immediate() {
    let mut c = machine_with(vec![]);
    assert_eq!(c.execute(0xC10F, 0xAB), Ok(()));
    assert_eq!(c.registers()[1], 0x0B);
    assert_eq!(c.execute(0xC2FF, 0xAB), Ok(()));
    assert_eq!(c.registers()[2], 0xAB);
    assert_eq!(c.execute(0xC2F0, 0xFF), Ok(()));
    assert_eq!(c.registers()[2], 0xF0);
}

#[test]
fn decode_draws_its_own_random_byte() {
    let mut c = machine_with(vec![]);
    run(&mut c, 0x61FF);
    assert_eq!(c.decode(0xC100), Ok(()));
    assert_eq!(c.registers()[1], 0);
    for _ in 0..50 {
        assert_eq!(c.decode(0xC10F), Ok(()));
        assert!(c.registers()[1] <= 0x0F);
    }
    assert_eq!(c.decode(0x6277), Ok(()));
    assert_eq!(c.registers()[2], 0x77);
    assert_eq!(c.decode(0x00EE), Err(String::from(UNDERFLOW)));
}

#[test]
fn run_cpu_cycle_fetches_and_executes() {
    let mut c = machine_with(vec![0x60, 0x05, 0x70, 0x03, 0x00, 0xEE]);
    assert_eq!(c.run_cpu_cycle(), Ok(()));
    assert_eq!(c.registers()[0], 5);
    assert_eq!(c.program_counter(), 0x202);
    assert_eq!(c.run_cpu_cycle(), Ok(()));
    assert_eq!(c.registers()[0], 8);
    assert_eq!(c.run_cpu_cycle(), Err(String::from(UNDERFLOW)));
}

#[test]
fn draw_instruction_blits_from_memory_and_flags_collisions() {
    let mut c = machine_with(vec![]);
    run(&mut c, 0xA050);
    run(&mut c, 0x6002);
    run(&mut c, 0x6103);
    assert!(c.consume_redraw());
    run(&mut c, 0xD015);
    assert_eq!(c.registers()[15], 0);
    assert!(c.display().redraw());
    let grid = c.display().display();
    let rows: [u8; 5] = [0xF0, 0x90, 0x90, 0x90, 0xF0];
    for y in 0..32usize {
        for x in 0..64usize {
            let lit = x >= 2 && x < 10 && y >= 3 && y < 8 && rows[y - 3] & (0x80 >> (x - 2)) != 0;
            assert_eq!(grid[x][y], if lit { 1 } else { 0 });
        }
    }
    run(&mut c, 0xD015);
    assert_eq!(c.registers()[15], 1);
    assert_eq!(c.display().display(), [[0u8; 32]; 64]);
    run(&mut c, 0xD010);
    assert_eq!(c.registers()[15], 0);
    assert_eq!(c.display().display(), [[0u8; 32]; 64]);
}

#[test]
fn draw_instruction_clips_at_the_edge() {
    let mut rom = vec![0u8; 0x100];
    rom[0] = 0xFF;
    let mut c = machine_with(rom);
    run(&mut c, 0xA200);
    run(&mut c, 0x603C);
    run(&mut c, 0x6100);
    run(&mut c, 0xD011);
    let grid = c.display().display();
    for x in 0..64usize {
        assert_eq!(grid[x][0], if x >= 60 { 1 } else { 0 });
    }
}

#[test]
fn clear_instruction_blanks_the_screen() {
    let mut c = machine_with(vec![]);
    run(&mut c, 0xA050);
    run(&mut c, 0xD005);
    assert!(c.consume_redraw());
    assert!(!c.consume_redraw());
    run(&mut c, 0x00E0);
    assert_eq!(c.display().display(), [[0u8; 32]; 64]);
    assert!(c.display().redraw());
}

#[test]
fn key_skips_follow_the_keyboard() {
    let mut c = machine_with(vec![]);
    assert!(c.set_key(5, true));
    run(&mut c, 0x6005);
    run(&mut c, 0xE09E);
    assert_eq!(c.program_counter(), 0x202);
    run(&mut c, 0xE0A1);
    assert_eq!(c.program_counter(), 0x202);
    assert!(c.set_key(5, false));
    run(&mut c, 0xE09E);
    assert_eq!(c.program_counter(), 0x202);
    run(&mut c, 0xE0A1);
    assert_eq!(c.program_counter(), 0x204);
    // no such key: never pressed
    run(&mut c, 0x6025);
    run(&mut c, 0xE09E);
    assert_eq!(c.program_counter(), 0x204);
    run(&mut c, 0xE0A1);
    assert_eq!(c.program_counter(), 0x206);
}

#[test]
fn set_key_knows_sixteen_keys() {
    let mut c = machine_with(vec![]);
    assert!(c.set_key(0, true));
    assert!(c.set_key(15, true));
    assert!(!c.set_key(16, true));
    assert!(!c.set_key(255, true));
    let mut expected = [false; 16];
    expected[0] = true;
    expected[15] = true;
    assert_eq!(c.keyboard(), expected);
    assert!(c.set_key(0, false));
    expected[0] = false;
    assert_eq!(c.keyboard(), expected);
}

#[test]
fn key_wait_repeats_until_a_key_is_down() {
    let mut c = machine_with(vec![0xF3, 0x0A, 0x61, 0x01]);
    for _ in 0..3 {
        assert_eq!(c.step(0, 0), Ok(()));
        assert_eq!(c.program_counter(), 0x200);
        assert_eq!(c.registers()[3], 0);
    }
    c.set_key(9, true);
    c.set_key(7, true);
    assert_eq!(c.step(0, 0), Ok(()));
    assert_eq!(c.program_counter(), 0x202);
    assert_eq!(c.registers()[3], 7);
    let mut expected = [false; 16];
    expected[9] = true;
    assert_eq!(c.keyboard(), expected);
    assert_eq!(c.step(0, 0), Ok(()));
    assert_eq!(c.registers()[1], 1);
}

#[test]
fn bcd_stores_three_digits() {
    let mut c = machine_with(vec![]);
    run(&mut c, 0xA300);
    run(&mut c, 0x60FE);
    run(&mut c, 0xF033);
    assert_eq!(&c.memory()[0x300..0x303], &[2, 5, 4]);
    run(&mut c, 0x6007);
    run(&mut c, 0xF033);
    assert_eq!(&c.memory()[0x300..0x303], &[0, 0, 7]);
    run(&mut c, 0xAFFF);
    run(&mut c, 0x607B);
    run(&mut c, 0xF033);
    assert_eq!(c.memory()[0xFFF], 1);
    assert_eq!(c.memory()[0x000], 2);
    assert_eq!(c.memory()[0x001], 3);
}

#[test]
fn register_dump_then_load_round_trips() {
    let mut c = machine_with(vec![]);
    let mut values = [0u8; 16];
    for i in 0..16u16 {
        values[i as usize] = (i * 17 + 3) as u8;
        run(&mut c, 0x6000 + (i << 8) + values[i as usize] as u16);
    }
    run(&mut c, 0xA400);
    run(&mut c, 0xF055);
    assert_eq!(&c.memory()[0x400..0x410], &values[..]);
    assert_eq!(c.memory()[0x410], 0);
    assert_eq!(c.index_register(), 0x400);
    for i in 0..16u16 {
        run(&mut c, 0x6000 + (i << 8));
    }
    assert_eq!(c.registers(), [0u8; 16]);
    run(&mut c, 0xF065);
    assert_eq!(c.registers(), values);
}

#[test]
fn register_dump_wraps_at_the_end_of_memory() {
    let mut c = machine_with(vec![]);
    run(&mut c, 0x6011);
    run(&mut c, 0x6822);
    run(&mut c, 0x6F33);
    run(&mut c, 0xAFF8);
    run(&mut c, 0xF055);
    assert_eq!(c.memory()[0xFF8], 0x11);
    assert_eq!(c.memory()[0x000], 0x22);
    assert_eq!(c.memory()[0x007], 0x33);
    run(&mut c, 0x6000);
    run(&mut c, 0x6800);
    run(&mut c, 0x6F00);
    run(&mut c, 0xF065);
    assert_eq!(c.registers()[0], 0x11);
    assert_eq!(c.registers()[8], 0x22);
    assert_eq!(c.registers()[15], 0x33);
}

#[test]
fn unknown_opcodes_do_nothing() {
    let mut c = machine_with(vec![1, 2, 3]);
    run(&mut c, 0x6133);
    run(&mut c, 0xA222);
    for opcode in [0x0000u16, 0x0123, 0x00E1, 0x5121, 0x8128, 0x812F, 0x9121, 0xE19F, 0xE1A2, 0xF1FF, 0xF100] {
        let registers = c.registers();
        let memory = *c.memory();
        run(&mut c, opcode);
        assert_eq!(c.registers(), registers);
        assert_eq!(*c.memory(), memory);
        assert_eq!(c.program_counter(), 0x200);
        assert_eq!(c.index_register(), 0x222);
        assert_eq!(c.stack_depth(), 0);
    }
}

#[test]
fn opcode_fields_are_its_nibbles() {
    assert_eq!(chip_egg::class_of(0xD7A5), 0xD);
    assert_eq!(chip_egg::x_of(0xD7A5), 0x7);
    assert_eq!(chip_egg::y_of(0xD7A5), 0xA);
    assert_eq!(chip_egg::n_of(0xD7A5), 0x5);
    assert_eq!(chip_egg::nn_of(0xD7A5), 0xA5);
    assert_eq!(chip_egg::nnn_of(0xD7A5), 0x7A5);
}

fn machine_with_quirks(quirks: Quirks) -> Chip8 {
    Chip8::new(Options::with(Options::new().font(), quirks))
}

#[test]
fn default_quirks_are_the_standard_behaviour() {
    let quirks = Options::new().quirks();
    assert!(quirks.shift_uses_copy);
    assert!(!quirks.jump_adds_vx);
    assert!(!quirks.dump_moves_index);
    assert!(quirks.index_overflow_flag);
}

#[test]
fn shifts_in_place_where_configured() {
    let mut c = machine_with_quirks(Quirks { shift_uses_copy: false, ..Quirks::default() });
    run(&mut c, 0x6105);
    run(&mut c, 0x62FE);
    run(&mut c, 0x8126);
    assert_eq!(c.registers()[1], 0x02);
    assert_eq!(c.registers()[2], 0xFE);
    assert_eq!(c.registers()[15], 1);
    run(&mut c, 0x6141);
    run(&mut c, 0x812E);
    assert_eq!(c.registers()[1], 0x82);
    assert_eq!(c.registers()[15], 0);
}

#[test]
fn jump_adds_the_named_register_where_configured() {
    let mut c = machine_with_quirks(Quirks { jump_adds_vx: true, ..Quirks::default() });
    run(&mut c, 0x6001);
    run(&mut c, 0x6210);
    run(&mut c, 0xB234);
    assert_eq!(c.program_counter(), 0x0244);
}

#[test]
fn dump_and_load_move_the_index_where_configured() {
    let mut c = machine_with_quirks(Quirks { dump_moves_index: true, ..Quirks::default() });
    run(&mut c, 0x6342);
    run(&mut c, 0xA400);
    run(&mut c, 0xF055);
    assert_eq!(c.index_register(), 0x410);
    assert_eq!(c.memory()[0x403], 0x42);
    run(&mut c, 0x6300);
    run(&mut c, 0xA400);
    run(&mut c, 0xF065);
    assert_eq!(c.index_register(), 0x410);
    assert_eq!(c.registers()[3], 0x42);
}

#[test]
fn index_overflow_leaves_the_flag_where_configured() {
    let mut c = machine_with_quirks(Quirks { index_overflow_flag: false, ..Quirks::default() });
    run(&mut c, 0xAFFF);
    run(&mut c, 0x6001);
    run(&mut c, 0xF01E);
    assert_eq!(c.index_register(), 0x1000);
    assert_eq!(c.registers()[15], 0);
}

#[test]
fn host_keys_press_and_release_pad_keys() {
    let bound = [
        (HostKey::Key1, 0x1),
        (HostKey::Key2, 0x2),
        (HostKey::Key3, 0x3),
        (HostKey::Key4, 0xC),
        (HostKey::Q, 0x4),
        (HostKey::W, 0x5),
        (HostKey::E, 0x6),
        (HostKey::R, 0xD),
        (HostKey::A, 0x7),
        (HostKey::S, 0x8),
        (HostKey::D, 0x9),
        (HostKey::F, 0xE),
        (HostKey::Z, 0xA),
        (HostKey::X, 0x0),
        (HostKey::C, 0xB),
        (HostKey::V, 0xF),
    ];
    for (key, pad) in bound {
        assert_eq!(chip_egg::keypad::pad_key_of(key), Some(pad as u8));
        let mut c = machine_with(vec![]);
        assert!(c.input(key, true));
        let mut expected = [false; 16];
        expected[pad] = true;
        assert_eq!(c.keyboard(), expected);
        assert!(c.input(key, false));
        assert_eq!(c.keyboard(), [false; 16]);
    }
    let mut c = machine_with(vec![]);
    assert_eq!(chip_egg::keypad::pad_key_of(HostKey::Other), None);
    assert!(!c.input(HostKey::Other, true));
    assert_eq!(c.keyboard(), [false; 16]);
}

#[test]
fn run_cpu_cycle_ticks_with_the_clock() {
    let mut c = machine_with(vec![0x60, 0xC8, 0xF0, 0x15, 0xF0, 0x18]);
    assert_eq!(c.run_cpu_cycle(), Ok(()));
    assert_eq!(c.run_cpu_cycle(), Ok(()));
    assert_eq!(c.run_cpu_cycle(), Ok(()));
    let delay = c.delay_timer();
    let sound = c.sound_timer();
    assert!(delay >= 199);
    assert!(sound >= 199);
    let waiting = std::time::Instant::now();
    while waiting.elapsed() < std::time::Duration::from_millis(40) {}
    assert_eq!(c.run_cpu_cycle(), Ok(()));
    assert_eq!(c.delay_timer(), delay - 1);
    assert_eq!(c.sound_timer(), sound - 1);
}
