use rchip8::chip8::Chip8;
use rchip8::error::EmulatorError;

fn machine(program: &[u8]) -> Chip8 {
    match Chip8::init(program) {
        Ok(m) => m,
        Err(e) => panic!("init failed: {}", e.message()),
    }
}

fn run(m: &mut Chip8, steps: usize) {
    for _ in 0..steps {
        assert!(m.can_exec());
        assert_eq!(m.exec(), Ok(()));
    }
}

#[test]
fn init_loads_program_and_font() {
    let m = machine(&[0x12, 0x34, 0xAB]);
    assert_eq!(m.pc(), 512);
    assert_eq!(m.index(), 0);
    assert_eq!(m.memory(512), 0x12);
    assert_eq!(m.memory(513), 0x34);
    assert_eq!(m.memory(514), 0xAB);
    assert_eq!(m.memory(515), 0);
    assert_eq!(m.memory(80), 0xF0);
    assert_eq!(m.memory(84), 0xF0);
    assert_eq!(m.memory(85), 0x20);
    assert_eq!(m.memory(159), 0x80);
    assert_eq!(m.memory(160), 0);
    assert_eq!(m.memory(0), 0);
    assert_eq!(m.memory(4095), 0);
    assert_eq!(m.stack_len(), 0);
    assert_eq!(m.delay_timer, 0);
    assert_eq!(m.sound_timer, 0);
    assert!(!m.refresh_display);
    for k in 0..16 {
        assert_eq!(m.register(k), 0);
        assert!(!m.keys[k]);
    }
    assert!(m.display.iter().all(|row| row.iter().all(|p| !*p)));
}

#[test]
fn init_accepts_largest_program() {
    let program = vec![0x77u8; 3584];
    let m = machine(&program);
    assert_eq!(m.memory(4095), 0x77);
    assert_eq!(m.memory(511), 0);
}

#[test]
fn init_refuses_oversized_program() {
    let program = vec![0u8; 3585];
    assert!(matches!(Chip8::init(&program), Err(EmulatorError::ProgramTooLarge)));
}

#[test]
fn init_accepts_empty_program() {
    let m = machine(&[]);
    assert_eq!(m.memory(512), 0);
}

#[test]
fn set_and_add_registers() {
    // V3 = 0xFE; V3 += 3 (wraps to 1)
    let mut m = machine(&[0x63, 0xFE, 0x73, 0x03]);
    run(&mut m, 1);
    assert_eq!(m.register(3), 0xFE);
    run(&mut m, 1);
    assert_eq!(m.register(3), 0x01);
    assert_eq!(m.register(15), 0);
    assert_eq!(m.pc(), 516);
}

#[test]
fn jump_and_jump_with_offset() {
    // 1300: jump to 0x300
    let mut m = machine(&[0x13, 0x00]);
    run(&mut m, 1);
    assert_eq!(m.pc(), 0x300);
    // V0 = 5; B400: jump to 0x400 + V0
    let mut m = machine(&[0x60, 0x05, 0xB4, 0x00]);
    run(&mut m, 2);
    assert_eq!(m.pc(), 0x405);
}

#[test]
fn call_then_return() {
    // 2206: call 0x206; at 0x206: 00EE
    let mut m = machine(&[0x22, 0x06, 0x00, 0x00, 0x00, 0x00, 0x00, 0xEE]);
    run(&mut m, 1);
    assert_eq!(m.pc(), 0x206);
    assert_eq!(m.stack_len(), 1);
    run(&mut m, 1);
    assert_eq!(m.pc(), 0x202);
    assert_eq!(m.stack_len(), 0);
}

#[test]
fn return_with_empty_stack_fails() {
    let mut m = machine(&[0x00, 0xEE]);
    assert_eq!(m.exec(), Err(EmulatorError::EmptyReturnStack));
    assert_eq!(m.pc(), 514);
}

#[test]
fn invalid_instructions_are_refused() {
    for program in [
        [0x01u8, 0x23],
        [0x81, 0x28],
        [0xE1, 0x00],
        [0xF1, 0x25],
        [0xF1, 0x00],
    ] {
        let mut m = machine(&program);
        let word = ((program[0] as u16) << 8) | program[1] as u16;
        assert_eq!(m.exec(), Err(EmulatorError::InvalidInstruction(word)));
        assert_eq!(m.pc(), 514);
        for k in 0..16 {
            assert_eq!(m.register(k), 0);
        }
    }
}

#[test]
fn skips() {
    // V1 = 7; 3107 skips; 4107 does not; 5120 (V1 == V2? 7 vs 0) does not; 9120 skips
    let mut m = machine(&[0x61, 0x07, 0x31, 0x07]);
    run(&mut m, 2);
    assert_eq!(m.pc(), 518);
    let mut m = machine(&[0x61, 0x07, 0x41, 0x07]);
    run(&mut m, 2);
    assert_eq!(m.pc(), 516);
    let mut m = machine(&[0x61, 0x07, 0x41, 0x08]);
    run(&mut m, 2);
    assert_eq!(m.pc(), 518);
    let mut m = machine(&[0x61, 0x07, 0x51, 0x20]);
    run(&mut m, 2);
    assert_eq!(m.pc(), 516);
    let mut m = machine(&[0x61, 0x07, 0x91, 0x20]);
    run(&mut m, 2);
    assert_eq!(m.pc(), 518);
    let mut m = machine(&[0x52, 0x30]);
    run(&mut m, 1);
    assert_eq!(m.pc(), 516);
}

fn alu(a: u8, b: u8, n: u8) -> (u8, u8) {
    let mut m = machine(&[0x61, a, 0x62, b, 0x81, 0x20 | n]);
    run(&mut m, 3);
    (m.register(1), m.register(15))
}

#[test]
fn arithmetic_and_logic() {
    assert_eq!(alu(0x0F, 0xF0, 0x0), (0xF0, 0));
    assert_eq!(alu(0x0F, 0xF0, 0x1), (0xFF, 0));
    assert_eq!(alu(0x3C, 0x0F, 0x2), (0x0C, 0));
    assert_eq!(alu(0x3C, 0x0F, 0x3), (0x33, 0));
    // add: VF = 1 iff the sum grew VX
    assert_eq!(alu(200, 100, 0x4), (44, 0));
    assert_eq!(alu(10, 20, 0x4), (30, 1));
    assert_eq!(alu(10, 0, 0x4), (10, 0));
    // sub: VF = 1 if VX > VY, 0 if VX < VY, unchanged if equal
    assert_eq!(alu(30, 10, 0x5), (20, 1));
    assert_eq!(alu(10, 30, 0x5), (236, 0));
    assert_eq!(alu(10, 10, 0x5), (0, 0));
    // shifts: VX = VY >> 1 or VY << 1; VF from the new VX
    assert_eq!(alu(0, 0xFF, 0x6), (0x7F, 0));
    assert_eq!(alu(0, 0x81, 0xE), (0x02, 0));
    // reverse sub
    assert_eq!(alu(10, 30, 0x7), (20, 1));
    assert_eq!(alu(30, 10, 0x7), (236, 0));
}

#[test]
fn subtraction_flag_unchanged_when_equal() {
    // VF = 1 first, then V1 -= V2 with equal values keeps VF
    let mut m = machine(&[0x6F, 0x01, 0x61, 0x05, 0x62, 0x05, 0x81, 0x25]);
    run(&mut m, 4);
    assert_eq!(m.register(1), 0);
    assert_eq!(m.register(15), 1);
}

#[test]
fn clear_screen() {
    // draw the font glyph 0 then clear
    let mut m = machine(&[0xA0, 0x50, 0xD0, 0x05, 0x00, 0xE0]);
    run(&mut m, 2);
    assert!(m.display[0][0]);
    m.refresh_display = false;
    run(&mut m, 1);
    assert!(m.display.iter().all(|row| row.iter().all(|p| !*p)));
    assert!(m.refresh_display);
}

#[test]
fn draw_sprite_and_collide() {
    // I = 0x50 (glyph 0: F0 90 90 90 F0); draw at (0,0) twice
    let mut m = machine(&[0xA0, 0x50, 0xD0, 0x05, 0xD0, 0x05]);
    run(&mut m, 2);
    assert!(m.refresh_display);
    assert_eq!(m.register(15), 0);
    assert!(m.display[0][0] && m.display[0][1] && m.display[0][2] && m.display[0][3]);
    assert!(!m.display[0][4]);
    assert!(m.display[1][0] && !m.display[1][1] && !m.display[1][2] && m.display[1][3]);
    assert!(m.display[4][3]);
    assert!(!m.display[5][0]);
    run(&mut m, 1);
    assert_eq!(m.register(15), 1);
    assert!(m.display.iter().all(|row| row.iter().all(|p| !*p)));
}

#[test]
fn draw_clips_at_edges() {
    // V1 = 62, V2 = 30; I = 0x50; D125 draws glyph 0 clipped to 2 columns and 2 rows
    let mut m = machine(&[0x61, 62, 0x62, 30, 0xA0, 0x50, 0xD1, 0x25]);
    run(&mut m, 4);
    assert!(m.display[30][62] && m.display[30][63]);
    assert!(m.display[31][62] && !m.display[31][63]);
    assert!(!m.display[0][0] && !m.display[0][62]);
    let lit: usize = m.display.iter().map(|r| r.iter().filter(|p| **p).count()).sum();
    assert_eq!(lit, 3);
}

#[test]
fn draw_wraps_start_coordinates() {
    // V1 = 64 + 3, V2 = 32 + 1 start at (3, 1)
    let mut m = machine(&[0x61, 67, 0x62, 33, 0xA0, 0x50, 0xD1, 0x21]);
    run(&mut m, 4);
    assert!(m.display[1][3] && m.display[1][6] && !m.display[1][7]);
    assert!(!m.display[2][3]);
}

#[test]
fn index_register_instructions() {
    // A123; V2 = 0x10; F21E: I += V2; V3 = 0xB; F329: I = 5 * V3 + 80
    let mut m = machine(&[0xA1, 0x23, 0x62, 0x10, 0xF2, 0x1E]);
    run(&mut m, 3);
    assert_eq!(m.index(), 0x133);
    let mut m = machine(&[0x63, 0x0B, 0xF3, 0x29]);
    run(&mut m, 2);
    assert_eq!(m.index(), 135);
    assert_eq!(m.memory(135), 0xE0);
}

#[test]
fn binary_coded_decimal() {
    // V5 = 254; I = 0x300; F533
    let mut m = machine(&[0x65, 254, 0xA3, 0x00, 0xF5, 0x33]);
    run(&mut m, 3);
    assert_eq!((m.memory(0x300), m.memory(0x301), m.memory(0x302)), (2, 5, 4));
    assert_eq!(m.index(), 0x300);
    let mut m = machine(&[0x65, 7, 0xA3, 0x00, 0xF5, 0x33]);
    run(&mut m, 3);
    assert_eq!((m.memory(0x300), m.memory(0x301), m.memory(0x302)), (0, 0, 7));
}

#[test]
fn store_and_load_registers() {
    // V0 = 1, V1 = 2, V2 = 3; I = 0x300; F255; V0..V2 = 0; I = 0x300; F265
    let mut m = machine(&[
        0x60, 1, 0x61, 2, 0x62, 3, 0xA3, 0x00, 0xF2, 0x55, 0x60, 0, 0x61, 0, 0x62, 0, 0xA3, 0x00,
        0xF2, 0x65,
    ]);
    run(&mut m, 5);
    assert_eq!((m.memory(0x300), m.memory(0x301), m.memory(0x302)), (1, 2, 3));
    assert_eq!(m.memory(0x303), 0);
    assert_eq!(m.index(), 0x303);
    run(&mut m, 3);
    assert_eq!((m.register(0), m.register(1), m.register(2)), (0, 0, 0));
    run(&mut m, 2);
    assert_eq!((m.register(0), m.register(1), m.register(2)), (1, 2, 3));
    assert_eq!(m.index(), 0x303);
}

#[test]
fn timers_and_registers() {
    // V4 = 9; F415 (delay = V4); F418 (sound = V4); F707 (V7 = delay)
    let mut m = machine(&[0x64, 9, 0xF4, 0x15, 0xF4, 0x18, 0xF7, 0x07]);
    run(&mut m, 4);
    assert_eq!(m.delay_timer, 9);
    assert_eq!(m.sound_timer, 9);
    assert_eq!(m.register(7), 9);
    m.tick_timers();
    assert_eq!((m.delay_timer, m.sound_timer), (8, 8));
}

#[test]
fn tick_timers_stops_at_zero() {
    let mut m = machine(&[]);
    m.delay_timer = 1;
    m.tick_timers();
    m.tick_timers();
    assert_eq!((m.delay_timer, m.sound_timer), (0, 0));
}

#[test]
fn key_skips() {
    // V1 = 5; E19E skips if key 5 held; E1A1 skips if not held
    let mut m = machine(&[0x61, 5, 0xE1, 0x9E]);
    m.keys[5] = true;
    run(&mut m, 2);
    assert_eq!(m.pc(), 518);
    let mut m = machine(&[0x61, 5, 0xE1, 0x9E]);
    run(&mut m, 2);
    assert_eq!(m.pc(), 516);
    let mut m = machine(&[0x61, 5, 0xE1, 0xA1]);
    run(&mut m, 2);
    assert_eq!(m.pc(), 518);
}

#[test]
fn wait_for_key() {
    let mut m = machine(&[0xF3, 0x0A]);
    run(&mut m, 1);
    assert_eq!(m.pc(), 512);
    m.keys[0xB] = true;
    run(&mut m, 1);
    assert_eq!(m.pc(), 514);
    assert_eq!(m.register(3), 0xB);
}

#[test]
fn wait_for_key_with_two_keys_held() {
    let mut m = machine(&[0xF3, 0x0A]);
    m.keys[2] = true;
    m.keys[9] = true;
    run(&mut m, 1);
    assert_eq!(m.pc(), 516);
    assert_eq!(m.register(3), 9);
}

#[test]
fn random_byte_is_masked() {
    // C300: V3 = random & 0
    let mut m = machine(&[0x63, 0xFF, 0xC3, 0x00]);
    run(&mut m, 2);
    assert_eq!(m.register(3), 0);
    // C40F: V4 = random & 0x0F
    let mut m = machine(&[0xC4, 0x0F]);
    run(&mut m, 1);
    assert!(m.register(4) <= 0x0F);
    // with a chosen byte
    let mut m = machine(&[0xC4, 0x3C]);
    assert_eq!(m.exec_with(0xF0), Ok(()));
    assert_eq!(m.register(4), 0x30);
}

#[test]
fn can_exec_detects_out_of_range_accesses() {
    // jump to 0xFFF: the next fetch would read past memory
    let mut m = machine(&[0x1F, 0xFF]);
    run(&mut m, 1);
    assert!(!m.can_exec());
    // E19E with V1 = 16: no such key
    let mut m = machine(&[0x61, 16, 0xE1, 0x9E]);
    run(&mut m, 1);
    assert!(!m.can_exec());
    // I = 0xFFE; F233 writes past memory
    let mut m = machine(&[0xAF, 0xFE, 0xF2, 0x33]);
    run(&mut m, 1);
    assert!(!m.can_exec());
    // I = 0xFFD; F233 fits
    let mut m = machine(&[0xAF, 0xFD, 0xF2, 0x33]);
    run(&mut m, 1);
    assert!(m.can_exec());
    // I = 0xFFC; D015 reads rows past memory
    let mut m = machine(&[0xAF, 0xFC, 0xD0, 0x15]);
    run(&mut m, 1);
    assert!(!m.can_exec());
    // I = 0xFFC; D014 fits
    let mut m = machine(&[0xAF, 0xFC, 0xD0, 0x14]);
    run(&mut m, 1);
    assert!(m.can_exec());
}

#[test]
fn error_messages() {
    assert_eq!(
        EmulatorError::ProgramTooLarge.message(),
        "program is too large (limit is 3584 bytes)"
    );
    assert_eq!(
        EmulatorError::EmptyReturnStack.message(),
        "tried to get return adress from empty return stack"
    );
    assert_eq!(
        EmulatorError::InvalidInstruction(0x81F8).message(),
        "invalid or unimplemented instruction: 0x81f8"
    );
    assert_eq!(
        EmulatorError::InvalidInstruction(0x00A).message(),
        "invalid or unimplemented instruction: 0xa"
    );
    assert_eq!(
        EmulatorError::InvalidInstruction(0).message(),
        "invalid or unimplemented instruction: 0x0"
    );
}
