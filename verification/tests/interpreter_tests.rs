use chip8_core::chip8::{decode, Chip8, ExecError, Instr};
use chip8_core::memory::MemError;
use chip8_core::traits::{ScreenDisplay, BUFFER_SIZE};

fn rom_bytes(words: &[u16]) -> Vec<u8> {
    let mut bytes = Vec::new();
    for w in words {
        bytes.push((w >> 8) as u8);
        bytes.push((w & 0xFF) as u8);
    }
    bytes
}

fn boot(words: &[u16]) -> Chip8 {
    let mut cpu = Chip8::new();
    cpu.load_rom(&rom_bytes(words)).unwrap();
    cpu.reset();
    cpu
}

#[test]
fn new_interpreter_starts_zeroed() {
    let cpu = Chip8::new();
    for x in 0..16 {
        assert_eq!(cpu.read_register(x), 0);
    }
    assert_eq!(cpu.index_register(), 0);
    assert_eq!(cpu.program_counter(), 0);
    let fb = cpu.framebuffer();
    for cell in fb.iter() {
        assert_eq!(*cell, 0);
    }
}

#[test]
fn reset_restores_startup_but_keeps_memory_and_frame() {
    // Set a register and the index register, draw a glyph, then reset.
    let mut cpu = boot(&[0x6305, 0xA050, 0x6000, 0x6100, 0xD015]);
    for _ in 0..5 {
        cpu.tick().unwrap();
    }
    assert_eq!(cpu.read_register(3), 5);
    assert_ne!(cpu.framebuffer()[0], 0);
    cpu.reset();
    for x in 0..16 {
        assert_eq!(cpu.read_register(x), 0);
    }
    assert_eq!(cpu.index_register(), 0);
    assert_eq!(cpu.program_counter(), 0x200);
    // The framebuffer is not re-zeroed by reset.
    assert_ne!(cpu.framebuffer()[0], 0);
    // Memory was not reloaded: the first ROM word is still there.
    let r = cpu.tick();
    assert_eq!(r, Ok(false));
    assert_eq!(cpu.read_register(3), 5);
}

#[test]
fn chip8_load_rom_rejects_oversized_image() {
    let mut cpu = Chip8::new();
    let data: Vec<u8> = vec![0x11; 3585];
    assert_eq!(cpu.load_rom(&data), Err(MemError::RomTooLarge));
}

#[test]
fn decode_splits_fields() {
    assert_eq!(decode(0x00E0), Instr::ClearScreen);
    assert_eq!(decode(0x12A4), Instr::Jump { addr: 0x2A4 });
    assert_eq!(decode(0x6A12), Instr::SetVx { x: 10, byte: 0x12 });
    assert_eq!(decode(0x7B34), Instr::AddVx { x: 11, byte: 0x34 });
    assert_eq!(decode(0xA123), Instr::SetI { addr: 0x123 });
    assert_eq!(decode(0xD47F), Instr::Draw { x: 4, y: 7, rows: 15 });
    assert_eq!(decode(0x9ABC), Instr::Unknown { family: 9 });
    assert_eq!(decode(0xFFFF), Instr::Unknown { family: 0xF });
}

#[test]
fn set_immediate_word_6a12_sets_register_10_to_0x12() {
    let mut cpu = boot(&[0x6A12]);
    assert_eq!(cpu.tick(), Ok(false));
    assert_eq!(cpu.read_register(10), 0x12);
    for x in 0..16 {
        if x != 10 {
            assert_eq!(cpu.read_register(x), 0);
        }
    }
}

#[test]
fn add_immediate_wraps_at_boundary() {
    // v3 = 255, then add 1: wraps to 0, and no other register moves.
    let mut cpu = boot(&[0x63FF, 0x7301]);
    assert_eq!(cpu.tick(), Ok(false));
    assert_eq!(cpu.read_register(3), 255);
    assert_eq!(cpu.tick(), Ok(false));
    assert_eq!(cpu.read_register(3), 0);
    assert_eq!(cpu.read_register(15), 0);
}

#[test]
fn add_immediate_plain_sum() {
    let mut cpu = boot(&[0x6512, 0x7534]);
    assert_eq!(cpu.tick(), Ok(false));
    assert_eq!(cpu.tick(), Ok(false));
    assert_eq!(cpu.read_register(5), 0x46);
}

#[test]
fn jump_sets_pc_to_0x2a4() {
    // Trailing words make no difference to the jump itself.
    let mut cpu = boot(&[0x12A4, 0x6A12, 0x6B34]);
    assert_eq!(cpu.tick(), Ok(false));
    assert_eq!(cpu.program_counter(), 0x2A4);
}

#[test]
fn set_index_register() {
    let mut cpu = boot(&[0xA123]);
    assert_eq!(cpu.tick(), Ok(false));
    assert_eq!(cpu.index_register(), 0x123);
}

#[test]
fn clear_screen_blanks_frame_and_reports_change() {
    // Draw the glyph for 0 first so the frame is not already blank.
    let mut cpu = boot(&[0xA050, 0x6000, 0x6100, 0xD015, 0x00E0]);
    for _ in 0..3 {
        assert_eq!(cpu.tick(), Ok(false));
    }
    assert_eq!(cpu.tick(), Ok(true));
    assert_ne!(cpu.framebuffer()[0], 0);
    assert_eq!(cpu.tick(), Ok(true));
    let fb = cpu.framebuffer();
    for cell in fb.iter() {
        assert_eq!(*cell, 0);
    }
}

#[test]
fn draw_glyph_zero_exact_pixels() {
    // Index register at the font glyph for 0, drawn at the origin.
    let mut cpu = boot(&[0xA050, 0x6000, 0x6100, 0xD015]);
    for _ in 0..3 {
        assert_eq!(cpu.tick(), Ok(false));
    }
    assert_eq!(cpu.tick(), Ok(true));
    let fb = cpu.framebuffer();
    let expected: [[u8; 8]; 5] = [
        [1, 1, 1, 1, 0, 0, 0, 0],
        [1, 0, 0, 1, 0, 0, 0, 0],
        [1, 0, 0, 1, 0, 0, 0, 0],
        [1, 0, 0, 1, 0, 0, 0, 0],
        [1, 1, 1, 1, 0, 0, 0, 0],
    ];
    for r in 0..5 {
        for c in 0..8 {
            assert_eq!(fb[r * 64 + c], expected[r][c], "row {} col {}", r, c);
        }
    }
    // Nothing outside the sprite is lit.
    for i in 0..BUFFER_SIZE {
        let (row, col) = (i / 64, i % 64);
        if row >= 5 || col >= 8 {
            assert_eq!(fb[i], 0);
        }
    }
}

#[test]
fn draw_same_sprite_twice_restores_frame() {
    let mut cpu = boot(&[0xA050, 0x6000, 0x6100, 0xD015, 0xD015]);
    for _ in 0..3 {
        assert_eq!(cpu.tick(), Ok(false));
    }
    let before = cpu.framebuffer();
    assert_eq!(cpu.tick(), Ok(true));
    assert_ne!(cpu.framebuffer()[0], before[0]);
    assert_eq!(cpu.tick(), Ok(true));
    let after = cpu.framebuffer();
    for i in 0..BUFFER_SIZE {
        assert_eq!(after[i], before[i]);
    }
}

#[test]
fn draw_clips_at_right_edge_instead_of_wrapping() {
    // One glyph row at x = 62: only columns 62 and 63 are drawn.
    let mut cpu = boot(&[0xA050, 0x603E, 0x6100, 0xD011]);
    for _ in 0..3 {
        cpu.tick().unwrap();
    }
    assert_eq!(cpu.tick(), Ok(true));
    let fb = cpu.framebuffer();
    assert_eq!(fb[62], 1);
    assert_eq!(fb[63], 1);
    // No spill into the next row, and nothing to the left.
    assert_eq!(fb[64], 0);
    assert_eq!(fb[65], 0);
    for i in 0..62 {
        assert_eq!(fb[i], 0);
    }
}

#[test]
fn draw_origin_wraps_into_frame() {
    // x register holds 66; the origin wraps to column 2.
    let mut cpu = boot(&[0xA050, 0x6042, 0x6100, 0xD011]);
    for _ in 0..3 {
        cpu.tick().unwrap();
    }
    assert_eq!(cpu.tick(), Ok(true));
    let fb = cpu.framebuffer();
    assert_eq!(fb[0], 0);
    assert_eq!(fb[1], 0);
    assert_eq!(fb[2], 1);
    assert_eq!(fb[3], 1);
    assert_eq!(fb[4], 1);
    assert_eq!(fb[5], 1);
    assert_eq!(fb[6], 0);
}

#[test]
fn draw_clips_at_bottom_edge() {
    // Five rows starting at y = 30: only rows 30 and 31 are drawn.
    let mut cpu = boot(&[0xA050, 0x6000, 0x611E, 0xD015]);
    for _ in 0..3 {
        cpu.tick().unwrap();
    }
    assert_eq!(cpu.tick(), Ok(true));
    let fb = cpu.framebuffer();
    assert_eq!(fb[30 * 64], 1);
    assert_eq!(fb[30 * 64 + 3], 1);
    assert_eq!(fb[31 * 64], 1);
    assert_eq!(fb[31 * 64 + 1], 0);
    assert_eq!(fb[31 * 64 + 3], 1);
    // No wrap back to the top rows.
    for i in 0..(30 * 64) {
        assert_eq!(fb[i], 0);
    }
}

#[test]
fn draw_reads_sprite_bytes_with_address_wrap() {
    // Index register at the last byte: the second row comes from
    // address 0, both bytes are zero, so nothing lights up.
    let mut cpu = boot(&[0xAFFF, 0x6000, 0x6100, 0xD012]);
    for _ in 0..3 {
        cpu.tick().unwrap();
    }
    assert_eq!(cpu.tick(), Ok(true));
    let fb = cpu.framebuffer();
    for cell in fb.iter() {
        assert_eq!(*cell, 0);
    }
}

#[test]
fn unknown_opcode_reported_and_preserves_state() {
    // Give registers and the index register values, then hit family 8.
    let mut cpu = boot(&[0x6105, 0xA123, 0x8ABC]);
    assert_eq!(cpu.tick(), Ok(false));
    assert_eq!(cpu.tick(), Ok(false));
    let pc_before = cpu.program_counter();
    let fb_before = cpu.framebuffer();
    assert_eq!(cpu.tick(), Err(ExecError::UnknownOpcode { word: 0x8ABC }));
    assert_eq!(cpu.read_register(1), 5);
    for x in 0..16 {
        if x != 1 {
            assert_eq!(cpu.read_register(x), 0);
        }
    }
    assert_eq!(cpu.index_register(), 0x123);
    assert_eq!(cpu.program_counter(), pc_before + 2);
    let fb_after = cpu.framebuffer();
    for i in 0..BUFFER_SIZE {
        assert_eq!(fb_after[i], fb_before[i]);
    }
}

#[test]
fn execution_continues_after_unknown_opcode() {
    let mut cpu = boot(&[0x8ABC, 0x6007]);
    assert!(matches!(cpu.tick(), Err(ExecError::UnknownOpcode { .. })));
    assert_eq!(cpu.tick(), Ok(false));
    assert_eq!(cpu.read_register(0), 7);
}

#[test]
fn pc_wraps_at_end_of_address_space() {
    // Jump to the last even address; the bytes there are zero, so the
    // next tick executes a clear and the counter wraps to 0.
    let mut cpu = boot(&[0x1FFE]);
    assert_eq!(cpu.tick(), Ok(false));
    assert_eq!(cpu.program_counter(), 0xFFE);
    assert_eq!(cpu.tick(), Ok(true));
    assert_eq!(cpu.program_counter(), 0);
}

struct RecordingScreen {
    frames: Vec<[u8; BUFFER_SIZE]>,
}

impl ScreenDisplay for RecordingScreen {
    fn draw(&mut self, buffer: [u8; BUFFER_SIZE]) {
        self.frames.push(buffer);
    }
}

#[test]
fn framebuffer_snapshot_feeds_a_display() {
    let mut cpu = boot(&[0xA050, 0x6000, 0x6100, 0xD015]);
    let mut screen = RecordingScreen { frames: Vec::new() };
    for _ in 0..4 {
        if cpu.tick().unwrap() {
            screen.draw(cpu.framebuffer());
        }
    }
    assert_eq!(screen.frames.len(), 1);
    assert_eq!(screen.frames[0][0], 1);
}
