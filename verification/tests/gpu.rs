use rusty_vm::gpu::{
    CharColors, Character, Cursor, CursorShapes, Glyph, COLUMNS, GPU, ROWS,
};
use rusty_vm::memory::Memory;
use rusty_vm::opcodes::{
    GPU_DRAW_LETT, GPU_MV_C_DOWN, GPU_MV_C_LEFT, GPU_MV_C_RIGH, GPU_MV_C_UP, GPU_NEW_LINE,
    GPU_NO_OPERAT, GPU_RESET_PTR, GPU_RES_F_BUF, GPU_UPDATE,
};

fn buffer(words: &[u16]) -> Memory {
    let mut rom = vec![GPU_NO_OPERAT; 0x1_0000];
    rom[0x0300..0x0300 + words.len()].copy_from_slice(words);
    Memory { rom, ram: [0; 1024] }
}

fn run(gpu: &mut GPU, memory: &Memory, words: usize) -> usize {
    let mut redraws = 0;
    for _ in 0..words {
        assert!(gpu.is_wf());
        if gpu.update(memory) {
            redraws += 1;
        }
    }
    redraws
}

#[test]
fn gpu_opcode_values_are_as_documented() {
    assert_eq!(GPU_NO_OPERAT, 0xA000);
    assert_eq!(GPU_DRAW_LETT, 0xA001);
    assert_eq!(GPU_UPDATE, 0xA002);
    assert_eq!(GPU_RESET_PTR, 0xA0A2);
    assert_eq!(GPU_RES_F_BUF, 0xA0A3);
    assert_eq!(GPU_MV_C_UP, 0xA0B0);
    assert_eq!(GPU_MV_C_DOWN, 0xA0B1);
    assert_eq!(GPU_MV_C_LEFT, 0xA0B2);
    assert_eq!(GPU_MV_C_RIGH, 0xA0B3);
    assert_eq!(GPU_NEW_LINE, 0xA0B4);
}

#[test]
fn init_gives_a_white_blank_screen() {
    let gpu = GPU::init();
    assert!(gpu.is_wf());
    assert_eq!(gpu.buf_ptr, 0x0300);
    assert_eq!(gpu.frame_buffer.len(), 92 * 48);
    for x in 0..COLUMNS {
        for y in 0..ROWS {
            assert_eq!(gpu.cell(x, y), Character { literal: ' ', color: CharColors::White });
        }
    }
    assert_eq!(gpu.cursor, Cursor { position: (0, 0), shape: CursorShapes::Block });
    assert!(!gpu.cursor_visible);
    assert!(!gpu.draw_mode);
    assert_eq!(gpu.draw_color, CharColors::White);
    assert_eq!(gpu.clock_speed, 10_000);
    assert_eq!((gpu.pri_counter, gpu.sec_counter), (0, 0));
}

#[test]
fn character_new_is_white() {
    assert_eq!(Character::new('x'), Character { literal: 'x', color: CharColors::White });
}

#[test]
fn cursor_new_is_top_left() {
    assert_eq!(
        Cursor::new(CursorShapes::Underline),
        Cursor { position: (0, 0), shape: CursorShapes::Underline }
    );
}

#[test]
fn cursor_shapes_have_their_glyphs() {
    assert_eq!(CursorShapes::Block.glyph(), '█');
    assert_eq!(CursorShapes::VertiBar.glyph(), '|');
    assert_eq!(CursorShapes::Underline.glyph(), '_');
}

#[test]
fn buf_ptr_wraps_from_end_of_buffer_to_its_start() {
    let mut gpu = GPU::init();
    gpu.buf_ptr = 0x0FFF;
    gpu.increase_buf_ptr();
    assert_eq!(gpu.buf_ptr, 0x0300);
    gpu.increase_buf_ptr();
    assert_eq!(gpu.buf_ptr, 0x0301);
    gpu.buf_ptr = 0x0FFE;
    gpu.increase_buf_ptr();
    assert_eq!(gpu.buf_ptr, 0x0FFF);
}

#[test]
fn palette_decodes_every_colour_byte() {
    assert_eq!(CharColors::from_u8(0x00), Some(CharColors::White));
    assert_eq!(CharColors::from_u8(0x0A), Some(CharColors::White));
    assert_eq!(CharColors::from_u8(0x0B), Some(CharColors::Red));
    assert_eq!(CharColors::from_u8(0x0C), Some(CharColors::Green));
    assert_eq!(CharColors::from_u8(0x0D), Some(CharColors::Blue));
    assert_eq!(CharColors::from_u8(0x0E), Some(CharColors::Cyan));
    assert_eq!(CharColors::from_u8(0x0F), Some(CharColors::Magenta));
    for value in 0..=255u8 {
        if !(0x0B..=0x0F).contains(&value) {
            assert_eq!(CharColors::from_u8(value), Some(CharColors::White));
        }
    }
}

#[test]
fn drawn_cells_receive_the_colour_of_the_high_byte() {
    let colours = [
        (0x00u16, CharColors::White),
        (0x0A, CharColors::White),
        (0x0B, CharColors::Red),
        (0x0C, CharColors::Green),
        (0x0D, CharColors::Blue),
        (0x0E, CharColors::Cyan),
        (0x0F, CharColors::Magenta),
        (0x10, CharColors::White),
        (0x09, CharColors::White),
        (0xFF, CharColors::White),
    ];
    let mut words = vec![GPU_DRAW_LETT];
    for (byte, _) in colours {
        words.push((byte << 8) | 0x41);
    }
    let memory = buffer(&words);
    let mut gpu = GPU::init();
    assert_eq!(run(&mut gpu, &memory, words.len()), 0);
    for (column, (_, colour)) in colours.iter().enumerate() {
        assert_eq!(gpu.cell(column, 0), Character { literal: 'A', color: *colour });
    }
    assert_eq!(gpu.cursor.position, (colours.len(), 0));
    assert!(gpu.draw_mode);
}

#[test]
fn escape_leaves_draw_mode_without_placing() {
    for escape in [0x0060u16, 0x0B60, 0xA060, 0xFF60] {
        let memory = buffer(&[GPU_DRAW_LETT, 0x0A41, escape, 0x0A42]);
        let mut gpu = GPU::init();
        run(&mut gpu, &memory, 2);
        assert!(gpu.draw_mode);
        assert_eq!(gpu.cursor.position, (1, 0));
        run(&mut gpu, &memory, 1);
        assert!(!gpu.draw_mode);
        assert_eq!(gpu.cursor.position, (1, 0));
        assert_eq!(gpu.cell(1, 0), Character { literal: ' ', color: CharColors::White });
        assert_eq!(gpu.buf_ptr, 0x0303);
        run(&mut gpu, &memory, 1);
        assert_eq!(gpu.cell(1, 0), Character { literal: ' ', color: CharColors::White });
        assert_eq!(gpu.buf_ptr, 0x0304);
    }
}

#[test]
fn commands_are_characters_in_draw_mode() {
    let memory = buffer(&[GPU_DRAW_LETT, GPU_UPDATE, GPU_RES_F_BUF, GPU_NO_OPERAT]);
    let mut gpu = GPU::init();
    assert_eq!(run(&mut gpu, &memory, 4), 0);
    assert_eq!(gpu.cell(0, 0), Character { literal: '\u{2}', color: CharColors::White });
    assert_eq!(gpu.cell(1, 0), Character { literal: '\u{a3}', color: CharColors::White });
    assert_eq!(gpu.cell(2, 0), Character { literal: '\u{0}', color: CharColors::White });
    assert_eq!(gpu.cursor.position, (3, 0));
}

#[test]
fn no_operation_and_unknown_words_advance() {
    let memory = buffer(&[GPU_NO_OPERAT, 0x0041, 0xA0FF, 0x0060, 0xFFFF]);
    let mut gpu = GPU::init();
    for step in 1..=5u16 {
        assert!(!gpu.update(&memory));
        assert_eq!(gpu.buf_ptr, 0x0300 + step);
        assert_eq!(gpu.cursor.position, (0, 0));
        assert!(!gpu.draw_mode);
        assert_eq!(gpu.cell(0, 0), Character { literal: ' ', color: CharColors::White });
    }
}

#[test]
fn update_asks_for_a_redraw() {
    let memory = buffer(&[GPU_UPDATE, GPU_NO_OPERAT, GPU_UPDATE]);
    let mut gpu = GPU::init();
    assert!(gpu.update(&memory));
    assert_eq!(gpu.buf_ptr, 0x0301);
    assert!(!gpu.update(&memory));
    assert!(gpu.update(&memory));
    assert_eq!(gpu.buf_ptr, 0x0303);
}

#[test]
fn reset_ptr_goes_back_to_the_start() {
    let memory = buffer(&[GPU_NO_OPERAT, GPU_NO_OPERAT, GPU_RESET_PTR]);
    let mut gpu = GPU::init();
    run(&mut gpu, &memory, 2);
    assert_eq!(gpu.buf_ptr, 0x0302);
    assert!(!gpu.update(&memory));
    assert_eq!(gpu.buf_ptr, 0x0300);
}

#[test]
fn cursor_moves_follow_the_commands() {
    let memory = buffer(&[
        GPU_MV_C_DOWN, GPU_MV_C_DOWN, GPU_MV_C_RIGH, GPU_MV_C_RIGH, GPU_MV_C_RIGH, GPU_MV_C_UP,
        GPU_MV_C_LEFT, GPU_NEW_LINE,
    ]);
    let mut gpu = GPU::init();
    let expected = [(0, 1), (0, 2), (1, 2), (2, 2), (3, 2), (3, 1), (2, 1), (0, 2)];
    for position in expected {
        assert!(!gpu.update(&memory));
        assert_eq!(gpu.cursor.position, position);
    }
    assert_eq!(gpu.buf_ptr, 0x0308);
}

#[test]
fn cursor_moves_wrap_at_the_edges() {
    let memory = buffer(&[GPU_MV_C_UP, GPU_MV_C_LEFT, GPU_MV_C_DOWN, GPU_MV_C_RIGH, GPU_NEW_LINE]);
    let mut gpu = GPU::init();
    gpu.update(&memory);
    assert_eq!(gpu.cursor.position, (0, 47));
    gpu.update(&memory);
    assert_eq!(gpu.cursor.position, (91, 47));
    gpu.update(&memory);
    assert_eq!(gpu.cursor.position, (91, 0));
    gpu.update(&memory);
    assert_eq!(gpu.cursor.position, (0, 0));
    gpu.cursor.position = (50, 47);
    gpu.update(&memory);
    assert_eq!(gpu.cursor.position, (0, 0));
}

#[test]
fn characters_wrap_at_the_end_of_a_row_and_of_the_screen() {
    let memory = buffer(&[GPU_DRAW_LETT, 0x0A41, 0x0A42, 0x0A43]);
    let mut gpu = GPU::init();
    gpu.update(&memory);
    gpu.cursor.position = (91, 3);
    gpu.update(&memory);
    assert_eq!(gpu.cell(91, 3).literal, 'A');
    assert_eq!(gpu.cursor.position, (0, 4));
    gpu.cursor.position = (91, 47);
    gpu.update(&memory);
    assert_eq!(gpu.cell(91, 47).literal, 'B');
    assert_eq!(gpu.cursor.position, (0, 0));
    gpu.update(&memory);
    assert_eq!(gpu.cell(0, 0).literal, 'C');
    assert_eq!(gpu.cursor.position, (1, 0));
}

#[test]
fn tick_asks_for_a_redraw_every_99_ticks() {
    let mut gpu = GPU::init();
    for round in 0..3 {
        for tick in 1..=99 {
            let redraw = gpu.tick();
            assert_eq!(redraw, tick == 99, "round {round}, tick {tick}");
            assert_eq!(gpu.pri_counter, if tick == 99 { 0 } else { tick });
        }
    }
}

#[test]
fn blink_toggles_the_cursor_every_ten_redraws() {
    let mut gpu = GPU::init();
    for redraw in 1..=30 {
        gpu.blink();
        assert_eq!(gpu.cursor_visible, (redraw / 10) % 2 == 1, "redraw {redraw}");
        assert_eq!(gpu.sec_counter, redraw % 10);
    }
}

#[test]
fn gpu_pause_is_a_million_over_the_clock_speed() {
    let mut gpu = GPU::init();
    assert_eq!(gpu.pause_micros(), 100);
    gpu.clock_speed = 60;
    assert_eq!(gpu.pause_micros(), 16_666);
}

#[test]
fn display_list_holds_every_cell_row_by_row() {
    let memory = buffer(&[GPU_DRAW_LETT, 0x0B48, 0x0C69, 0x0D5A]);
    let mut gpu = GPU::init();
    run(&mut gpu, &memory, 3);
    gpu.cursor.position = (91, 47);
    run(&mut gpu, &memory, 1);
    let glyphs = gpu.draw_framebuffer();
    assert_eq!(glyphs.len(), 92 * 48);
    assert_eq!(glyphs.len(), 4416);
    assert_eq!(glyphs[0], Glyph { literal: 'H', x: 2, y: 10, color: CharColors::Red });
    assert_eq!(glyphs[1], Glyph { literal: 'i', x: 9, y: 10, color: CharColors::Green });
    assert_eq!(glyphs[2], Glyph { literal: ' ', x: 16, y: 10, color: CharColors::White });
    assert_eq!(glyphs[91], Glyph { literal: ' ', x: 639, y: 10, color: CharColors::White });
    assert_eq!(glyphs[92], Glyph { literal: ' ', x: 2, y: 22, color: CharColors::White });
    assert_eq!(
        glyphs[92 * 48 - 1],
        Glyph { literal: 'Z', x: 639, y: 574, color: CharColors::Blue }
    );
}

#[test]
fn display_list_gives_every_cell_its_own_place() {
    let mut gpu = GPU::init();
    for x in 0..COLUMNS {
        for y in 0..ROWS {
            let literal = char::from_u32(0x100 + (y * COLUMNS + x) as u32).unwrap();
            gpu.frame_buffer[x * ROWS + y] = Character { literal, color: CharColors::Green };
        }
    }
    let glyphs = gpu.draw_framebuffer();
    assert_eq!(glyphs.len(), COLUMNS * ROWS);
    for x in 0..COLUMNS {
        for y in 0..ROWS {
            let glyph = glyphs[y * COLUMNS + x];
            assert_eq!(glyph.literal, gpu.cell(x, y).literal);
            assert_eq!(glyph.literal as usize, 0x100 + y * COLUMNS + x);
            assert_eq!(glyph.color, CharColors::Green);
            assert_eq!((glyph.x, glyph.y), ((x * 7 + 2) as u32, (y * 12 + 10) as u32));
        }
    }
}

#[test]
fn display_list_starts_with_a_visible_cursor() {
    let mut gpu = GPU::init();
    gpu.cursor.position = (3, 2);
    gpu.cursor_visible = true;
    gpu.draw_color = CharColors::Cyan;
    let glyphs = gpu.draw_framebuffer();
    assert_eq!(glyphs.len(), 92 * 48 + 1);
    assert_eq!(glyphs.len(), 4417);
    assert_eq!(glyphs[0], Glyph { literal: '█', x: 23, y: 34, color: CharColors::Cyan });
    assert_eq!(glyphs[1], Glyph { literal: ' ', x: 2, y: 10, color: CharColors::White });
    gpu.cursor.shape = CursorShapes::VertiBar;
    assert_eq!(gpu.draw_framebuffer()[0].literal, '|');
    gpu.cursor.shape = CursorShapes::Underline;
    assert_eq!(gpu.draw_framebuffer()[0].literal, '_');
}

#[test]
fn gpu_reads_the_whole_buffer_and_wraps() {
    let memory = buffer(&[]);
    let mut gpu = GPU::init();
    run(&mut gpu, &memory, 3327);
    assert_eq!(gpu.buf_ptr, 0x0FFF);
    run(&mut gpu, &memory, 1);
    assert_eq!(gpu.buf_ptr, 0x0300);
}

#[test]
fn a_gpu_out_of_its_bounds_is_not_well_formed() {
    let good = GPU::init;
    assert!(good().is_wf());
    let mut gpu = good();
    gpu.cursor.position = (92, 0);
    assert!(!gpu.is_wf());
    let mut gpu = good();
    gpu.cursor.position = (0, 48);
    assert!(!gpu.is_wf());
    let mut gpu = good();
    gpu.cursor.position = (91, 47);
    assert!(gpu.is_wf());
    let mut gpu = good();
    gpu.frame_buffer.pop();
    assert!(!gpu.is_wf());
    let mut gpu = good();
    gpu.pri_counter = 99;
    assert!(!gpu.is_wf());
    let mut gpu = good();
    gpu.sec_counter = 10;
    assert!(!gpu.is_wf());
}
