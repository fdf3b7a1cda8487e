use nosso_os::font::regular_16_glyph;
use nosso_os::graphics::{FrameBufferInfo, Framebuffer, PixelFormat};
use nosso_os::terminal::model::CommandEffect;
use nosso_os::terminal::Terminal;

const W: usize = 800;
const H: usize = 600;

fn screen() -> Vec<u8> {
    vec![0u8; W * H * 3]
}

fn info() -> FrameBufferInfo {
    FrameBufferInfo { byte_len: W * H * 3, width: W, height: H, pixel_format: PixelFormat::Rgb, bytes_per_pixel: 3, stride: W }
}

fn type_text<G: nosso_os::graphics::GraphicsBackend>(t: &mut Terminal<'_, G>, text: &str) {
    for c in text.chars() {
        t.push_command_char(c);
    }
}

#[test]
fn glyphs_come_from_the_font() {
    let a = regular_16_glyph('A').expect("the font has 'A'");
    assert_eq!(a.width, 7);
    assert_eq!(a.raster.len(), 16);
    assert!(a.raster.iter().all(|row| row.len() == 7));
    assert!(a.raster.iter().any(|row| row.iter().any(|p| *p != 0)));
    assert!(regular_16_glyph('\u{4E2D}').is_none());
}

#[test]
fn new_terminal_prints_the_greeting() {
    let mut buf = screen();
    let mut fb = Framebuffer::new(&mut buf, info());
    let t = Terminal::new(&mut fb);
    // "NOSSO_OS\n\n", "Kernel iniciado com sucesso!\n\n", then "> ": two glyphs of 9 pixels
    assert_eq!(t.cursor_position(), (32 + 2 * 9, 32 + 4 * 20));
    assert_eq!(t.command_bytes(), Vec::<u8>::new());
    assert_eq!(t.history_count, 0);
    assert!(!t.command_selected);
    drop(t);
    assert!(buf.iter().any(|b| *b != 0));
}

#[test]
fn typing_inserts_at_the_editing_position() {
    let mut buf = screen();
    let mut fb = Framebuffer::new(&mut buf, info());
    let mut t = Terminal::new(&mut fb);
    type_text(&mut t, "hlp");
    assert_eq!(t.command_bytes(), b"hlp".to_vec());
    assert_eq!(t.editing_position(), 3);
    assert_eq!(t.cursor_position().0, 52 + 3 * 9);
    t.move_cursor_left();
    t.move_cursor_left();
    t.push_command_char('e');
    assert_eq!(t.command_bytes(), b"help".to_vec());
    assert_eq!(t.editing_position(), 2);
    assert_eq!(t.cursor_position().0, 52 + 2 * 9);
    t.move_cursor_right();
    t.move_cursor_right();
    t.move_cursor_right();
    assert_eq!(t.editing_position(), 4);
}

#[test]
fn non_ascii_is_ignored_and_the_line_holds_sixty_four() {
    let mut buf = screen();
    let mut fb = Framebuffer::new(&mut buf, info());
    let mut t = Terminal::new(&mut fb);
    t.push_command_char('é');
    assert_eq!(t.command_bytes(), Vec::<u8>::new());
    for _ in 0..70 {
        t.push_command_char('x');
    }
    assert_eq!(t.command_bytes().len(), 64);
}

#[test]
fn backspace_removes_before_the_editing_position() {
    let mut buf = screen();
    let mut fb = Framebuffer::new(&mut buf, info());
    let mut t = Terminal::new(&mut fb);
    type_text(&mut t, "abcd");
    t.move_cursor_left();
    t.remove_command_char();
    assert_eq!(t.command_bytes(), b"abd".to_vec());
    assert_eq!(t.editing_position(), 2);
    t.move_cursor_left();
    t.move_cursor_left();
    t.remove_command_char();
    assert_eq!(t.command_bytes(), b"abd".to_vec());
}

#[test]
fn typing_then_erasing_restores_the_line() {
    let mut buf = screen();
    let mut fb = Framebuffer::new(&mut buf, info());
    let mut t = Terminal::new(&mut fb);
    type_text(&mut t, "echo");
    t.move_cursor_left();
    let before = (t.command_bytes(), t.editing_position());
    t.push_command_char('z');
    t.remove_command_char();
    assert_eq!((t.command_bytes(), t.editing_position()), before);
}

#[test]
fn selection_is_replaced_or_erased_as_a_whole() {
    let mut buf = screen();
    let mut fb = Framebuffer::new(&mut buf, info());
    let mut t = Terminal::new(&mut fb);
    t.select_all();
    assert!(!t.command_selected);
    type_text(&mut t, "abc");
    t.move_cursor_left();
    t.select_all();
    assert!(t.command_selected);
    assert_eq!(t.editing_position(), 3);
    t.push_command_char('x');
    assert!(!t.command_selected);
    assert_eq!(t.command_bytes(), b"x".to_vec());
    type_text(&mut t, "yz");
    t.select_all();
    t.remove_command_char();
    assert!(!t.command_selected);
    assert_eq!(t.command_bytes(), Vec::<u8>::new());
}

#[test]
fn cancel_empties_the_line() {
    let mut buf = screen();
    let mut fb = Framebuffer::new(&mut buf, info());
    let mut t = Terminal::new(&mut fb);
    type_text(&mut t, "abc");
    t.select_all();
    t.cancel_command();
    assert_eq!(t.command_bytes(), Vec::<u8>::new());
    assert!(!t.command_selected);
    assert_eq!(t.cursor_position().0, 52);
}

#[test]
fn executed_commands_enter_the_history() {
    let mut buf = screen();
    let mut fb = Framebuffer::new(&mut buf, info());
    let mut t = Terminal::new(&mut fb);
    assert!(matches!(t.execute_command(), CommandEffect::Done));
    assert_eq!(t.history_count, 0);
    type_text(&mut t, "help");
    assert!(matches!(t.execute_command(), CommandEffect::Done));
    assert_eq!(t.history_count, 1);
    assert_eq!(t.history_index, 1);
    assert_eq!(t.command_bytes(), Vec::<u8>::new());
    type_text(&mut t, "abc");
    t.load_history(0);
    assert_eq!(t.command_bytes(), b"help".to_vec());
    assert_eq!(t.editing_position(), 4);
    assert!(!t.command_selected);
    t.load_history(5);
    assert_eq!(t.command_bytes(), b"help".to_vec());
}

#[test]
fn history_keeps_the_eight_newest() {
    let mut buf = screen();
    let mut fb = Framebuffer::new(&mut buf, info());
    let mut t = Terminal::new(&mut fb);
    for word in ["c1", "c2", "c3", "c4", "c5", "c6", "c7", "c8", "c9"] {
        type_text(&mut t, word);
        t.execute_command();
    }
    assert_eq!(t.history_count, 8);
    assert_eq!(t.history_index, 8);
    t.load_history(0);
    assert_eq!(t.command_bytes(), b"c2".to_vec());
    t.load_history(7);
    assert_eq!(t.command_bytes(), b"c9".to_vec());
}

#[test]
fn arrows_walk_the_history() {
    let mut buf = screen();
    let mut fb = Framebuffer::new(&mut buf, info());
    let mut t = Terminal::new(&mut fb);
    t.history_previous();
    assert_eq!(t.command_bytes(), Vec::<u8>::new());
    for word in ["one", "two"] {
        type_text(&mut t, word);
        t.execute_command();
    }
    t.history_previous();
    assert_eq!(t.command_bytes(), b"two".to_vec());
    assert_eq!(t.history_index, 1);
    t.history_previous();
    assert_eq!(t.command_bytes(), b"one".to_vec());
    t.history_previous();
    assert_eq!(t.command_bytes(), b"one".to_vec());
    assert_eq!(t.history_index, 0);
    t.history_next();
    assert_eq!(t.command_bytes(), b"two".to_vec());
    t.history_next();
    assert_eq!(t.command_bytes(), Vec::<u8>::new());
    assert_eq!(t.history_index, 2);
}

#[test]
fn reboot_and_int3_ask_the_caller() {
    let mut buf = screen();
    let mut fb = Framebuffer::new(&mut buf, info());
    let mut t = Terminal::new(&mut fb);
    type_text(&mut t, "reboot");
    assert!(matches!(t.execute_command(), CommandEffect::Reboot));
    assert_eq!(t.history_count, 1);
    t.clear_command();
    type_text(&mut t, "int3");
    assert!(matches!(t.execute_command(), CommandEffect::Breakpoint));
    assert_eq!(t.history_count, 2);
}

#[test]
fn clear_command_restarts_at_the_top() {
    let mut buf = screen();
    let mut fb = Framebuffer::new(&mut buf, info());
    let mut t = Terminal::new(&mut fb);
    type_text(&mut t, "clear");
    t.execute_command();
    assert_eq!(t.cursor_position(), (32 + 2 * 9, 32 + 4 * 20));
    assert_eq!(t.command_bytes(), Vec::<u8>::new());
}

#[test]
fn unknown_command_prints_two_lines_and_the_prompt() {
    let mut buf = screen();
    let mut fb = Framebuffer::new(&mut buf, info());
    let mut t = Terminal::new(&mut fb);
    let (_, y) = t.cursor_position();
    type_text(&mut t, "xyz");
    t.execute_command();
    // "\n\nComando desconhecido.\n", "Digite 'help' ...\n", "\n> "
    assert_eq!(t.cursor_position(), (32 + 2 * 9, y + 5 * 20));
}

#[test]
fn echo_prints_its_argument() {
    let mut buf = screen();
    let mut fb = Framebuffer::new(&mut buf, info());
    let mut t = Terminal::new(&mut fb);
    let (_, y) = t.cursor_position();
    type_text(&mut t, "echo hi");
    t.execute_command();
    // "\n", "hi", "\n", "\n> "
    assert_eq!(t.cursor_position(), (32 + 2 * 9, y + 3 * 20));
    type_text(&mut t, "echo");
    t.execute_command();
    // "\n\n", "\n> ", "\n> "
    assert_eq!(t.cursor_position(), (32 + 2 * 9, y + 7 * 20));
}

#[test]
fn uptime_prints_hours_minutes_seconds() {
    let mut buf = screen();
    let mut fb = Framebuffer::new(&mut buf, info());
    let mut t = Terminal::new(&mut fb);
    t.update_uptime(3 * 3600 + 7 * 60 + 45);
    let (_, y) = t.cursor_position();
    type_text(&mut t, "uptime");
    t.execute_command();
    assert_eq!(t.cursor_position(), (32 + 2 * 9, y + 3 * 20));
}

#[test]
fn numbers_advance_one_glyph_per_digit() {
    let mut buf = screen();
    let mut fb = Framebuffer::new(&mut buf, info());
    let mut t = Terminal::new(&mut fb);
    let (x, y) = t.cursor_position();
    t.write_num(12345);
    assert_eq!(t.cursor_position(), (x + 5 * 9, y));
    t.write_num(0);
    assert_eq!(t.cursor_position(), (x + 6 * 9, y));
    t.write_hex(0xFF);
    assert_eq!(t.cursor_position(), (x + 8 * 9, y));
    t.write_hex(0);
    assert_eq!(t.cursor_position(), (x + 9 * 9, y));
    t.write_num(u64::MAX);
    assert_eq!(t.cursor_position(), (x + 29 * 9, y));
}

#[test]
fn newlines_and_wrapping() {
    let mut buf = screen();
    let mut fb = Framebuffer::new(&mut buf, info());
    let mut t = Terminal::new(&mut fb);
    let (_, y) = t.cursor_position();
    t.write("ab\r");
    assert_eq!(t.cursor_position(), (32, y));
    t.write("\n");
    assert_eq!(t.cursor_position(), (32, y + 20));
    let long: String = std::iter::repeat('x').take(90).collect();
    t.write(&long);
    // 32 + 9 k + 20 >= 800 first for k = 84
    assert_eq!(t.cursor_position(), (32 + 6 * 9, y + 40));
}

#[test]
fn clear_and_cursor_drawing() {
    let mut buf = screen();
    {
        let mut fb = Framebuffer::new(&mut buf, info());
        let mut t = Terminal::new(&mut fb);
        t.clear();
        assert_eq!(t.cursor_position(), (32, 32));
        t.draw_cursor(true);
    }
    let white = |x: usize, y: usize| {
        let off = (y * W + x) * 3;
        buf[off..off + 3] == [255, 255, 255]
    };
    assert!(white(32, 32));
    assert!(white(39, 47));
    assert!(!white(40, 32));
    assert!(!white(32, 48));
    assert_eq!(buf.iter().filter(|b| **b != 0).count(), 8 * 16 * 3);
}

#[test]
fn redraw_puts_the_cursor_after_the_editing_position() {
    let mut buf = screen();
    let mut fb = Framebuffer::new(&mut buf, info());
    let mut t = Terminal::new(&mut fb);
    type_text(&mut t, "abc");
    t.move_cursor_left();
    t.redraw_command();
    assert_eq!(t.cursor_position().0, 52 + 2 * 9);
    t.clear_command();
    assert_eq!(t.command_bytes(), Vec::<u8>::new());
    assert_eq!(t.editing_position(), 0);
}
