//! The terminal as a mathematical state, and what each operation does to it.

use vstd::prelude::*;
use crate::graphics::backend::{GraphicsBackend, drawn_rows, blended_rows};
use crate::graphics::types::{Color, Point, Rect};
use crate::font::regular_16_raster;

verus! {

/// Left edge of text and of every new line.
pub const LEFT_MARGIN: usize = 32;

/// Top edge of the first line of text.
pub const TOP_MARGIN: usize = 32;

/// Left edge of the command being typed, after the prompt `> `.
pub const COMMAND_X: usize = 52;

/// Vertical distance between two lines of text.
pub const LINE_HEIGHT: usize = 20;

/// A line wraps once the next glyph would start this close to the right edge.
pub const WRAP_MARGIN: usize = 20;

/// Horizontal gap after every glyph.
pub const GLYPH_SPACING: usize = 2;

/// Number of bytes the command line holds.
pub const COMMAND_CAPACITY: usize = 64;

/// Number of commands the history keeps.
pub const HISTORY_CAPACITY: usize = 8;

/// The highest cursor row a well-formed terminal may be at: beyond it the
/// pixel rows of a line would no longer fit in a `usize`.
pub const CURSOR_LIMIT: usize = usize::MAX - 64;

/// What the terminal holds, with the screen as the backend's canvas.
#[verifier::ext_equal]
pub struct TermState<C> {
    pub canvas: C,
    pub cursor_x: int,
    pub cursor_y: int,
    /// The command buffer: `COMMAND_CAPACITY` bytes, of which the first
    /// `command_len` are the command.
    pub command: Seq<u8>,
    pub command_len: nat,
    /// Editing position inside the command.
    pub command_cursor: nat,
    pub command_selected: bool,
    pub uptime_seconds: u64,
    /// `HISTORY_CAPACITY` slots of `COMMAND_CAPACITY` bytes each.
    pub history: Seq<Seq<u8>>,
    /// How many bytes of each history slot are the command.
    pub history_len: Seq<usize>,
    pub history_count: nat,
    pub history_index: nat,
}

/// What the caller must do after a command was executed.
#[derive(Clone, Copy, Debug)]
pub enum CommandEffect {
    /// Nothing more.
    Done,
    /// Reset the machine.
    Reboot,
    /// Raise a breakpoint exception.
    Breakpoint,
}

impl<C> TermState<C> {
    /// Shrinks with every character removed from the command and when a
    /// selection is dropped; no operation of the command line increases it
    /// while it redraws.
    pub open spec fn measure(self) -> int {
        2 * self.command_len + if self.command_selected {
            1int
        } else {
            0int
        }
    }

    /// The typed command.
    pub open spec fn command_text(self) -> Seq<u8> {
        self.command.subrange(0, self.command_len as int)
    }
}

/// A command buffer holding nothing.
pub open spec fn empty_command() -> Seq<u8> {
    Seq::new(COMMAND_CAPACITY as nat, |i: int| 0u8)
}

/// `text` followed by zero bytes up to `COMMAND_CAPACITY`.
pub open spec fn padded(text: Seq<u8>) -> Seq<u8> {
    text + Seq::new((COMMAND_CAPACITY - text.len()) as nat, |i: int| 0u8)
}

/// The invariant of a terminal.
pub open spec fn term_wf<G: GraphicsBackend>(s: TermState<G::Canvas>) -> bool {
    &&& s.command.len() == COMMAND_CAPACITY
    &&& s.command_len <= COMMAND_CAPACITY
    &&& s.command_cursor <= s.command_len
    &&& s.history.len() == HISTORY_CAPACITY
    &&& (forall|i: int| 0 <= i < HISTORY_CAPACITY ==> (#[trigger] s.history[i]).len() == COMMAND_CAPACITY)
    &&& s.history_len.len() == HISTORY_CAPACITY
    &&& (forall|i: int| 0 <= i < HISTORY_CAPACITY ==> #[trigger] s.history_len[i] <= COMMAND_CAPACITY)
    &&& s.history_count <= HISTORY_CAPACITY
    &&& s.history_index <= usize::MAX
    &&& 0 <= s.cursor_x <= CURSOR_LIMIT
    &&& 0 <= s.cursor_y <= CURSOR_LIMIT
    &&& G::canvas_width(s.canvas) <= CURSOR_LIMIT
}

/// Horizontal advance of one character of the command line.
pub open spec fn glyph_advance(c: char) -> int {
    match regular_16_raster(c) {
        Some(raster) => raster.0 + GLYPH_SPACING,
        None => 0,
    }
}

/// Total advance of the first `n` bytes of `bytes`.
pub open spec fn advance_sum(bytes: Seq<u8>, n: nat) -> int
    decreases n,
{
    if n == 0 {
        0
    } else {
        advance_sum(bytes, (n - 1) as nat) + glyph_advance(bytes[n - 1] as char)
    }
}

/// The first `n` pixels of one glyph row at `(x, y)`: nonzero intensities
/// are drawn as gray, zero ones are skipped.
pub open spec fn glyph_row_drawn<G: GraphicsBackend>(
    canvas: G::Canvas,
    x: int,
    y: int,
    pixels: Seq<u8>,
    n: nat,
) -> G::Canvas
    decreases n,
{
    if n == 0 {
        canvas
    } else {
        let prev = glyph_row_drawn::<G>(canvas, x, y, pixels, (n - 1) as nat);
        let intensity = pixels[n - 1];
        if intensity == 0 {
            prev
        } else {
            G::pixel_drawn(
                prev,
                Point { x: (x + n - 1) as usize, y: y as usize },
                Color { r: intensity, g: intensity, b: intensity },
            )
        }
    }
}

/// The first `n` rows of a glyph drawn with its top-left corner at `(x, y)`.
pub open spec fn glyph_drawn<G: GraphicsBackend>(
    canvas: G::Canvas,
    x: int,
    y: int,
    rows: Seq<Seq<u8>>,
    n: nat,
) -> G::Canvas
    decreases n,
{
    if n == 0 {
        canvas
    } else {
        glyph_row_drawn::<G>(
            glyph_drawn::<G>(canvas, x, y, rows, (n - 1) as nat),
            x,
            y + n - 1,
            rows[n - 1],
            rows[n - 1].len(),
        )
    }
}

/// Moves to the start of the next line.
pub open spec fn newline<C>(s: TermState<C>) -> TermState<C> {
    TermState { cursor_x: LEFT_MARGIN as int, cursor_y: s.cursor_y + LINE_HEIGHT, ..s }
}

/// The command buffer emptied (the selection flag is left as it was).
pub open spec fn command_cleared<C>(s: TermState<C>) -> TermState<C> {
    TermState { command: empty_command(), command_len: 0, command_cursor: 0, ..s }
}

/// The command with the byte before position `cursor` removed, the rest
/// moved left and a zero byte put at the old end.
pub open spec fn removed_before(command: Seq<u8>, cursor: nat, len: nat) -> Seq<u8> {
    command.subrange(0, cursor - 1) + command.subrange(cursor as int, len as int) + seq![0u8]
        + command.subrange(len as int, command.len() as int)
}

/// The command with `byte` inserted at position `cursor`, the rest moved
/// right by one and the last byte of the buffer dropped.
pub open spec fn inserted_at(command: Seq<u8>, cursor: nat, len: nat, byte: u8) -> Seq<u8> {
    command.subrange(0, cursor as int).push(byte) + command.subrange(cursor as int, len as int)
        + command.subrange(len + 1int, command.len() as int)
}

/// The selection highlight: a translucent blue band 18 pixels high behind
/// the whole command.
pub open spec fn selection_drawn<G: GraphicsBackend>(s: TermState<G::Canvas>) -> TermState<G::Canvas> {
    if !s.command_selected || s.command_len == 0 {
        s
    } else {
        TermState {
            canvas: blended_rows::<G>(
                s.canvas,
                Rect {
                    x: COMMAND_X,
                    y: s.cursor_y as usize,
                    width: advance_sum(s.command, s.command_len) as usize,
                    height: 18,
                },
                18,
                Color { r: 40, g: 120, b: 255 },
                90,
            ),
            ..s
        }
    }
}

/// Printing one character: a newline and a carriage return move the cursor,
/// a backspace edits the command line, a character the font has is drawn
/// and the cursor advances, wrapping to the next line near the right edge;
/// other characters are ignored.
pub open spec fn put_char_spec<G: GraphicsBackend>(s: TermState<G::Canvas>, c: char) -> TermState<G::Canvas>
    decreases s.measure(), 1int, 0int,
{
    if c == '\n' {
        newline(s)
    } else if c == '\r' {
        TermState { cursor_x: LEFT_MARGIN as int, ..s }
    } else if c == '\u{8}' {
        remove_spec::<G>(s)
    } else {
        match regular_16_raster(c) {
            None => s,
            Some(raster) => {
                let canvas = glyph_drawn::<G>(s.canvas, s.cursor_x, s.cursor_y, raster.1, raster.1.len());
                let x = s.cursor_x + raster.0 + GLYPH_SPACING;
                if x + WRAP_MARGIN >= G::canvas_width(canvas) {
                    newline(TermState { canvas, ..s })
                } else {
                    TermState { canvas, cursor_x: x, ..s }
                }
            },
        }
    }
}

/// Backspace on the command line: a selection is dropped together with the
/// whole command; otherwise the byte before the editing position is
/// removed. Either way the line is redrawn. At position 0 nothing happens.
pub open spec fn remove_spec<G: GraphicsBackend>(s: TermState<G::Canvas>) -> TermState<G::Canvas>
    decreases s.measure(), 0int, 0int,
{
    if s.command_selected {
        redraw_spec::<G>(TermState { command_selected: false, ..command_cleared(s) })
    } else if s.command_cursor == 0 || s.command_cursor > s.command_len {
        s
    } else {
        redraw_spec::<G>(
            TermState {
                command: removed_before(s.command, s.command_cursor, s.command_len),
                command_len: (s.command_len - 1) as nat,
                command_cursor: (s.command_cursor - 1) as nat,
                ..s
            },
        )
    }
}

/// Prints `bytes[i..n]` as characters, one after the other. `bound` is the
/// measure of the state the printing started from.
pub open spec fn put_chars<G: GraphicsBackend>(
    s: TermState<G::Canvas>,
    bytes: Seq<u8>,
    i: int,
    n: int,
    bound: int,
) -> TermState<G::Canvas>
    decreases bound, 2int, n - i,
{
    if i < 0 || i >= n || s.measure() > bound {
        s
    } else {
        put_chars::<G>(put_char_spec::<G>(s, bytes[i] as char), bytes, i + 1, n, bound)
    }
}

/// Redrawing the command line: its area is blanked, the selection drawn if
/// there is one, the command printed from `COMMAND_X`, and the cursor put
/// after the characters before the editing position.
pub open spec fn redraw_spec<G: GraphicsBackend>(s: TermState<G::Canvas>) -> TermState<G::Canvas>
    decreases s.measure(), 3int, 0int,
{
    let blank = TermState {
        canvas: G::rect_filled(
            s.canvas,
            Rect { x: COMMAND_X, y: s.cursor_y as usize, width: 640, height: 16 },
            Color { r: 0, g: 0, b: 0 },
        ),
        cursor_x: COMMAND_X as int,
        ..s
    };
    let shown = if s.command_selected {
        selection_drawn::<G>(blank)
    } else {
        blank
    };
    let typed = put_chars::<G>(shown, s.command, 0, s.command_len as int, s.measure());
    TermState { cursor_x: COMMAND_X + advance_sum(typed.command, typed.command_cursor), ..typed }
}

/// Prints every character of `text` in order.
pub open spec fn write_spec<G: GraphicsBackend>(s: TermState<G::Canvas>, text: Seq<char>) -> TermState<G::Canvas>
    decreases text.len(),
{
    if text.len() == 0 {
        s
    } else {
        write_spec::<G>(put_char_spec::<G>(s, text[0]), text.drop_first())
    }
}

/// `k` backspaces in a row.
pub open spec fn backspaces<G: GraphicsBackend>(s: TermState<G::Canvas>, k: nat) -> TermState<G::Canvas>
    decreases k,
{
    if k == 0 {
        s
    } else {
        remove_spec::<G>(backspaces::<G>(s, (k - 1) as nat))
    }
}

/// The decimal digit `d` as a character.
pub open spec fn decimal_digit(d: nat) -> char {
    (48 + d) as char
}

/// The upper-case hexadecimal digit `d` as a character.
pub open spec fn hex_digit(d: nat) -> char {
    if d < 10 {
        (48 + d) as char
    } else {
        (65 + d - 10) as char
    }
}

/// `n` in decimal, without leading zeros ("0" for zero).
pub open spec fn decimal(n: nat) -> Seq<char>
    decreases n,
{
    if n < 10 {
        seq![decimal_digit(n)]
    } else {
        decimal(n / 10).push(decimal_digit(n % 10))
    }
}

/// `n` in upper-case hexadecimal, without leading zeros ("0" for zero).
pub open spec fn hexadecimal(n: nat) -> Seq<char>
    decreases n,
{
    if n < 16 {
        seq![hex_digit(n)]
    } else {
        hexadecimal(n / 16).push(hex_digit(n % 16))
    }
}

/// The screen filled with black and the cursor back at the top-left margin.
pub open spec fn screen_cleared<G: GraphicsBackend>(s: TermState<G::Canvas>) -> TermState<G::Canvas> {
    TermState {
        canvas: G::rect_filled(
            s.canvas,
            Rect { x: 0, y: 0, width: G::canvas_width(s.canvas), height: G::canvas_height(s.canvas) },
            Color { r: 0, g: 0, b: 0 },
        ),
        cursor_x: LEFT_MARGIN as int,
        cursor_y: TOP_MARGIN as int,
        ..s
    }
}

/// The text cursor: an 8 by 16 block at the cursor, white or black.
pub open spec fn cursor_drawn<G: GraphicsBackend>(s: TermState<G::Canvas>, visible: bool) -> TermState<G::Canvas> {
    let color = if visible {
        Color { r: 255, g: 255, b: 255 }
    } else {
        Color { r: 0, g: 0, b: 0 }
    };
    TermState {
        canvas: drawn_rows::<G>(
            s.canvas,
            Rect { x: s.cursor_x as usize, y: s.cursor_y as usize, width: 8, height: 16 },
            16,
            color,
        ),
        ..s
    }
}

/// The command copied into the next free history slot or, with the
/// history full, appended after dropping the oldest entry; the history
/// position then points past the newest entry. An empty command is not kept.
pub open spec fn history_saved<C>(s: TermState<C>) -> TermState<C> {
    if s.command_len == 0 {
        s
    } else {
        let entry = padded(s.command_text());
        if s.history_count < HISTORY_CAPACITY {
            TermState {
                history: s.history.update(s.history_count as int, entry),
                history_len: s.history_len.update(s.history_count as int, s.command_len as usize),
                history_count: s.history_count + 1,
                history_index: s.history_count + 1,
                ..s
            }
        } else {
            TermState {
                history: s.history.subrange(1, HISTORY_CAPACITY as int).push(entry),
                history_len: s.history_len.subrange(1, HISTORY_CAPACITY as int).push(s.command_len as usize),
                history_index: s.history_count,
                ..s
            }
        }
    }
}

/// Replacing the command by history entry `index`: the typed command is
/// erased with backspaces, the entry loaded with the editing position at
/// its end and no selection, and the line redrawn (twice). An index past
/// the stored entries does nothing.
pub open spec fn history_loaded<G: GraphicsBackend>(s: TermState<G::Canvas>, index: nat) -> TermState<G::Canvas> {
    if index >= s.history_count {
        s
    } else {
        let erased = backspaces::<G>(s, s.command_len);
        let len = erased.history_len[index as int];
        let loaded = TermState {
            command: padded(erased.history[index as int].subrange(0, len as int)),
            command_len: len as nat,
            command_cursor: len as nat,
            command_selected: false,
            ..erased
        };
        redraw_spec::<G>(redraw_spec::<G>(loaded))
    }
}

/// Typing `c`: a non-ASCII character is ignored; a selection is replaced
/// by an empty command; on a full line nothing more happens; otherwise `c`
/// is inserted at the editing position, which moves right, and the line is
/// redrawn.
pub open spec fn char_pushed<G: GraphicsBackend>(s: TermState<G::Canvas>, c: char) -> TermState<G::Canvas> {
    if (c as u32) >= 128 {
        s
    } else {
        let fresh = if s.command_selected {
            TermState { command_selected: false, ..command_cleared(s) }
        } else {
            s
        };
        if fresh.command_len >= COMMAND_CAPACITY {
            fresh
        } else {
            redraw_spec::<G>(
                TermState {
                    command: inserted_at(fresh.command, fresh.command_cursor, fresh.command_len, c as u8),
                    command_len: fresh.command_len + 1,
                    command_cursor: fresh.command_cursor + 1,
                    ..fresh
                },
            )
        }
    }
}

/// Selecting the whole command (nothing happens on an empty line).
pub open spec fn all_selected<G: GraphicsBackend>(s: TermState<G::Canvas>) -> TermState<G::Canvas> {
    if s.command_len == 0 {
        s
    } else {
        redraw_spec::<G>(TermState { command_selected: true, command_cursor: s.command_len, ..s })
    }
}

/// Dropping the command and the selection, then redrawing the line.
pub open spec fn command_cancelled<G: GraphicsBackend>(s: TermState<G::Canvas>) -> TermState<G::Canvas> {
    redraw_spec::<G>(TermState { command_selected: false, ..command_cleared(s) })
}

/// One position left, if there is one, and a redraw.
pub open spec fn moved_left<G: GraphicsBackend>(s: TermState<G::Canvas>) -> TermState<G::Canvas> {
    if s.command_cursor > 0 {
        redraw_spec::<G>(TermState { command_cursor: (s.command_cursor - 1) as nat, ..s })
    } else {
        s
    }
}

/// One position right, if there is one, and a redraw.
pub open spec fn moved_right<G: GraphicsBackend>(s: TermState<G::Canvas>) -> TermState<G::Canvas> {
    if s.command_cursor < s.command_len {
        redraw_spec::<G>(TermState { command_cursor: s.command_cursor + 1, ..s })
    } else {
        s
    }
}

/// The bytes of an ASCII text.
pub open spec fn ascii_bytes(text: Seq<char>) -> Seq<u8> {
    text.map_values(|c: char| c as u8)
}

/// Bytes read as characters, one each.
pub open spec fn byte_chars(bytes: Seq<u8>) -> Seq<char> {
    bytes.map_values(|b: u8| b as char)
}

/// The prompt printed after every command.
pub open spec fn prompt() -> Seq<char> {
    "\n> "@
}

/// The greeting printed on a fresh screen, ending with the prompt.
pub open spec fn banner() -> Seq<char> {
    "NOSSO_OS\n\n"@ + ("Kernel iniciado com sucesso!\n\n"@ + "> "@)
}

/// Reply to `help`, then the prompt.
pub open spec fn help_reply() -> Seq<char> {
    "\n\nComandos disponiveis:\n"@ + ("  help   - mostra esta mensagem\n"@ + (
    "  about  - mostra informacoes do sistema\n"@ + ("  clear  - limpa a tela\n"@ + (
    "  echo   - mostra um texto\n"@ + ("  reboot - reinicia o sistema\n"@ + (
    "  uptime - mostra o tempo ligado do sistema\n"@ + ("  int3   - testa a IDT\n"@ + prompt())))))))
}

/// Reply to `about`, then the prompt.
pub open spec fn about_reply() -> Seq<char> {
    "\n\nNOSSO_OS\n"@ + ("Gustavo Corporation\n\n"@ + ("Architecture : x86_64\n"@ + (
    "Kernel       : 0.1.0\n"@ + ("Status       : ONLINE\n"@ + prompt()))))
}

/// Reply to a bare `echo`, then the prompt.
pub open spec fn bare_echo_reply() -> Seq<char> {
    "\n\n"@ + ("\n> "@ + prompt())
}

/// Reply to `echo <text>`: the text on a line of its own, then the prompt.
pub open spec fn echo_reply(command: Seq<u8>) -> Seq<char> {
    "\n"@ + (byte_chars(command.subrange(5, command.len() as int)) + ("\n"@ + prompt()))
}

/// Reply to `reboot`, printed before the machine is reset.
pub open spec fn reboot_reply() -> Seq<char> {
    "\n\nReiniciando o NOSSO_OS...\n"@
}

/// Reply to `int3`, printed before the breakpoint is raised.
pub open spec fn breakpoint_reply() -> Seq<char> {
    "\n\nDisparando breakpoint...\n"@
}

/// Reply to an unknown command, then the prompt.
pub open spec fn unknown_reply() -> Seq<char> {
    "\n\nComando desconhecido.\n"@ + ("Digite 'help' para ver os comandos.\n"@ + prompt())
}

/// `n` in decimal, with a leading `0` when it has one digit, followed by `rest`.
pub open spec fn two_digits_then(n: nat, rest: Seq<char>) -> Seq<char> {
    if n < 10 {
        "0"@ + (decimal(n) + rest)
    } else {
        decimal(n) + rest
    }
}

/// Reply to `uptime`: hours, minutes and seconds as `hh:mm:ss`, then the prompt.
pub open spec fn uptime_reply(seconds: u64) -> Seq<char> {
    "\n\nNOSSO_OS uptime: "@ + two_digits_then(
        (seconds / 3600) as nat,
        ":"@ + two_digits_then(((seconds % 3600) / 60) as nat, ":"@ + two_digits_then((seconds % 60) as nat, prompt())),
    )
}

/// Executing the typed command. An empty line only prints the prompt.
/// Otherwise the command is kept in the history, its reply printed and
/// the command line emptied; `clear` blanks the screen and prints the
/// greeting instead; `reboot` and `int3` print their reply and ask the
/// caller to act, with nothing printed after.
pub open spec fn command_executed<G: GraphicsBackend>(s: TermState<G::Canvas>) -> (TermState<G::Canvas>, CommandEffect) {
    let command = s.command_text();
    if s.command_len == 0 {
        (write_spec::<G>(s, prompt()), CommandEffect::Done)
    } else {
        let saved = history_saved(s);
        if command == ascii_bytes("help"@) {
            (command_cleared(write_spec::<G>(saved, help_reply())), CommandEffect::Done)
        } else if command == ascii_bytes("about"@) {
            (command_cleared(write_spec::<G>(saved, about_reply())), CommandEffect::Done)
        } else if command == ascii_bytes("clear"@) {
            (command_cleared(write_spec::<G>(screen_cleared::<G>(saved), banner())), CommandEffect::Done)
        } else if command == ascii_bytes("echo"@) {
            (command_cleared(write_spec::<G>(saved, bare_echo_reply())), CommandEffect::Done)
        } else if ascii_bytes("echo "@).is_prefix_of(command) {
            (command_cleared(write_spec::<G>(saved, echo_reply(command))), CommandEffect::Done)
        } else if command == ascii_bytes("reboot"@) {
            (write_spec::<G>(saved, reboot_reply()), CommandEffect::Reboot)
        } else if command == ascii_bytes("uptime"@) {
            (command_cleared(write_spec::<G>(saved, uptime_reply(saved.uptime_seconds))), CommandEffect::Done)
        } else if command == ascii_bytes("int3"@) {
            (write_spec::<G>(saved, breakpoint_reply()), CommandEffect::Breakpoint)
        } else {
            (command_cleared(write_spec::<G>(saved, unknown_reply())), CommandEffect::Done)
        }
    }
}

/// A terminal before anything was drawn: cursor at the top-left margin,
/// empty command line and history, zero uptime.
pub open spec fn fresh_state<C>(canvas: C) -> TermState<C> {
    TermState {
        canvas,
        cursor_x: LEFT_MARGIN as int,
        cursor_y: TOP_MARGIN as int,
        command: empty_command(),
        command_len: 0,
        command_cursor: 0,
        command_selected: false,
        uptime_seconds: 0,
        history: Seq::new(HISTORY_CAPACITY as nat, |i: int| empty_command()),
        history_len: Seq::new(HISTORY_CAPACITY as nat, |i: int| 0usize),
        history_count: 0,
        history_index: 0,
    }
}

/// A new terminal: a cleared screen showing the greeting.
pub open spec fn booted<G: GraphicsBackend>(canvas: G::Canvas) -> TermState<G::Canvas> {
    write_spec::<G>(screen_cleared::<G>(fresh_state(canvas)), banner())
}

/// The Up arrow: with a history, the history position moves one entry
/// back (staying at the oldest) and that entry is loaded.
pub open spec fn history_stepped_back<G: GraphicsBackend>(s: TermState<G::Canvas>) -> TermState<G::Canvas> {
    if s.history_count == 0 {
        s
    } else {
        let index = if s.history_index > 0 {
            (s.history_index - 1) as nat
        } else {
            s.history_index
        };
        history_loaded::<G>(TermState { history_index: index, ..s }, index)
    }
}

/// The Down arrow: with a history, the history position moves one entry
/// forward, up to just past the newest; an entry there is loaded, past the
/// newest the command line is emptied and redrawn.
pub open spec fn history_stepped_forward<G: GraphicsBackend>(s: TermState<G::Canvas>) -> TermState<G::Canvas> {
    if s.history_count == 0 {
        s
    } else {
        let index = if s.history_index < s.history_count {
            s.history_index + 1
        } else {
            s.history_index
        };
        let moved = TermState { history_index: index, ..s };
        if index < s.history_count {
            history_loaded::<G>(moved, index)
        } else {
            redraw_spec::<G>(command_cleared(moved))
        }
    }
}

/// A fresh screen: cleared, the greeting printed, the command line emptied
/// and the selection dropped.
pub open spec fn screen_restarted<G: GraphicsBackend>(s: TermState<G::Canvas>) -> TermState<G::Canvas> {
    TermState { command_selected: false, ..command_cleared(write_spec::<G>(screen_cleared::<G>(s), banner())) }
}

} // verus!
