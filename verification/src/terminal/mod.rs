//! A text terminal drawn on a graphics backend, with an editable command
//! line, a command history and a few built-in commands.

pub mod model;
pub mod lemmas;
pub mod laws;
pub mod headroom;

use vstd::prelude::*;
use crate::graphics::backend::{GraphicsBackend, drawn_rows, drawn_row, blended_rows, blended_row, lemma_drawn_rows_keep_size};
use crate::graphics::types::{Color, Point, Rect};
use crate::font::{regular_16_glyph, regular_16_raster, is_regular_16_raster};
use model::{
    history_stepped_back, history_stepped_forward, screen_restarted, booted, banner, fresh_state, echo_reply, ascii_bytes, byte_chars, prompt, two_digits_then, command_executed, help_reply, about_reply,
    all_selected, command_cancelled, moved_left, moved_right, char_pushed, inserted_at, padded,
    history_saved, history_loaded, backspaces,
    write_spec, decimal, hexadecimal, decimal_digit, hex_digit, screen_cleared, cursor_drawn,
    TermState, CommandEffect, term_wf, put_char_spec, remove_spec, redraw_spec, put_chars,
    selection_drawn, glyph_drawn, glyph_row_drawn, advance_sum, glyph_advance, newline,
    command_cleared, removed_before, empty_command, COMMAND_X, LEFT_MARGIN, LINE_HEIGHT,
    GLYPH_SPACING, WRAP_MARGIN, COMMAND_CAPACITY, CURSOR_LIMIT,
};
use laws::no_backspace;
use headroom::{room_for_event, clean_command, lemma_write_rise, EVENT_RISE};
use lemmas::{lemma_write_rises_at_most, lemma_write_prefix, lemma_backspaces_grow, lemma_backspaces_chain, lemma_redraw_grows, lemma_write_grows, lemma_write_one, grows, lemma_put_chars_grows, lemma_put_char_grows, lemma_glyph_keeps_size,
    lemma_selection_grows,
};

verus! {

/// A text terminal drawing on a borrowed graphics backend.
pub struct Terminal<'a, G> where G: GraphicsBackend {
    graphics: &'a mut G,
    cursor_x: usize,
    cursor_y: usize,
    command: [u8; 64],
    command_len: usize,
    command_cursor: usize,
    pub command_selected: bool,
    uptime_seconds: u64,
    history: [[u8; 64]; 8],
    history_len: [usize; 8],
    pub history_count: usize,
    pub history_index: usize,
}

impl<'a, G> View for Terminal<'a, G> where G: GraphicsBackend {
    type V = TermState<G::Canvas>;

    closed spec fn view(&self) -> TermState<G::Canvas> {
        TermState {
            canvas: self.graphics.canvas(),
            cursor_x: self.cursor_x as int,
            cursor_y: self.cursor_y as int,
            command: self.command@,
            command_len: self.command_len as nat,
            command_cursor: self.command_cursor as nat,
            command_selected: self.command_selected,
            uptime_seconds: self.uptime_seconds,
            history: self.history@.map_values(|entry: [u8; 64]| entry@),
            history_len: self.history_len@,
            history_count: self.history_count as nat,
            history_index: self.history_index as nat,
        }
    }
}

/// The advance of a glyph as the font gives it, bounded for arithmetic.
proof fn lemma_advance_sum_bound(bytes: Seq<u8>, n: nat)
    requires
        forall|i: int| 0 <= i < n ==> #[trigger] glyph_advance(bytes[i] as char) <= 9,
        forall|i: int| 0 <= i < n ==> 0 <= #[trigger] glyph_advance(bytes[i] as char),
    ensures
        0 <= advance_sum(bytes, n) <= 9 * n,
    decreases n,
{
    if n > 0 {
        lemma_advance_sum_bound(bytes, (n - 1) as nat);
        assert(glyph_advance(bytes[n - 1] as char) <= 9);
    }
}

/// The first `len` decimal digits in `digits`, last one first.
spec fn digits_reversed(digits: Seq<u8>, len: nat) -> Seq<char> {
    Seq::new(len, |k: int| decimal_digit(digits[len - 1 - k] as nat))
}

/// The first `len` bytes of `bytes` as characters, last one first.
spec fn chars_reversed(bytes: Seq<u8>, len: nat) -> Seq<char> {
    Seq::new(len, |k: int| bytes[len - 1 - k] as char)
}

spec fn pow_of(base: nat, k: nat) -> nat
    decreases k,
{
    if k == 0 {
        1
    } else {
        base * pow_of(base, (k - 1) as nat)
    }
}

proof fn lemma_decimal_len_below(n: nat, k: nat)
    requires
        n < pow_of(10, k),
        k >= 1,
    ensures
        decimal(n).len() <= k,
    decreases n,
{
    if n >= 10 {
        assert(k >= 2) by {
            if k == 1 {
                reveal_with_fuel(pow_of, 2);
            }
        }
        assert(n / 10 < pow_of(10, (k - 1) as nat)) by (nonlinear_arith)
            requires
                n < pow_of(10, k),
                pow_of(10, k) == 10 * pow_of(10, (k - 1) as nat),
        ;
        lemma_decimal_len_below(n / 10, (k - 1) as nat);
    }
}

proof fn lemma_hexadecimal_len_below(n: nat, k: nat)
    requires
        n < pow_of(16, k),
        k >= 1,
    ensures
        hexadecimal(n).len() <= k,
    decreases n,
{
    if n >= 16 {
        assert(k >= 2) by {
            if k == 1 {
                reveal_with_fuel(pow_of, 2);
            }
        }
        assert(n / 16 < pow_of(16, (k - 1) as nat)) by (nonlinear_arith)
            requires
                n < pow_of(16, k),
                pow_of(16, k) == 16 * pow_of(16, (k - 1) as nat),
        ;
        lemma_hexadecimal_len_below(n / 16, (k - 1) as nat);
    }
}

proof fn lemma_decimal_len(n: nat)
    requires
        n <= u64::MAX,
    ensures
        decimal(n).len() <= 20,
{
    reveal_with_fuel(pow_of, 21);
    assert(pow_of(10, 20) == 100_000_000_000_000_000_000);
    lemma_decimal_len_below(n, 20);
}

proof fn lemma_hexadecimal_len(n: nat)
    requires
        n <= u64::MAX,
    ensures
        hexadecimal(n).len() <= 16,
{
    reveal_with_fuel(pow_of, 17);
    assert(pow_of(16, 16) == 0x1_0000_0000_0000_0000);
    lemma_hexadecimal_len_below(n, 16);
}

impl<'a, G> Terminal<'a, G> where G: GraphicsBackend {
    /// The invariant every operation keeps.
    pub open spec fn wf(&self) -> bool {
        term_wf::<G>(self@)
    }

    /// A terminal on `graphics`: the screen is cleared and the greeting
    /// printed; see `booted`.
    pub fn new(graphics: &'a mut G) -> (terminal: Self)
        requires
            G::canvas_width(old(graphics).canvas()) <= CURSOR_LIMIT,
        ensures
            terminal.wf(),
            terminal@ == booted::<G>(old(graphics).canvas()),
            room_for_event(terminal@),
    {
        let ghost canvas0 = graphics.canvas();
        let mut terminal = Terminal {
            graphics,
            cursor_x: 32,
            cursor_y: 32,
            command: [0u8; 64],
            command_len: 0,
            command_cursor: 0,
            command_selected: false,
            uptime_seconds: 0,
            history: [[0u8; 64]; 8],
            history_len: [0usize; 8],
            history_count: 0,
            history_index: 0,
        };
        let zero_entry = [0u8; 64];
        assert(zero_entry@ =~= empty_command());
        assert forall|i: int| 0 <= i < 8 implies terminal.history@[i] == zero_entry by {}
        assert(terminal@.history =~= Seq::new(8, |i: int| empty_command()));
        assert(terminal@ =~= fresh_state(canvas0));
        terminal.clear();
        let ghost start = terminal@;
        proof {
            lemma_write_rise::<G>(start, banner());
            lemma_write_grows::<G>(start, banner());
            reveal_strlit("NOSSO_OS\n\n");
            reveal_strlit("Kernel iniciado com sucesso!\n\n");
            reveal_strlit("> ");
            let text = banner();
            assert(text.len() < 64);
            assert forall|i: int| 0 <= i < text.len() implies text[i] != '\u{8}' by {
                if i < 10 {
                    assert(text[i] == "NOSSO_OS\n\n"@[i]);
                } else if i < 40 {
                    assert(text[i] == "Kernel iniciado com sucesso!\n\n"@[i - 10]);
                } else {
                    assert(text[i] == "> "@[i - 40]);
                }
            }
            lemma_write_rises_at_most::<G>(start, text);
        }
        terminal.write_then("NOSSO_OS\n\n", Ghost("Kernel iniciado com sucesso!\n\n"@ + "> "@));
        terminal.write_then("Kernel iniciado com sucesso!\n\n", Ghost("> "@));
        terminal.write("> ");
        terminal
    }

    /// Advance of the glyph for `byte`, from the font.
    fn advance_of(byte: u8) -> (w: usize)
        ensures
            w == glyph_advance(byte as char),
            w <= 9,
    {
        match regular_16_glyph(byte as char) {
            Some(glyph) => glyph.width + 2,
            None => 0,
        }
    }

    /// Width in pixels of the first `n` bytes of the command when printed.
    fn command_advance(command: &[u8; 64], n: usize) -> (w: usize)
        requires
            n <= 64,
        ensures
            w == advance_sum(command@, n as nat),
            w <= 9 * n,
    {
        let mut w: usize = 0;
        let mut i: usize = 0;
        while i < n
            invariant
                i <= n <= 64,
                w == advance_sum(command@, i as nat),
                w <= 9 * i,
            decreases n - i,
        {
            let a = Self::advance_of(command[i]);
            w = w + a;
            i = i + 1;
        }
        w
    }

    /// Draws one glyph with its top-left corner at the cursor.
    fn draw_glyph(&mut self, raster: &'static [&'static [u8]])
        requires
            old(self).wf(),
            raster@.len() == 16,
            forall|i: int| 0 <= i < 16 ==> (#[trigger] raster@[i])@.len() == 7,
        ensures
            final(self)@ == (TermState {
                canvas: glyph_drawn::<G>(
                    old(self)@.canvas,
                    old(self)@.cursor_x,
                    old(self)@.cursor_y,
                    raster@.map_values(|row: &[u8]| row@),
                    16,
                ),
                ..old(self)@
            }),
    {
        let ghost s0 = self@;
        let ghost rows = raster@.map_values(|row: &[u8]| row@);
        let x = self.cursor_x;
        let y = self.cursor_y;
        let mut row: usize = 0;
        while row < 16
            invariant
                row <= 16,
                term_wf::<G>(s0),
                x == s0.cursor_x,
                y == s0.cursor_y,
                raster@.len() == 16,
                forall|i: int| 0 <= i < 16 ==> (#[trigger] raster@[i])@.len() == 7,
                rows == raster@.map_values(|r: &[u8]| r@),
                self@ == (TermState { canvas: glyph_drawn::<G>(s0.canvas, x as int, y as int, rows, row as nat), ..s0 }),
            decreases 16 - row,
        {
            let pixels = raster[row];
            assert(rows[row as int] == pixels@);
            let ghost row_start = self@.canvas;
            let mut column: usize = 0;
            while column < 7
                invariant
                    column <= 7,
                    row < 16,
                    term_wf::<G>(s0),
                    x == s0.cursor_x,
                    y == s0.cursor_y,
                    pixels@.len() == 7,
                    row_start == glyph_drawn::<G>(s0.canvas, x as int, y as int, rows, row as nat),
                    self@ == (TermState {
                        canvas: glyph_row_drawn::<G>(row_start, x as int, (y + row) as int, pixels@, column as nat),
                        ..s0
                    }),
                decreases 7 - column,
            {
                let intensity = pixels[column];
                if intensity != 0 {
                    self.graphics.draw_pixel(
                        Point::new(x + column, y + row),
                        Color::rgb(intensity, intensity, intensity),
                    );
                }
                column = column + 1;
                assert(self@ =~= (TermState {
                    canvas: glyph_row_drawn::<G>(row_start, x as int, (y + row) as int, pixels@, column as nat),
                    ..s0
                }));
            }
            row = row + 1;
            assert(self@ =~= (TermState { canvas: glyph_drawn::<G>(s0.canvas, x as int, y as int, rows, row as nat), ..s0 }));
        }
    }

    /// Empties the command buffer (the selection flag is left as it is).
    pub fn clear_command(&mut self)
        requires
            old(self).wf(),
        ensures
            final(self).wf(),
            final(self)@ == command_cleared(old(self)@),
    {
        self.command = [0u8; 64];
        self.command_len = 0;
        self.command_cursor = 0;
        assert(self@ =~= command_cleared(old(self)@));
    }

    /// Prints one character at the cursor; see `put_char_spec`.
    fn put_char(&mut self, c: char)
        requires
            old(self).wf(),
            put_char_spec::<G>(old(self)@, c).cursor_y <= CURSOR_LIMIT,
        ensures
            final(self).wf(),
            final(self)@ == put_char_spec::<G>(old(self)@, c),
            final(self)@.measure() <= old(self)@.measure(),
        decreases old(self)@.measure(), 2int, 0int,
    {
        if c == '\n' {
            self.cursor_x = 32;
            self.cursor_y = self.cursor_y + 20;
            return ;
        }
        if c == '\r' {
            self.cursor_x = 32;
            return ;
        }
        if c == '\u{8}' {
            self.backspace();
            return ;
        }
        let glyph = match regular_16_glyph(c) {
            Some(glyph) => glyph,
            None => {
                return ;
            },
        };
        let ghost s0 = self@;
        let ghost rows = glyph.raster@.map_values(|row: &[u8]| row@);
        proof {
            assert forall|i: int| 0 <= i < 16 implies (#[trigger] glyph.raster@[i])@.len() == 7 by {
                assert(rows[i] == glyph.raster@[i]@);
            }
        }
        self.draw_glyph(glyph.raster);
        proof {
            lemma_glyph_keeps_size::<G>(s0.canvas, s0.cursor_x, s0.cursor_y, rows, 16);
        }
        self.cursor_x = self.cursor_x + glyph.width + 2;
        if self.cursor_x + 20 >= self.graphics.width() {
            self.cursor_x = 32;
            self.cursor_y = self.cursor_y + 20;
        }
    }

    fn backspace(&mut self)
        requires
            old(self).wf(),
            remove_spec::<G>(old(self)@).cursor_y <= CURSOR_LIMIT,
        ensures
            final(self).wf(),
            final(self)@ == remove_spec::<G>(old(self)@),
            final(self)@.measure() <= old(self)@.measure(),
        decreases old(self)@.measure(), 1int, 0int,
    {
        self.remove_command_char();
    }

    /// Backspace on the command line; see `remove_spec`.
    pub fn remove_command_char(&mut self)
        requires
            old(self).wf(),
            remove_spec::<G>(old(self)@).cursor_y <= CURSOR_LIMIT,
        ensures
            final(self).wf(),
            final(self)@ == remove_spec::<G>(old(self)@),
            final(self)@.measure() <= old(self)@.measure(),
        decreases old(self)@.measure(), 0int, 0int,
    {
        if self.command_selected {
            self.clear_command();
            self.command_selected = false;
            assert(self@ =~= (TermState { command_selected: false, ..command_cleared(old(self)@) }));
            self.redraw_command();
            return ;
        }
        if self.command_cursor == 0 {
            return ;
        }
        let ghost s0 = self@;
        let mut i = self.command_cursor;
        while i < self.command_len
            invariant
                term_wf::<G>(s0),
                s0 == old(self)@,
                !s0.command_selected,
                1 <= s0.command_cursor <= i <= s0.command_len,
                self@ == (TermState {
                    command: s0.command.subrange(0, s0.command_cursor - 1)
                        + s0.command.subrange(s0.command_cursor as int, i as int)
                        + s0.command.subrange(i - 1, COMMAND_CAPACITY as int),
                    ..s0
                }),
            decreases s0.command_len - i,
        {
            self.command[i - 1] = self.command[i];
            i = i + 1;
            assert(self@ =~= (TermState {
                command: s0.command.subrange(0, s0.command_cursor - 1)
                    + s0.command.subrange(s0.command_cursor as int, i as int)
                    + s0.command.subrange(i - 1, COMMAND_CAPACITY as int),
                ..s0
            }));
        }
        self.command_len = self.command_len - 1;
        self.command[self.command_len] = 0;
        self.command_cursor = self.command_cursor - 1;
        assert(self@ =~= (TermState {
            command: removed_before(s0.command, s0.command_cursor, s0.command_len),
            command_len: (s0.command_len - 1) as nat,
            command_cursor: (s0.command_cursor - 1) as nat,
            ..s0
        }));
        self.redraw_command();
    }

    /// Draws the selection highlight behind the command; see `selection_drawn`.
    fn draw_selection(&mut self)
        requires
            old(self).wf(),
        ensures
            final(self).wf(),
            final(self)@ == selection_drawn::<G>(old(self)@),
    {
        proof {
            lemma_selection_grows::<G>(self@);
        }
        if !self.command_selected || self.command_len == 0 {
            return ;
        }
        let ghost s0 = self@;
        let start_x: usize = 52;
        let width = Self::command_advance(&self.command, self.command_len);
        let end_x = start_x + width;
        let color = Color::rgb(40, 120, 255);
        let alpha: u8 = 90;
        let y = self.cursor_y;
        let ghost rect = Rect { x: COMMAND_X, y: y, width: width, height: 18 };
        let mut row: usize = 0;
        while row < 18
            invariant
                row <= 18,
                term_wf::<G>(s0),
                y == s0.cursor_y,
                end_x == start_x + width,
                start_x == 52,
                width <= 9 * 64,
                rect == (Rect { x: COMMAND_X, y: y, width: width, height: 18 }),
                color == (Color { r: 40, g: 120, b: 255 }),
                alpha == 90,
                self@ == (TermState { canvas: blended_rows::<G>(s0.canvas, rect, row as nat, color, alpha), ..s0 }),
            decreases 18 - row,
        {
            let ghost row_start = self@.canvas;
            let mut px = start_x;
            while px < end_x
                invariant
                    start_x <= px <= end_x,
                    row < 18,
                    term_wf::<G>(s0),
                    y == s0.cursor_y,
                    end_x == start_x + width,
                    start_x == 52,
                    width <= 9 * 64,
                    rect == (Rect { x: COMMAND_X, y: y, width: width, height: 18 }),
                    color == (Color { r: 40, g: 120, b: 255 }),
                    alpha == 90,
                    row_start == blended_rows::<G>(s0.canvas, rect, row as nat, color, alpha),
                    self@ == (TermState {
                        canvas: blended_row::<G>(row_start, 52, (y + row) as int, (px - start_x) as nat, color, alpha),
                        ..s0
                    }),
                decreases end_x - px,
            {
                self.graphics.blend_pixel(Point::new(px, y + row), color, alpha);
                px = px + 1;
                assert(self@ =~= (TermState {
                    canvas: blended_row::<G>(row_start, 52, (y + row) as int, (px - start_x) as nat, color, alpha),
                    ..s0
                }));
            }
            row = row + 1;
            assert(self@ =~= (TermState { canvas: blended_rows::<G>(s0.canvas, rect, row as nat, color, alpha), ..s0 }));
        }
        assert(self@ =~= selection_drawn::<G>(s0));
    }

    /// Redraws the command line; see `redraw_spec`.
    pub fn redraw_command(&mut self)
        requires
            old(self).wf(),
            redraw_spec::<G>(old(self)@).cursor_y <= CURSOR_LIMIT,
        ensures
            final(self).wf(),
            final(self)@ == redraw_spec::<G>(old(self)@),
            final(self)@.measure() <= old(self)@.measure(),
        decreases old(self)@.measure(), 3int, 0int,
    {
        let ghost s0 = self@;
        let ghost bound = s0.measure();
        self.cursor_x = 52;
        self.graphics.fill_rect(Rect::new(self.cursor_x, self.cursor_y, 64 * 10, 16), Color::black());
        let ghost blank = self@;
        proof {
            G::lemma_filling_keeps_size(
                s0.canvas,
                Rect { x: COMMAND_X, y: s0.cursor_y as usize, width: 640, height: 16 },
                Color { r: 0, g: 0, b: 0 },
            );
            assert(blank =~= (TermState {
                canvas: G::rect_filled(
                    s0.canvas,
                    Rect { x: COMMAND_X, y: s0.cursor_y as usize, width: 640, height: 16 },
                    Color { r: 0, g: 0, b: 0 },
                ),
                cursor_x: COMMAND_X as int,
                ..s0
            }));
        }
        let command = self.command;
        let command_len = self.command_len;
        if self.command_selected {
            self.draw_selection();
        }
        let ghost shown = self@;
        proof {
            lemma_selection_grows::<G>(blank);
            lemma_put_chars_grows::<G>(shown, command@, 0, command_len as int, bound);
        }
        let mut i: usize = 0;
        while i < command_len
            invariant
                i <= command_len <= 64,
                command@ == s0.command,
                command_len == s0.command_len,
                s0 == old(self)@,
                bound == s0.measure(),
                self.wf(),
                self@.measure() <= bound,
                put_chars::<G>(self@, command@, i as int, command_len as int, bound)
                    == put_chars::<G>(shown, command@, 0, command_len as int, bound),
                put_chars::<G>(shown, command@, 0, command_len as int, bound).cursor_y <= CURSOR_LIMIT,
            decreases command_len - i,
        {
            let ghost before = self@;
            proof {
                lemma_put_chars_grows::<G>(
                    put_char_spec::<G>(before, command[i as int] as char),
                    command@,
                    i + 1,
                    command_len as int,
                    bound,
                );
            }
            self.put_char(command[i] as char);
            i = i + 1;
        }
        self.cursor_x = 52;
        let ghost typed = self@;
        let w = Self::command_advance(&self.command, self.command_cursor);
        self.cursor_x = 52 + w;
        assert(self@ =~= (TermState { cursor_x: COMMAND_X + advance_sum(typed.command, typed.command_cursor), ..typed }));
    }

    /// Records the uptime shown by the `uptime` command.
    pub fn update_uptime(&mut self, seconds: u64)
        requires
            old(self).wf(),
        ensures
            final(self).wf(),
            final(self)@ == (TermState { uptime_seconds: seconds, ..old(self)@ }),
    {
        self.uptime_seconds = seconds;
    }

    /// Prints `text`; see `write_spec`.
    pub fn write(&mut self, text: &str)
        requires
            old(self).wf(),
            write_spec::<G>(old(self)@, text@).cursor_y <= CURSOR_LIMIT,
        ensures
            final(self).wf(),
            final(self)@ == write_spec::<G>(old(self)@, text@),
    {
        let ghost full = text@;
        let ghost s0 = self@;
        assert(full.skip(0) =~= full);
        for c in it: text.chars()
            invariant
                it.seq() == full,
                self.wf(),
                write_spec::<G>(self@, full.skip(it.index() as int)) == write_spec::<G>(s0, full),
                write_spec::<G>(s0, full).cursor_y <= CURSOR_LIMIT,
        {
            proof {
                let rest = full.skip(it.index() as int);
                assert(rest[0] == c);
                assert(rest.drop_first() =~= full.skip(it.index() + 1));
                lemma_write_grows::<G>(put_char_spec::<G>(self@, c), rest.drop_first());
            }
            self.put_char(c);
        }
        assert(full.skip(full.len() as int) =~= Seq::<char>::empty());
    }

    /// Prints `number` in decimal; see `decimal`.
    pub fn write_num(&mut self, number: u64)
        requires
            old(self).wf(),
            write_spec::<G>(old(self)@, decimal(number as nat)).cursor_y <= CURSOR_LIMIT,
        ensures
            final(self).wf(),
            final(self)@ == write_spec::<G>(old(self)@, decimal(number as nat)),
    {
        let ghost s0 = self@;
        let ghost n = number as nat;
        if number == 0 {
            proof {
                assert(decimal(0) =~= seq!['0']);
                lemma_write_one::<G>(s0, '0');
            }
            self.put_char('0');
            return ;
        }
        let mut number = number;
        let mut digits = [0u8; 20];
        let mut len: usize = 0;
        proof {
            lemma_decimal_len(n);
            assert(digits_reversed(digits@, 0) =~= Seq::<char>::empty());
            assert(decimal(n) =~= decimal(n) + digits_reversed(digits@, 0));
        }
        while number > 0
            invariant
                len <= 20,
                decimal(n).len() <= 20,
                number > 0 ==> decimal(n) == decimal(number as nat) + digits_reversed(digits@, len as nat),
                number == 0 ==> decimal(n) == digits_reversed(digits@, len as nat),
                forall|k: int| 0 <= k < len ==> digits@[k] < 10,
            decreases number,
        {
            let ghost before = digits@;
            let ghost m = number as nat;
            assert(decimal(n).len() == decimal(m).len() + len);
            assert(decimal(m).len() >= 1);
            digits[len] = (number % 10) as u8;
            number = number / 10;
            len = len + 1;
            proof {
                let d = (m % 10) as nat;
                assert(digits_reversed(digits@, len as nat) =~= seq![decimal_digit(d)] + digits_reversed(before, (len - 1) as nat));
                if m < 10 {
                    assert(decimal(m) =~= seq![decimal_digit(d)]);
                    assert(decimal(n) =~= digits_reversed(digits@, len as nat));
                } else {
                    assert(decimal(m) == decimal(m / 10).push(decimal_digit(d)));
                    assert(decimal(n) =~= decimal(number as nat) + digits_reversed(digits@, len as nat));
                }
            }
        }
        while len > 0
            invariant
                len <= 20,
                self.wf(),
                forall|k: int| 0 <= k < 20 ==> digits@[k] < 10 || k >= len,
                write_spec::<G>(self@, digits_reversed(digits@, len as nat)) == write_spec::<G>(s0, decimal(n)),
                write_spec::<G>(s0, decimal(n)).cursor_y <= CURSOR_LIMIT,
            decreases len,
        {
            len = len - 1;
            let digit = digits[len];
            let c = ('0' as u8 + digit) as char;
            proof {
                let rest = digits_reversed(digits@, (len + 1) as nat);
                assert(c == decimal_digit(digit as nat));
                assert(rest[0] == c);
                assert(rest.drop_first() =~= digits_reversed(digits@, len as nat));
                lemma_write_grows::<G>(put_char_spec::<G>(self@, c), rest.drop_first());
            }
            self.put_char(c);
        }
        assert(digits_reversed(digits@, 0) =~= Seq::<char>::empty());
    }

    /// Prints `number` in upper-case hexadecimal; see `hexadecimal`.
    pub fn write_hex(&mut self, number: u64)
        requires
            old(self).wf(),
            write_spec::<G>(old(self)@, hexadecimal(number as nat)).cursor_y <= CURSOR_LIMIT,
        ensures
            final(self).wf(),
            final(self)@ == write_spec::<G>(old(self)@, hexadecimal(number as nat)),
    {
        let ghost s0 = self@;
        let ghost n = number as nat;
        let mut number = number;
        let mut digits = [0u8; 16];
        let mut len: usize = 0;
        if number == 0 {
            proof {
                assert(hexadecimal(0) =~= seq!['0']);
                lemma_write_one::<G>(s0, '0');
            }
            self.put_char('0');
            return ;
        }
        proof {
            lemma_hexadecimal_len(n);
            assert(chars_reversed(digits@, 0) =~= Seq::<char>::empty());
            assert(hexadecimal(n) =~= hexadecimal(n) + chars_reversed(digits@, 0));
        }
        while number > 0
            invariant
                len <= 16,
                hexadecimal(n).len() <= 16,
                number > 0 ==> hexadecimal(n) == hexadecimal(number as nat) + chars_reversed(digits@, len as nat),
                number == 0 ==> hexadecimal(n) == chars_reversed(digits@, len as nat),
            decreases number,
        {
            let ghost before = digits@;
            let ghost m = number as nat;
            assert(hexadecimal(n).len() == hexadecimal(m).len() + len);
            assert(hexadecimal(m).len() >= 1);
            assert(number & 0xF == number % 16) by (bit_vector);
            let digit = (number & 0xF) as u8;
            digits[len] = if digit <= 9 {
                '0' as u8 + digit
            } else {
                'A' as u8 + (digit - 10)
            };
            assert(number >> 4 == number / 16) by (bit_vector);
            number = number >> 4;
            len = len + 1;
            proof {
                let d = (m % 16) as nat;
                assert(digits@[len - 1] as char == hex_digit(d));
                assert(chars_reversed(digits@, len as nat) =~= seq![hex_digit(d)] + chars_reversed(before, (len - 1) as nat));
                if m < 16 {
                    assert(hexadecimal(m) =~= seq![hex_digit(d)]);
                    assert(hexadecimal(n) =~= chars_reversed(digits@, len as nat));
                } else {
                    assert(hexadecimal(m) == hexadecimal(m / 16).push(hex_digit(d)));
                    assert(hexadecimal(n) =~= hexadecimal(number as nat) + chars_reversed(digits@, len as nat));
                }
            }
        }
        while len > 0
            invariant
                len <= 16,
                self.wf(),
                write_spec::<G>(self@, chars_reversed(digits@, len as nat)) == write_spec::<G>(s0, hexadecimal(n)),
                write_spec::<G>(s0, hexadecimal(n)).cursor_y <= CURSOR_LIMIT,
            decreases len,
        {
            len = len - 1;
            let c = digits[len] as char;
            proof {
                let rest = chars_reversed(digits@, (len + 1) as nat);
                assert(rest[0] == c);
                assert(rest.drop_first() =~= chars_reversed(digits@, len as nat));
                lemma_write_grows::<G>(put_char_spec::<G>(self@, c), rest.drop_first());
            }
            self.put_char(c);
        }
        assert(chars_reversed(digits@, 0) =~= Seq::<char>::empty());
    }

    /// Fills the screen with black and puts the cursor back at the top left.
    pub fn clear(&mut self)
        requires
            old(self).wf(),
        ensures
            final(self).wf(),
            final(self)@ == screen_cleared::<G>(old(self)@),
    {
        let ghost s0 = self@;
        self.graphics.clear(Color::black());
        self.cursor_x = 32;
        self.cursor_y = 32;
        proof {
            G::lemma_filling_keeps_size(
                s0.canvas,
                Rect { x: 0, y: 0, width: G::canvas_width(s0.canvas), height: G::canvas_height(s0.canvas) },
                Color { r: 0, g: 0, b: 0 },
            );
        }
        assert(self@ =~= screen_cleared::<G>(s0));
    }

    /// Draws the 8 by 16 text cursor, white when `visible`, black otherwise.
    pub fn draw_cursor(&mut self, visible: bool)
        requires
            old(self).wf(),
        ensures
            final(self).wf(),
            final(self)@ == cursor_drawn::<G>(old(self)@, visible),
    {
        let ghost s0 = self@;
        let width: usize = 8;
        let height: usize = 16;
        let color = if visible {
            Color::white()
        } else {
            Color::black()
        };
        let x = self.cursor_x;
        let y = self.cursor_y;
        let ghost rect = Rect { x: x, y: y, width: 8, height: 16 };
        let mut row: usize = 0;
        while row < height
            invariant
                row <= height == 16,
                width == 8,
                term_wf::<G>(s0),
                x == s0.cursor_x,
                y == s0.cursor_y,
                rect == (Rect { x: x, y: y, width: 8, height: 16 }),
                self@ == (TermState { canvas: drawn_rows::<G>(s0.canvas, rect, row as nat, color), ..s0 }),
            decreases height - row,
        {
            let ghost row_start = self@.canvas;
            let mut column: usize = 0;
            while column < width
                invariant
                    column <= width == 8,
                    row < height == 16,
                    term_wf::<G>(s0),
                    x == s0.cursor_x,
                    y == s0.cursor_y,
                    rect == (Rect { x: x, y: y, width: 8, height: 16 }),
                    row_start == drawn_rows::<G>(s0.canvas, rect, row as nat, color),
                    self@ == (TermState {
                        canvas: drawn_row::<G>(row_start, x as int, (y + row) as int, column as nat, color),
                        ..s0
                    }),
                decreases width - column,
            {
                self.graphics.draw_pixel(Point::new(x + column, y + row), color);
                column = column + 1;
                assert(self@ =~= (TermState {
                    canvas: drawn_row::<G>(row_start, x as int, (y + row) as int, column as nat, color),
                    ..s0
                }));
            }
            row = row + 1;
            assert(self@ =~= (TermState { canvas: drawn_rows::<G>(s0.canvas, rect, row as nat, color), ..s0 }));
        }
        proof {
            lemma_drawn_rows_keep_size::<G>(s0.canvas, rect, 16, color);
        }
        assert(self@ =~= cursor_drawn::<G>(s0, visible));
    }

    /// Selects the whole command; see `all_selected`.
    pub fn select_all(&mut self)
        requires
            old(self).wf(),
            all_selected::<G>(old(self)@).cursor_y <= CURSOR_LIMIT,
        ensures
            final(self).wf(),
            final(self)@ == all_selected::<G>(old(self)@),
    {
        if self.command_len == 0 {
            return ;
        }
        self.command_selected = true;
        self.command_cursor = self.command_len;
        assert(self@ =~= (TermState { command_selected: true, command_cursor: old(self)@.command_len, ..old(self)@ }));
        self.redraw_command();
    }

    /// Drops the command and the selection; see `command_cancelled`.
    pub fn cancel_command(&mut self)
        requires
            old(self).wf(),
            command_cancelled::<G>(old(self)@).cursor_y <= CURSOR_LIMIT,
        ensures
            final(self).wf(),
            final(self)@ == command_cancelled::<G>(old(self)@),
    {
        self.clear_command();
        self.command_selected = false;
        assert(self@ =~= (TermState { command_selected: false, ..command_cleared(old(self)@) }));
        self.redraw_command();
    }

    /// Moves the editing position one character left; see `moved_left`.
    pub fn move_cursor_left(&mut self)
        requires
            old(self).wf(),
            moved_left::<G>(old(self)@).cursor_y <= CURSOR_LIMIT,
        ensures
            final(self).wf(),
            final(self)@ == moved_left::<G>(old(self)@),
    {
        if self.command_cursor > 0 {
            self.command_cursor = self.command_cursor - 1;
            assert(self@ =~= (TermState { command_cursor: (old(self)@.command_cursor - 1) as nat, ..old(self)@ }));
            self.redraw_command();
        }
    }

    /// Moves the editing position one character right; see `moved_right`.
    pub fn move_cursor_right(&mut self)
        requires
            old(self).wf(),
            moved_right::<G>(old(self)@).cursor_y <= CURSOR_LIMIT,
        ensures
            final(self).wf(),
            final(self)@ == moved_right::<G>(old(self)@),
    {
        if self.command_cursor < self.command_len {
            self.command_cursor = self.command_cursor + 1;
            assert(self@ =~= (TermState { command_cursor: old(self)@.command_cursor + 1, ..old(self)@ }));
            self.redraw_command();
        }
    }

    /// Types one character on the command line; see `char_pushed`.
    pub fn push_command_char(&mut self, c: char)
        requires
            old(self).wf(),
            char_pushed::<G>(old(self)@, c).cursor_y <= CURSOR_LIMIT,
        ensures
            final(self).wf(),
            final(self)@ == char_pushed::<G>(old(self)@, c),
    {
        if !((c as u32) < 128) {
            return ;
        }
        if self.command_selected {
            self.command = [0u8; 64];
            self.command_len = 0;
            self.command_cursor = 0;
            self.command_selected = false;
            assert(self@ =~= (TermState { command_selected: false, ..command_cleared(old(self)@) }));
        }
        if self.command_len >= 64 {
            return ;
        }
        let ghost s0 = self@;
        let cursor = self.command_cursor;
        let len = self.command_len;
        let mut i = len;
        assert(s0.command =~= s0.command.subrange(0, i + 1) + s0.command.subrange(i as int, len as int)
            + s0.command.subrange(len + 1, COMMAND_CAPACITY as int));
        while i > cursor
            invariant
                term_wf::<G>(s0),
                cursor == s0.command_cursor,
                len == s0.command_len,
                len < 64,
                cursor <= i <= len,
                self@ == (TermState {
                    command: s0.command.subrange(0, i + 1) + s0.command.subrange(i as int, len as int)
                        + s0.command.subrange(len + 1, COMMAND_CAPACITY as int),
                    ..s0
                }),
            decreases i,
        {
            self.command[i] = self.command[i - 1];
            i = i - 1;
            assert(self@ =~= (TermState {
                command: s0.command.subrange(0, i + 1) + s0.command.subrange(i as int, len as int)
                    + s0.command.subrange(len + 1, COMMAND_CAPACITY as int),
                ..s0
            }));
        }
        self.command[cursor] = c as u8;
        self.command_len = len + 1;
        self.command_cursor = cursor + 1;
        assert(self@ =~= (TermState {
            command: inserted_at(s0.command, s0.command_cursor, s0.command_len, c as u8),
            command_len: s0.command_len + 1,
            command_cursor: s0.command_cursor + 1,
            ..s0
        }));
        self.redraw_command();
    }

    /// Keeps the command in the history; see `history_saved`.
    fn save_history(&mut self)
        requires
            old(self).wf(),
        ensures
            final(self).wf(),
            final(self)@ == history_saved(old(self)@),
    {
        let ghost s0 = self@;
        if self.command_len == 0 {
            return ;
        }
        let len = self.command_len;
        let mut entry = [0u8; 64];
        let mut j: usize = 0;
        while j < len
            invariant
                j <= len <= 64,
                len == s0.command_len,
                self@ == s0,
                entry@ =~= s0.command.subrange(0, j as int) + Seq::new((COMMAND_CAPACITY - j) as nat, |i: int| 0u8),
            decreases len - j,
        {
            entry[j] = self.command[j];
            j = j + 1;
            assert(entry@ =~= s0.command.subrange(0, j as int) + Seq::new((COMMAND_CAPACITY - j) as nat, |i: int| 0u8));
        }
        assert(entry@ =~= padded(s0.command_text()));
        if self.history_count < 8 {
            let count = self.history_count;
            self.history[count] = entry;
            self.history_len[count] = len;
            self.history_count = count + 1;
            self.history_index = self.history_count;
            assert(self@.history =~= s0.history.update(count as int, padded(s0.command_text())));
            assert(self@ =~= history_saved(s0));
        } else {
            let mut i: usize = 0;
            while i < 7
                invariant
                    i <= 7,
                    term_wf::<G>(s0),
                    s0.history_count == 8,
                    self@ == (TermState {
                        history: s0.history.subrange(1, i + 1) + s0.history.subrange(i as int, 8),
                        history_len: s0.history_len.subrange(1, i + 1) + s0.history_len.subrange(i as int, 8),
                        ..s0
                    }),
                decreases 7 - i,
            {
                let ghost prev_history = self@.history;
                self.history[i] = self.history[i + 1];
                self.history_len[i] = self.history_len[i + 1];
                assert(self@.history =~= prev_history.update(i as int, prev_history[i + 1]));
                i = i + 1;
                assert(self@ =~= (TermState {
                    history: s0.history.subrange(1, i + 1) + s0.history.subrange(i as int, 8),
                    history_len: s0.history_len.subrange(1, i + 1) + s0.history_len.subrange(i as int, 8),
                    ..s0
                }));
            }
            let ghost prev_history = self@.history;
            self.history[7] = entry;
            self.history_len[7] = len;
            assert(self@.history =~= prev_history.update(7, entry@));
            self.history_index = self.history_count;
            assert(self@.history =~= s0.history.subrange(1, 8).push(padded(s0.command_text())));
            assert(self@.history_len =~= s0.history_len.subrange(1, 8).push(len));
            assert(self@ =~= history_saved(s0));
        }
    }

    /// Replaces the command by history entry `index`; see `history_loaded`.
    pub fn load_history(&mut self, index: usize)
        requires
            old(self).wf(),
            history_loaded::<G>(old(self)@, index as nat).cursor_y <= CURSOR_LIMIT,
        ensures
            final(self).wf(),
            final(self)@ == history_loaded::<G>(old(self)@, index as nat),
    {
        if index >= self.history_count {
            return ;
        }
        let ghost s0 = self@;
        let current_len = self.command_len;
        let ghost erased = backspaces::<G>(s0, current_len as nat);
        let ghost len0 = erased.history_len[index as int];
        let ghost loaded = TermState {
            command: padded(erased.history[index as int].subrange(0, len0 as int)),
            command_len: len0 as nat,
            command_cursor: len0 as nat,
            command_selected: false,
            ..erased
        };
        proof {
            lemma_backspaces_grow::<G>(s0, current_len as nat);
            lemma_redraw_grows::<G>(loaded);
            lemma_redraw_grows::<G>(redraw_spec::<G>(loaded));
        }
        let mut k: usize = 0;
        while k < current_len
            invariant
                k <= current_len,
                current_len == s0.command_len,
                s0 == old(self)@,
                index < s0.history_count,
                self.wf(),
                self@ == backspaces::<G>(s0, k as nat),
                erased == backspaces::<G>(s0, current_len as nat),
                erased.cursor_y <= CURSOR_LIMIT,
            decreases current_len - k,
        {
            proof {
                lemma_backspaces_chain::<G>(s0, (k + 1) as nat, current_len as nat);
            }
            self.backspace();
            k = k + 1;
        }
        proof {
            lemma_backspaces_grow::<G>(s0, current_len as nat);
        }
        self.command = [0u8; 64];
        let len = self.history_len[index];
        let mut j: usize = 0;
        while j < len
            invariant
                j <= len <= 64,
                index < 8,
                self.wf(),
                len == erased.history_len[index as int],
                self@ == (TermState { command: self.command@, ..erased }),
                self.history@[index as int]@ == erased.history[index as int],
                self.command@ =~= erased.history[index as int].subrange(0, j as int)
                    + Seq::new((COMMAND_CAPACITY - j) as nat, |i: int| 0u8),
            decreases len - j,
        {
            self.command[j] = self.history[index][j];
            j = j + 1;
            assert(self.command@ =~= erased.history[index as int].subrange(0, j as int)
                + Seq::new((COMMAND_CAPACITY - j) as nat, |i: int| 0u8));
        }
        self.command_len = len;
        self.command_cursor = self.command_len;
        self.command_selected = false;
        assert(self@ =~= loaded);
        self.redraw_command();
        self.redraw_command();
    }

    /// Whether the typed command is exactly `word`.
    fn command_is(&self, word: &str) -> (same: bool)
        requires
            self.wf(),
        ensures
            same == (self@.command_text() == ascii_bytes(word@)),
    {
        let ghost text = self@.command_text();
        let ghost expected = ascii_bytes(word@);
        let len = self.command_len;
        let mut i: usize = 0;
        for c in it: word.chars()
            invariant
                self.wf(),
                it.seq() == word@,
                i == it.index(),
                i <= len == self@.command_len,
                text == self@.command_text(),
                expected == ascii_bytes(word@),
                forall|k: int| 0 <= k < i ==> text[k] == expected[k],
        {
            proof {
                assert(c == word@[i as int]);
                assert(expected.len() == word@.len());
            }
            if i >= len || self.command[i] != c as u8 {
                proof {
                    if text == expected {
                        assert(text.len() == expected.len());
                        assert(expected[i as int] == c as u8);
                        assert(text[i as int] == self.command@[i as int]);
                    }
                }
                return false;
            }
            i = i + 1;
        }
        proof {
            assert(expected.len() == word@.len());
            if i == len {
                assert(text =~= expected);
            } else {
                assert(text.len() != expected.len());
            }
        }
        i == len
    }

    /// Whether the typed command begins with `word`.
    fn command_starts_with(&self, word: &str) -> (prefixed: bool)
        requires
            self.wf(),
        ensures
            prefixed == ascii_bytes(word@).is_prefix_of(self@.command_text()),
    {
        let ghost text = self@.command_text();
        let ghost expected = ascii_bytes(word@);
        let len = self.command_len;
        let mut i: usize = 0;
        for c in it: word.chars()
            invariant
                self.wf(),
                it.seq() == word@,
                i == it.index(),
                i <= len == self@.command_len,
                text == self@.command_text(),
                expected == ascii_bytes(word@),
                forall|k: int| 0 <= k < i ==> text[k] == expected[k],
        {
            if i >= len || self.command[i] != c as u8 {
                proof {
                    if expected.is_prefix_of(text) {
                        assert(text.subrange(0, expected.len() as int)[i as int] == text[i as int]);
                        assert(expected[i as int] == c as u8);
                    }
                }
                return false;
            }
            i = i + 1;
        }
        assert(expected =~= text.subrange(0, expected.len() as int));
        true
    }

    /// Prints `text`, knowing that `rest` is printed next.
    fn write_then(&mut self, text: &str, Ghost(rest): Ghost<Seq<char>>)
        requires
            old(self).wf(),
            write_spec::<G>(old(self)@, text@ + rest).cursor_y <= CURSOR_LIMIT,
        ensures
            final(self).wf(),
            final(self)@ == write_spec::<G>(old(self)@, text@),
            write_spec::<G>(final(self)@, rest) == write_spec::<G>(old(self)@, text@ + rest),
    {
        proof {
            lemma_write_prefix::<G>(self@, text@, rest);
        }
        self.write(text);
    }

    /// Prints `number` in decimal, knowing that `rest` is printed next.
    fn write_num_then(&mut self, number: u64, Ghost(rest): Ghost<Seq<char>>)
        requires
            old(self).wf(),
            write_spec::<G>(old(self)@, decimal(number as nat) + rest).cursor_y <= CURSOR_LIMIT,
        ensures
            final(self).wf(),
            write_spec::<G>(final(self)@, rest) == write_spec::<G>(old(self)@, decimal(number as nat) + rest),
    {
        proof {
            lemma_write_prefix::<G>(self@, decimal(number as nat), rest);
        }
        self.write_num(number);
    }

    /// Prints a number of at most two digits with a leading zero, knowing
    /// that `rest` is printed next.
    fn write_two_digits_then(&mut self, number: u64, Ghost(rest): Ghost<Seq<char>>)
        requires
            old(self).wf(),
            write_spec::<G>(old(self)@, two_digits_then(number as nat, rest)).cursor_y <= CURSOR_LIMIT,
        ensures
            final(self).wf(),
            write_spec::<G>(final(self)@, rest) == write_spec::<G>(old(self)@, two_digits_then(number as nat, rest)),
    {
        if number < 10 {
            self.write_then("0", Ghost(decimal(number as nat) + rest));
        }
        self.write_num_then(number, Ghost(rest));
    }

    /// Executes the typed command; see `command_executed`. The caller
    /// performs the returned effect.
    pub fn execute_command(&mut self) -> (effect: CommandEffect)
        requires
            old(self).wf(),
            command_executed::<G>(old(self)@).0.cursor_y <= CURSOR_LIMIT,
        ensures
            final(self).wf(),
            (final(self)@, effect) == command_executed::<G>(old(self)@),
    {
        let ghost s0 = self@;
        let command_len = self.command_len;
        let command = self.command;
        if command_len == 0 {
            self.write("\n> ");
            return CommandEffect::Done;
        }
        self.save_history();
        let ghost saved = self@;
        assert(saved.command_text() == s0.command_text());
        if self.command_is("help") {
            let ghost r8 = "  int3   - testa a IDT\n"@ + prompt();
            let ghost r7 = "  uptime - mostra o tempo ligado do sistema\n"@ + r8;
            let ghost r6 = "  reboot - reinicia o sistema\n"@ + r7;
            let ghost r5 = "  echo   - mostra um texto\n"@ + r6;
            let ghost r4 = "  clear  - limpa a tela\n"@ + r5;
            let ghost r3 = "  about  - mostra informacoes do sistema\n"@ + r4;
            let ghost r2 = "  help   - mostra esta mensagem\n"@ + r3;
            self.write_then("\n\nComandos disponiveis:\n", Ghost(r2));
            self.write_then("  help   - mostra esta mensagem\n", Ghost(r3));
            self.write_then("  about  - mostra informacoes do sistema\n", Ghost(r4));
            self.write_then("  clear  - limpa a tela\n", Ghost(r5));
            self.write_then("  echo   - mostra um texto\n", Ghost(r6));
            self.write_then("  reboot - reinicia o sistema\n", Ghost(r7));
            self.write_then("  uptime - mostra o tempo ligado do sistema\n", Ghost(r8));
            self.write_then("  int3   - testa a IDT\n", Ghost(prompt()));
        } else if self.command_is("about") {
            let ghost r5 = "Status       : ONLINE\n"@ + prompt();
            let ghost r4 = "Kernel       : 0.1.0\n"@ + r5;
            let ghost r3 = "Architecture : x86_64\n"@ + r4;
            let ghost r2 = "Gustavo Corporation\n\n"@ + r3;
            self.write_then("\n\nNOSSO_OS\n", Ghost(r2));
            self.write_then("Gustavo Corporation\n\n", Ghost(r3));
            self.write_then("Architecture : x86_64\n", Ghost(r4));
            self.write_then("Kernel       : 0.1.0\n", Ghost(r5));
            self.write_then("Status       : ONLINE\n", Ghost(prompt()));
        } else if self.command_is("clear") {
            self.clear();
            self.write_then("NOSSO_OS\n\n", Ghost("Kernel iniciado com sucesso!\n\n"@ + "> "@));
            self.write_then("Kernel iniciado com sucesso!\n\n", Ghost("> "@));
            self.write("> ");
            self.clear_command();
            return CommandEffect::Done;
        } else if self.command_is("echo") {
            self.write_then("\n\n", Ghost("\n> "@ + prompt()));
            self.write_then("\n> ", Ghost(prompt()));
        } else if self.command_starts_with("echo ") {
            let ghost rest = "\n"@ + prompt();
            let ghost text = saved.command_text();
            proof {
                reveal_strlit("echo ");
                assert(ascii_bytes("echo "@).len() == 5);
                assert(text.len() >= 5);
            }
            self.write_then("\n", Ghost(byte_chars(text.subrange(5, text.len() as int)) + rest));
            let ghost target = write_spec::<G>(saved, echo_reply(text));
            let mut i: usize = 5;
            proof {
                assert(byte_chars(command@.subrange(5, command_len as int)) =~= byte_chars(text.subrange(5, text.len() as int)));
            }
            while i < command_len
                invariant
                    5 <= i <= command_len <= 64,
                    command@ == s0.command,
                    command_len == s0.command_len,
                    self.wf(),
                    target.cursor_y <= CURSOR_LIMIT,
                    write_spec::<G>(self@, byte_chars(command@.subrange(i as int, command_len as int)) + rest) == target,
                decreases command_len - i,
            {
                let c = command[i] as char;
                proof {
                    let r = byte_chars(command@.subrange(i as int, command_len as int)) + rest;
                    assert(r[0] == c);
                    assert(r.drop_first() =~= byte_chars(command@.subrange(i + 1, command_len as int)) + rest);
                    lemma_write_grows::<G>(put_char_spec::<G>(self@, c), r.drop_first());
                }
                self.put_char(c);
                i = i + 1;
            }
            assert(byte_chars(command@.subrange(i as int, command_len as int)) + rest =~= rest);
            self.write_then("\n", Ghost(prompt()));
        } else if self.command_is("reboot") {
            self.write("\n\nReiniciando o NOSSO_OS...\n");
            return CommandEffect::Reboot;
        } else if self.command_is("uptime") {
            let total_seconds = self.uptime_seconds;
            let hours = total_seconds / 3600;
            let minutes = (total_seconds % 3600) / 60;
            let seconds = total_seconds % 60;
            let ghost after_seconds = prompt();
            let ghost after_minutes = ":"@ + two_digits_then(seconds as nat, after_seconds);
            let ghost after_hours = ":"@ + two_digits_then(minutes as nat, after_minutes);
            self.write_then("\n\nNOSSO_OS uptime: ", Ghost(two_digits_then(hours as nat, after_hours)));
            self.write_two_digits_then(hours, Ghost(after_hours));
            self.write_then(":", Ghost(two_digits_then(minutes as nat, after_minutes)));
            self.write_two_digits_then(minutes, Ghost(after_minutes));
            self.write_then(":", Ghost(two_digits_then(seconds as nat, after_seconds)));
            self.write_two_digits_then(seconds, Ghost(after_seconds));
        } else if self.command_is("int3") {
            self.write("\n\nDisparando breakpoint...\n");
            return CommandEffect::Breakpoint;
        } else {
            self.write_then("\n\nComando desconhecido.\n", Ghost("Digite 'help' para ver os comandos.\n"@ + prompt()));
            self.write_then("Digite 'help' para ver os comandos.\n", Ghost(prompt()));
        }
        self.write("\n> ");
        self.clear_command();
        CommandEffect::Done
    }

    /// Recalls the previous history entry; see `history_stepped_back`.
    pub fn history_previous(&mut self)
        requires
            old(self).wf(),
            history_stepped_back::<G>(old(self)@).cursor_y <= CURSOR_LIMIT,
        ensures
            final(self).wf(),
            final(self)@ == history_stepped_back::<G>(old(self)@),
    {
        if self.history_count > 0 {
            if self.history_index > 0 {
                self.history_index = self.history_index - 1;
            }
            self.load_history(self.history_index);
        }
    }

    /// Recalls the next history entry, or an empty line past the newest;
    /// see `history_stepped_forward`.
    pub fn history_next(&mut self)
        requires
            old(self).wf(),
            history_stepped_forward::<G>(old(self)@).cursor_y <= CURSOR_LIMIT,
        ensures
            final(self).wf(),
            final(self)@ == history_stepped_forward::<G>(old(self)@),
    {
        if self.history_count > 0 {
            if self.history_index < self.history_count {
                self.history_index = self.history_index + 1;
            }
            if self.history_index < self.history_count {
                self.load_history(self.history_index);
            } else {
                self.clear_command();
                self.redraw_command();
            }
        }
    }

    /// Clears the screen, prints the greeting and empties the command line;
    /// see `screen_restarted`.
    pub fn restart_screen(&mut self)
        requires
            old(self).wf(),
            screen_restarted::<G>(old(self)@).cursor_y <= CURSOR_LIMIT,
        ensures
            final(self).wf(),
            final(self)@ == screen_restarted::<G>(old(self)@),
    {
        self.clear();
        self.write_then("NOSSO_OS\n\n", Ghost("Kernel iniciado com sucesso!\n\n"@ + "> "@));
        self.write_then("Kernel iniciado com sucesso!\n\n", Ghost("> "@));
        self.write("> ");
        self.clear_command();
        self.command_selected = false;
        assert(self@ =~= screen_restarted::<G>(old(self)@));
    }

    /// The typed command.
    pub fn command_bytes(&self) -> (bytes: Vec<u8>)
        requires
            self.wf(),
        ensures
            bytes@ == self@.command_text(),
    {
        let mut bytes: Vec<u8> = Vec::new();
        let mut i: usize = 0;
        while i < self.command_len
            invariant
                self.wf(),
                i <= self.command_len,
                bytes@ =~= self@.command_text().subrange(0, i as int),
            decreases self.command_len - i,
        {
            bytes.push(self.command[i]);
            i = i + 1;
        }
        assert(self@.command_text().subrange(0, i as int) =~= self@.command_text());
        bytes
    }

    /// Whether any one key press surely keeps the cursor in range; see
    /// `room_for_event`.
    pub fn has_room_for_event(&self) -> (ok: bool)
        requires
            self.wf(),
        ensures
            ok == room_for_event(self@),
    {
        if self.cursor_y > CURSOR_LIMIT - EVENT_RISE {
            return false;
        }
        let mut k: usize = 0;
        while k < self.command_len
            invariant
                self.wf(),
                k <= self.command_len,
                no_backspace(self@.command, 0, k as int),
            decreases self.command_len - k,
        {
            if self.command[k] == 8 {
                return false;
            }
            k = k + 1;
        }
        let mut i: usize = 0;
        while i < self.history_count
            invariant
                self.wf(),
                i <= self.history_count,
                clean_command(self@),
                forall|h: int| 0 <= h < i ==> no_backspace(#[trigger] self@.history[h], 0, self@.history_len[h] as int),
            decreases self.history_count - i,
        {
            let len = self.history_len[i];
            assert(self@.history[i as int] == self.history[i as int]@);
            let mut j: usize = 0;
            while j < len
                invariant
                    self.wf(),
                    i < self.history_count,
                    len == self@.history_len[i as int],
                    self@.history[i as int] == self.history[i as int]@,
                    j <= len,
                    no_backspace(self@.history[i as int], 0, j as int),
                decreases len - j,
            {
                if self.history[i][j] == 8 {
                    return false;
                }
                j = j + 1;
            }
            i = i + 1;
        }
        true
    }

    /// Where the next character will be drawn, as (column, row) in pixels.
    pub fn cursor_position(&self) -> (position: (usize, usize))
        ensures
            position.0 == self@.cursor_x,
            position.1 == self@.cursor_y,
    {
        (self.cursor_x, self.cursor_y)
    }

    /// The editing position inside the command.
    pub fn editing_position(&self) -> (position: usize)
        ensures
            position == self@.command_cursor,
    {
        self.command_cursor
    }

    /// The backend drawn on.
    pub fn graphics(&self) -> (graphics: &G)
        ensures
            graphics.canvas() == self@.canvas,
    {
        &*self.graphics
    }
}

} // verus!
