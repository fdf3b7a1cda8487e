//! Facts about the terminal model that the operations rely on.

use vstd::prelude::*;
use crate::graphics::backend::{GraphicsBackend, lemma_blended_rows_keep_size};
use crate::font::regular_16_raster;
use crate::graphics::types::{Color, Point, Rect};
use super::model::{
    TermState, COMMAND_X, LINE_HEIGHT, advance_sum, backspaces, command_cleared, glyph_drawn,
    glyph_row_drawn, put_char_spec, put_chars, redraw_spec, remove_spec, removed_before,
    selection_drawn, write_spec,
};

verus! {

/// `after` is reached from `before` by printing: the cursor row never goes
/// up, the screen keeps its size, and the history and uptime are untouched.
pub open spec fn grows<G: GraphicsBackend>(before: TermState<G::Canvas>, after: TermState<G::Canvas>) -> bool {
    &&& before.cursor_y <= after.cursor_y
    &&& G::canvas_width(after.canvas) == G::canvas_width(before.canvas)
    &&& G::canvas_height(after.canvas) == G::canvas_height(before.canvas)
    &&& after.history == before.history
    &&& after.history_len == before.history_len
    &&& after.history_count == before.history_count
    &&& after.history_index == before.history_index
    &&& after.uptime_seconds == before.uptime_seconds
}

pub proof fn lemma_glyph_row_keeps_size<G: GraphicsBackend>(
    canvas: G::Canvas,
    x: int,
    y: int,
    pixels: Seq<u8>,
    n: nat,
)
    ensures
        G::canvas_width(glyph_row_drawn::<G>(canvas, x, y, pixels, n)) == G::canvas_width(canvas),
        G::canvas_height(glyph_row_drawn::<G>(canvas, x, y, pixels, n)) == G::canvas_height(canvas),
    decreases n,
{
    if n > 0 {
        let prev = glyph_row_drawn::<G>(canvas, x, y, pixels, (n - 1) as nat);
        lemma_glyph_row_keeps_size::<G>(canvas, x, y, pixels, (n - 1) as nat);
        let i = pixels[n - 1];
        G::lemma_drawing_keeps_size(
            prev,
            Point { x: (x + n - 1) as usize, y: y as usize },
            Color { r: i, g: i, b: i },
            0,
        );
    }
}

pub proof fn lemma_glyph_keeps_size<G: GraphicsBackend>(
    canvas: G::Canvas,
    x: int,
    y: int,
    rows: Seq<Seq<u8>>,
    n: nat,
)
    ensures
        G::canvas_width(glyph_drawn::<G>(canvas, x, y, rows, n)) == G::canvas_width(canvas),
        G::canvas_height(glyph_drawn::<G>(canvas, x, y, rows, n)) == G::canvas_height(canvas),
    decreases n,
{
    if n > 0 {
        let prev = glyph_drawn::<G>(canvas, x, y, rows, (n - 1) as nat);
        lemma_glyph_keeps_size::<G>(canvas, x, y, rows, (n - 1) as nat);
        lemma_glyph_row_keeps_size::<G>(prev, x, y + n - 1, rows[n - 1], rows[n - 1].len());
    }
}

pub proof fn lemma_selection_grows<G: GraphicsBackend>(s: TermState<G::Canvas>)
    ensures
        grows::<G>(s, selection_drawn::<G>(s)),
        selection_drawn::<G>(s).measure() == s.measure(),
        selection_drawn::<G>(s).command == s.command,
        selection_drawn::<G>(s).command_len == s.command_len,
        selection_drawn::<G>(s).command_cursor == s.command_cursor,
        selection_drawn::<G>(s).command_selected == s.command_selected,
        selection_drawn::<G>(s).cursor_x == s.cursor_x,
        selection_drawn::<G>(s).cursor_y == s.cursor_y,
{
    if s.command_selected && s.command_len > 0 {
        lemma_blended_rows_keep_size::<G>(
            s.canvas,
            Rect {
                x: COMMAND_X,
                y: s.cursor_y as usize,
                width: advance_sum(s.command, s.command_len) as usize,
                height: 18,
            },
            18,
            Color { r: 40, g: 120, b: 255 },
            90,
        );
    }
}

pub proof fn lemma_put_char_grows<G: GraphicsBackend>(s: TermState<G::Canvas>, c: char)
    ensures
        grows::<G>(s, put_char_spec::<G>(s, c)),
    decreases s.measure(), 1int, 0int,
{
    if c == '\n' || c == '\r' {
    } else if c == '\u{8}' {
        lemma_remove_grows::<G>(s);
    } else {
        match regular_16_raster(c) {
            None => {},
            Some(raster) => {
                lemma_glyph_keeps_size::<G>(s.canvas, s.cursor_x, s.cursor_y, raster.1, raster.1.len());
            },
        }
    }
}

pub proof fn lemma_remove_grows<G: GraphicsBackend>(s: TermState<G::Canvas>)
    ensures
        grows::<G>(s, remove_spec::<G>(s)),
    decreases s.measure(), 0int, 0int,
{
    if s.command_selected {
        lemma_redraw_grows::<G>(TermState { command_selected: false, ..command_cleared(s) });
    } else if s.command_cursor == 0 || s.command_cursor > s.command_len {
    } else {
        lemma_redraw_grows::<G>(
            TermState {
                command: removed_before(s.command, s.command_cursor, s.command_len),
                command_len: (s.command_len - 1) as nat,
                command_cursor: (s.command_cursor - 1) as nat,
                ..s
            },
        );
    }
}

pub proof fn lemma_put_chars_grows<G: GraphicsBackend>(
    s: TermState<G::Canvas>,
    bytes: Seq<u8>,
    i: int,
    n: int,
    bound: int,
)
    ensures
        grows::<G>(s, put_chars::<G>(s, bytes, i, n, bound)),
    decreases bound, 2int, n - i,
{
    if i < 0 || i >= n || s.measure() > bound {
    } else {
        let next = put_char_spec::<G>(s, bytes[i] as char);
        lemma_put_char_grows::<G>(s, bytes[i] as char);
        lemma_put_chars_grows::<G>(next, bytes, i + 1, n, bound);
    }
}

pub proof fn lemma_redraw_grows<G: GraphicsBackend>(s: TermState<G::Canvas>)
    ensures
        grows::<G>(s, redraw_spec::<G>(s)),
    decreases s.measure(), 3int, 0int,
{
    let rect = Rect { x: COMMAND_X, y: s.cursor_y as usize, width: 640, height: 16 };
    let black = Color { r: 0, g: 0, b: 0 };
    G::lemma_filling_keeps_size(s.canvas, rect, black);
    let blank = TermState { canvas: G::rect_filled(s.canvas, rect, black), cursor_x: COMMAND_X as int, ..s };
    lemma_selection_grows::<G>(blank);
    let shown = if s.command_selected {
        selection_drawn::<G>(blank)
    } else {
        blank
    };
    lemma_put_chars_grows::<G>(shown, s.command, 0, s.command_len as int, s.measure());
}

pub proof fn lemma_write_grows<G: GraphicsBackend>(s: TermState<G::Canvas>, text: Seq<char>)
    ensures
        grows::<G>(s, write_spec::<G>(s, text)),
    decreases text.len(),
{
    if text.len() > 0 {
        lemma_put_char_grows::<G>(s, text[0]);
        lemma_write_grows::<G>(put_char_spec::<G>(s, text[0]), text.drop_first());
    }
}

/// Writing `a` then `b` is writing `a + b`.
pub proof fn lemma_write_concat<G: GraphicsBackend>(s: TermState<G::Canvas>, a: Seq<char>, b: Seq<char>)
    ensures
        write_spec::<G>(s, a + b) == write_spec::<G>(write_spec::<G>(s, a), b),
    decreases a.len(),
{
    if a.len() == 0 {
        assert(a + b =~= b);
    } else {
        assert((a + b)[0] == a[0]);
        assert((a + b).drop_first() =~= a.drop_first() + b);
        lemma_write_concat::<G>(put_char_spec::<G>(s, a[0]), a.drop_first(), b);
    }
}

/// Writing a prefix of a text ends no lower than writing the whole text.
pub proof fn lemma_write_prefix<G: GraphicsBackend>(s: TermState<G::Canvas>, a: Seq<char>, b: Seq<char>)
    ensures
        write_spec::<G>(s, a + b) == write_spec::<G>(write_spec::<G>(s, a), b),
        write_spec::<G>(s, a).cursor_y <= write_spec::<G>(s, a + b).cursor_y,
{
    lemma_write_concat::<G>(s, a, b);
    lemma_write_grows::<G>(write_spec::<G>(s, a), b);
}

/// Without backspaces, every character moves the cursor down by at most one line.
pub proof fn lemma_write_rises_at_most<G: GraphicsBackend>(s: TermState<G::Canvas>, text: Seq<char>)
    requires
        forall|i: int| 0 <= i < text.len() ==> text[i] != '\u{8}',
    ensures
        write_spec::<G>(s, text).cursor_y <= s.cursor_y + LINE_HEIGHT * text.len(),
    decreases text.len(),
{
    if text.len() > 0 {
        let next = put_char_spec::<G>(s, text[0]);
        assert(next.cursor_y <= s.cursor_y + LINE_HEIGHT);
        assert forall|i: int| 0 <= i < text.drop_first().len() implies text.drop_first()[i] != '\u{8}' by {
            assert(text.drop_first()[i] == text[i + 1]);
        }
        lemma_write_rises_at_most::<G>(next, text.drop_first());
    }
}

pub proof fn lemma_backspaces_grow<G: GraphicsBackend>(s: TermState<G::Canvas>, k: nat)
    ensures
        grows::<G>(s, backspaces::<G>(s, k)),
    decreases k,
{
    if k > 0 {
        lemma_backspaces_grow::<G>(s, (k - 1) as nat);
        lemma_remove_grows::<G>(backspaces::<G>(s, (k - 1) as nat));
    }
}

/// Writing one character is printing it.
pub proof fn lemma_write_one<G: GraphicsBackend>(s: TermState<G::Canvas>, c: char)
    ensures
        write_spec::<G>(s, seq![c]) == put_char_spec::<G>(s, c),
{
    assert(seq![c].drop_first() =~= Seq::<char>::empty());
    assert(write_spec::<G>(put_char_spec::<G>(s, c), Seq::<char>::empty()) == put_char_spec::<G>(s, c));
}

/// Later backspaces start from where earlier ones left off.
pub proof fn lemma_backspaces_chain<G: GraphicsBackend>(s: TermState<G::Canvas>, k: nat, m: nat)
    requires
        k <= m,
    ensures
        grows::<G>(backspaces::<G>(s, k), backspaces::<G>(s, m)),
    decreases m,
{
    if k < m {
        lemma_backspaces_chain::<G>(s, k, (m - 1) as nat);
        lemma_remove_grows::<G>(backspaces::<G>(s, (m - 1) as nat));
    }
}

} // verus!
