//! What the terminal's operations promise of each other.

use vstd::prelude::*;
use crate::graphics::backend::GraphicsBackend;
use super::model::{
    TermState, term_wf, decimal, hexadecimal, decimal_digit, hex_digit, put_char_spec, put_chars,
    redraw_spec, remove_spec, selection_drawn, char_pushed, history_saved, history_loaded,
    moved_left, moved_right, inserted_at, removed_before, padded, command_cleared, backspaces,
    all_selected, empty_command, command_executed, write_spec, ascii_bytes, byte_chars, echo_reply,
    prompt, uptime_reply, CommandEffect, COMMAND_CAPACITY, COMMAND_X,
};
use super::lemmas::{lemma_backspaces_grow, lemma_selection_grows};

verus! {

/// The number a string of decimal digits stands for.
pub open spec fn decimal_value(text: Seq<char>) -> int
    decreases text.len(),
{
    if text.len() == 0 {
        0
    } else {
        decimal_value(text.drop_last()) * 10 + (text.last() as int - 48)
    }
}

/// The number a string of upper-case hexadecimal digits stands for.
pub open spec fn hexadecimal_value(text: Seq<char>) -> int
    decreases text.len(),
{
    if text.len() == 0 {
        0
    } else {
        let c = text.last() as int;
        hexadecimal_value(text.drop_last()) * 16 + if c < 65 {
            c - 48
        } else {
            c - 55
        }
    }
}

/// `decimal(n)` is a string of digits `0`-`9` that reads back as `n`, with
/// no leading zero.
pub proof fn lemma_decimal_round_trip(n: nat)
    ensures
        decimal_value(decimal(n)) == n,
        decimal(n).len() >= 1,
        forall|i: int| 0 <= i < decimal(n).len() ==> '0' <= #[trigger] decimal(n)[i] <= '9',
        n > 0 ==> decimal(n)[0] != '0',
    decreases n,
{
    let d = decimal_digit(n % 10);
    assert(d as int == 48 + n % 10);
    if n >= 10 {
        lemma_decimal_round_trip(n / 10);
        assert(decimal(n).drop_last() =~= decimal(n / 10));
        assert(decimal(n).last() == d);
        assert(decimal(n)[0] == decimal(n / 10)[0]);
    } else {
        assert(decimal(n).drop_last() =~= Seq::<char>::empty());
        assert(decimal(n).last() == d);
        assert(decimal_value(Seq::<char>::empty()) == 0);
    }
    assert(decimal_value(decimal(n)) == decimal_value(decimal(n).drop_last()) * 10 + (decimal(n).last() as int - 48));
}

/// `hexadecimal(n)` is a string of digits `0`-`9`, `A`-`F` that reads back
/// as `n`, with no leading zero.
pub proof fn lemma_hexadecimal_round_trip(n: nat)
    ensures
        hexadecimal_value(hexadecimal(n)) == n,
        hexadecimal(n).len() >= 1,
        forall|i: int|
            0 <= i < hexadecimal(n).len() ==> ('0' <= #[trigger] hexadecimal(n)[i] <= '9' || 'A'
                <= hexadecimal(n)[i] <= 'F'),
        n > 0 ==> hexadecimal(n)[0] != '0',
    decreases n,
{
    let d = hex_digit(n % 16);
    assert(d as int == if n % 16 < 10 { 48 + n % 16 } else { 55 + n % 16 });
    if n >= 16 {
        lemma_hexadecimal_round_trip(n / 16);
        assert(hexadecimal(n).drop_last() =~= hexadecimal(n / 16));
        assert(hexadecimal(n).last() == d);
        assert(hexadecimal(n)[0] == hexadecimal(n / 16)[0]);
    } else {
        assert(hexadecimal(n).drop_last() =~= Seq::<char>::empty());
        assert(hexadecimal(n).last() == d);
        assert(hexadecimal_value(Seq::<char>::empty()) == 0);
    }
}

/// The uptime shown as `hh:mm:ss` adds up to the uptime in seconds, with
/// minutes and seconds below 60.
pub proof fn lemma_uptime_fields(seconds: u64)
    ensures
        (seconds / 3600) * 3600 + ((seconds % 3600) / 60) * 60 + seconds % 60 == seconds,
        (seconds % 3600) / 60 < 60,
        seconds % 60 < 60,
{
}

/// No byte of `bytes[i..n]` is a backspace.
pub open spec fn no_backspace(bytes: Seq<u8>, i: int, n: int) -> bool {
    forall|k: int| i <= k < n ==> bytes[k] != 8
}

/// The parts of the state that editing the command line is about.
pub open spec fn same_command_line<C>(a: TermState<C>, b: TermState<C>) -> bool {
    &&& a.command == b.command
    &&& a.command_len == b.command_len
    &&& a.command_cursor == b.command_cursor
    &&& a.command_selected == b.command_selected
    &&& a.history == b.history
    &&& a.history_len == b.history_len
    &&& a.history_count == b.history_count
}

/// Printing a character other than backspace leaves the command line alone.
pub(crate) proof fn lemma_put_char_keeps_command<G: GraphicsBackend>(s: TermState<G::Canvas>, c: char)
    requires
        c != '\u{8}',
    ensures
        same_command_line(s, put_char_spec::<G>(s, c)),
{
}

proof fn lemma_put_chars_keeps_command<G: GraphicsBackend>(
    s: TermState<G::Canvas>,
    bytes: Seq<u8>,
    i: int,
    n: int,
    bound: int,
)
    requires
        no_backspace(bytes, i, n),
    ensures
        same_command_line(s, put_chars::<G>(s, bytes, i, n, bound)),
    decreases n - i,
{
    if !(i < 0 || i >= n || s.measure() > bound) {
        assert(bytes[i] as char != '\u{8}');
        lemma_put_char_keeps_command::<G>(s, bytes[i] as char);
        lemma_put_chars_keeps_command::<G>(put_char_spec::<G>(s, bytes[i] as char), bytes, i + 1, n, bound);
    }
}

/// Redrawing a command without backspace bytes leaves the command line alone.
pub proof fn lemma_redraw_keeps_command<G: GraphicsBackend>(s: TermState<G::Canvas>)
    requires
        no_backspace(s.command, 0, s.command_len as int),
    ensures
        same_command_line(s, redraw_spec::<G>(s)),
{
    let rect = crate::graphics::types::Rect { x: COMMAND_X, y: s.cursor_y as usize, width: 640, height: 16 };
    let blank = TermState {
        canvas: G::rect_filled(s.canvas, rect, crate::graphics::types::Color { r: 0, g: 0, b: 0 }),
        cursor_x: COMMAND_X as int,
        ..s
    };
    lemma_selection_grows::<G>(blank);
    let shown = if s.command_selected {
        selection_drawn::<G>(blank)
    } else {
        blank
    };
    lemma_put_chars_keeps_command::<G>(shown, s.command, 0, s.command_len as int, s.measure());
}

/// Typing an ASCII character and then pressing backspace gives back the
/// command line: same command, same editing position, nothing selected.
/// (A command holding a backspace byte is left out: printing it edits the
/// line while it is redrawn.)
pub proof fn lemma_type_then_erase<G: GraphicsBackend>(s: TermState<G::Canvas>, c: char)
    requires
        term_wf::<G>(s),
        !s.command_selected,
        s.command_len < COMMAND_CAPACITY,
        (c as u32) < 128,
        c != '\u{8}',
        no_backspace(s.command, 0, s.command_len as int),
    ensures
        remove_spec::<G>(char_pushed::<G>(s, c)).command_text() == s.command_text(),
        remove_spec::<G>(char_pushed::<G>(s, c)).command_cursor == s.command_cursor,
        !remove_spec::<G>(char_pushed::<G>(s, c)).command_selected,
{
    let len = s.command_len;
    let cur = s.command_cursor;
    let typed = inserted_at(s.command, cur, len, c as u8);
    let s1 = TermState { command: typed, command_len: len + 1, command_cursor: cur + 1, ..s };
    assert(typed.len() == COMMAND_CAPACITY);
    assert forall|k: int| 0 <= k < len + 1 implies typed[k] != 8 by {
        if k < cur {
            assert(typed[k] == s.command[k]);
        } else if k == cur {
            assert(typed[k] == c as u8);
        } else {
            assert(typed[k] == s.command[k - 1]);
        }
    }
    lemma_redraw_keeps_command::<G>(s1);
    let s2 = redraw_spec::<G>(s1);
    assert(char_pushed::<G>(s, c) == s2);
    let erased = removed_before(typed, cur + 1, len + 1);
    assert(erased.subrange(0, len as int) =~= s.command.subrange(0, len as int));
    let s3 = TermState { command: erased, command_len: len, command_cursor: cur, ..s2 };
    assert(no_backspace(erased, 0, len as int)) by {
        assert forall|k: int| 0 <= k < len implies erased[k] != 8 by {
            assert(erased[k] == erased.subrange(0, len as int)[k]);
        }
    }
    lemma_redraw_keeps_command::<G>(s3);
}

/// Moving left and then right returns to the same editing position, with
/// the command unchanged.
pub proof fn lemma_left_then_right<G: GraphicsBackend>(s: TermState<G::Canvas>)
    requires
        term_wf::<G>(s),
        s.command_cursor > 0,
        no_backspace(s.command, 0, s.command_len as int),
    ensures
        moved_right::<G>(moved_left::<G>(s)).command_cursor == s.command_cursor,
        moved_right::<G>(moved_left::<G>(s)).command == s.command,
        moved_right::<G>(moved_left::<G>(s)).command_len == s.command_len,
{
    let s1 = TermState { command_cursor: (s.command_cursor - 1) as nat, ..s };
    lemma_redraw_keeps_command::<G>(s1);
    let s2 = redraw_spec::<G>(s1);
    let s3 = TermState { command_cursor: s2.command_cursor + 1, ..s2 };
    lemma_redraw_keeps_command::<G>(s3);
}

/// A command that was kept in the history comes back, whole, when the
/// newest history entry is loaded: same text, editing position at its end,
/// nothing selected. (Left out: commands holding a backspace byte, which
/// edit themselves while the line is redrawn.)
pub proof fn lemma_saved_command_recalled<G: GraphicsBackend>(s: TermState<G::Canvas>)
    requires
        term_wf::<G>(s),
        s.command_len > 0,
        no_backspace(s.command, 0, s.command_len as int),
    ensures
        history_saved(s).history_count >= 1,
        history_loaded::<G>(history_saved(s), (history_saved(s).history_count - 1) as nat).command_text()
            == s.command_text(),
        history_loaded::<G>(history_saved(s), (history_saved(s).history_count - 1) as nat).command_cursor
            == s.command_len,
        !history_loaded::<G>(history_saved(s), (history_saved(s).history_count - 1) as nat).command_selected,
{
    let saved = history_saved(s);
    let newest = (saved.history_count - 1) as nat;
    let text = s.command_text();
    assert(saved.history[newest as int] == padded(text));
    assert(saved.history_len[newest as int] == s.command_len);
    let erased = backspaces::<G>(saved, saved.command_len);
    lemma_backspaces_grow::<G>(saved, saved.command_len);
    let len = erased.history_len[newest as int];
    let entry = erased.history[newest as int].subrange(0, len as int);
    assert(entry =~= text);
    let loaded = TermState {
        command: padded(entry),
        command_len: len as nat,
        command_cursor: len as nat,
        command_selected: false,
        ..erased
    };
    assert(no_backspace(loaded.command, 0, loaded.command_len as int)) by {
        assert forall|k: int| 0 <= k < loaded.command_len implies loaded.command[k] != 8 by {
            assert(loaded.command[k] == text[k]);
        }
    }
    lemma_redraw_keeps_command::<G>(loaded);
    let once = redraw_spec::<G>(loaded);
    lemma_redraw_keeps_command::<G>(once);
    assert(once.command.subrange(0, len as int) =~= text);
}

/// Selecting the whole command and pressing backspace empties the command
/// line. (Left out: commands holding a backspace byte, as above.)
pub proof fn lemma_select_all_then_erase<G: GraphicsBackend>(s: TermState<G::Canvas>)
    requires
        term_wf::<G>(s),
        no_backspace(s.command, 0, s.command_len as int),
    ensures
        remove_spec::<G>(all_selected::<G>(s)).command_len == 0,
        remove_spec::<G>(all_selected::<G>(s)).command_cursor == 0,
        !remove_spec::<G>(all_selected::<G>(s)).command_selected,
{
    let selected = all_selected::<G>(s);
    if s.command_len > 0 {
        let marked = TermState { command_selected: true, command_cursor: s.command_len, ..s };
        lemma_redraw_keeps_command::<G>(marked);
    }
    let cleared = TermState { command_selected: false, ..command_cleared(selected) };
    if selected.command_selected {
        lemma_redraw_keeps_command::<G>(cleared);
    }
}

/// Typing a character over a selected command replaces the whole command
/// with that character. (Left out: commands holding a backspace byte, and
/// the backspace character itself, which edit the line while it is redrawn.)
pub proof fn lemma_typing_replaces_selection<G: GraphicsBackend>(s: TermState<G::Canvas>, c: char)
    requires
        term_wf::<G>(s),
        s.command_len > 0,
        (c as u32) < 128,
        c != '\u{8}',
        no_backspace(s.command, 0, s.command_len as int),
    ensures
        char_pushed::<G>(all_selected::<G>(s), c).command_text() == seq![c as u8],
        char_pushed::<G>(all_selected::<G>(s), c).command_cursor == 1,
        !char_pushed::<G>(all_selected::<G>(s), c).command_selected,
{
    let marked = TermState { command_selected: true, command_cursor: s.command_len, ..s };
    lemma_redraw_keeps_command::<G>(marked);
    let selected = all_selected::<G>(s);
    let fresh = TermState { command_selected: false, ..command_cleared(selected) };
    let typed = inserted_at(empty_command(), 0, 0, c as u8);
    assert(typed[0] == c as u8);
    let next = TermState { command: typed, command_len: 1, command_cursor: 1, ..fresh };
    lemma_redraw_keeps_command::<G>(next);
    assert(redraw_spec::<G>(next).command_text() =~= seq![c as u8]);
}

/// Executing `echo ` followed by a text `text` keeps the command in the
/// history, prints a newline, then `text` itself (the `echo ` prefix is not
/// printed), then a newline and the prompt, and empties the command line.
pub proof fn lemma_echo_prints_its_argument<G: GraphicsBackend>(s: TermState<G::Canvas>, text: Seq<u8>)
    requires
        term_wf::<G>(s),
        s.command_text() == ascii_bytes("echo "@) + text,
    ensures
        command_executed::<G>(s).1 is Done,
        command_executed::<G>(s).0 == command_cleared(
            write_spec::<G>(history_saved(s), "\n"@ + byte_chars(text) + "\n"@ + "\n> "@),
        ),
{
    reveal_strlit("echo ");
    reveal_strlit("echo");
    reveal_strlit("help");
    reveal_strlit("about");
    reveal_strlit("clear");
    reveal_strlit("\n");
    reveal_strlit("\n> ");
    let command = s.command_text();
    assert(command.len() == 5 + text.len());
    assert(command[0] == 101u8);
    assert(ascii_bytes("help"@)[0] == 104u8);
    assert(ascii_bytes("about"@)[0] == 97u8);
    assert(ascii_bytes("clear"@)[0] == 99u8);
    assert(ascii_bytes("echo"@).len() == 4);
    assert(command != ascii_bytes("help"@));
    assert(command != ascii_bytes("about"@));
    assert(command != ascii_bytes("clear"@));
    assert(command != ascii_bytes("echo"@));
    assert(ascii_bytes("echo "@).is_prefix_of(command)) by {
        assert(command.subrange(0, 5) =~= ascii_bytes("echo "@));
    }
    assert(command.subrange(5, command.len() as int) =~= text);
    assert(echo_reply(command) =~= "\n"@ + byte_chars(text) + "\n"@ + "\n> "@);
}

/// Typing a character on an unselected line that is not full inserts it at
/// the editing position, which moves one step right; the rest of the
/// command moves right by one. (Left out: commands holding a backspace
/// byte, and the backspace character itself.)
pub proof fn lemma_typing_inserts<G: GraphicsBackend>(s: TermState<G::Canvas>, c: char)
    requires
        term_wf::<G>(s),
        !s.command_selected,
        s.command_len < COMMAND_CAPACITY,
        (c as u32) < 128,
        c != '\u{8}',
        no_backspace(s.command, 0, s.command_len as int),
    ensures
        char_pushed::<G>(s, c).command_text() == s.command_text().subrange(0, s.command_cursor as int).push(
            c as u8,
        ) + s.command_text().subrange(s.command_cursor as int, s.command_len as int),
        char_pushed::<G>(s, c).command_cursor == s.command_cursor + 1,
        !char_pushed::<G>(s, c).command_selected,
{
    let len = s.command_len;
    let cur = s.command_cursor;
    let typed = inserted_at(s.command, cur, len, c as u8);
    assert forall|k: int| 0 <= k < len + 1 implies typed[k] != 8 by {
        if k < cur {
            assert(typed[k] == s.command[k]);
        } else if k == cur {
            assert(typed[k] == c as u8);
        } else {
            assert(typed[k] == s.command[k - 1]);
        }
    }
    let s1 = TermState { command: typed, command_len: len + 1, command_cursor: cur + 1, ..s };
    lemma_redraw_keeps_command::<G>(s1);
    assert(s1.command_text() =~= s.command_text().subrange(0, cur as int).push(c as u8) + s.command_text().subrange(
        cur as int,
        len as int,
    ));
}

/// Backspace on an unselected line deletes the byte just before the
/// editing position, which moves one step left; at the start of the line it
/// changes nothing in the command. (Left out: commands holding a backspace
/// byte.)
pub proof fn lemma_backspace_deletes<G: GraphicsBackend>(s: TermState<G::Canvas>)
    requires
        term_wf::<G>(s),
        !s.command_selected,
        no_backspace(s.command, 0, s.command_len as int),
    ensures
        s.command_cursor > 0 ==> remove_spec::<G>(s).command_text() == s.command_text().subrange(
            0,
            s.command_cursor - 1,
        ) + s.command_text().subrange(s.command_cursor as int, s.command_len as int),
        s.command_cursor > 0 ==> remove_spec::<G>(s).command_cursor == s.command_cursor - 1,
        s.command_cursor == 0 ==> remove_spec::<G>(s) == s,
        !remove_spec::<G>(s).command_selected,
{
    if s.command_cursor > 0 {
        let len = s.command_len;
        let cur = s.command_cursor;
        let erased = removed_before(s.command, cur, len);
        assert forall|k: int| 0 <= k < len - 1 implies erased[k] != 8 by {
            if k < cur - 1 {
                assert(erased[k] == s.command[k]);
            } else {
                assert(erased[k] == s.command[k + 1]);
            }
        }
        let s1 = TermState { command: erased, command_len: (len - 1) as nat, command_cursor: (cur - 1) as nat, ..s };
        lemma_redraw_keeps_command::<G>(s1);
        assert(s1.command_text() =~= s.command_text().subrange(0, cur - 1) + s.command_text().subrange(
            cur as int,
            len as int,
        ));
    }
}

/// A clock field: `n` in decimal, with a leading zero below 10.
pub open spec fn clock_field(n: nat) -> Seq<char> {
    if n < 10 {
        seq!['0'] + decimal(n)
    } else {
        decimal(n)
    }
}

/// Executing `uptime` keeps it in the history and prints the uptime as
/// `hh:mm:ss` (hours, minutes below 60 and seconds below 60 that add up to
/// the uptime), then the prompt, and empties the command line.
pub proof fn lemma_uptime_prints_the_clock<G: GraphicsBackend>(s: TermState<G::Canvas>)
    requires
        term_wf::<G>(s),
        s.command_text() == ascii_bytes("uptime"@),
    ensures
        command_executed::<G>(s).1 is Done,
        command_executed::<G>(s).0 == command_cleared(
            write_spec::<G>(
                history_saved(s),
                "\n\nNOSSO_OS uptime: "@ + clock_field((s.uptime_seconds / 3600) as nat) + seq![':'] + clock_field(
                    ((s.uptime_seconds % 3600) / 60) as nat,
                ) + seq![':'] + clock_field((s.uptime_seconds % 60) as nat) + "\n> "@,
            ),
        ),
{
    reveal_strlit("uptime");
    reveal_strlit("echo ");
    reveal_strlit("echo");
    reveal_strlit("help");
    reveal_strlit("about");
    reveal_strlit("clear");
    reveal_strlit("reboot");
    reveal_strlit("0");
    reveal_strlit(":");
    reveal_strlit("\n> ");
    let command = s.command_text();
    assert(command.len() == 6);
    assert(command[0] == 117u8);
    assert(ascii_bytes("help"@)[0] == 104u8);
    assert(ascii_bytes("about"@)[0] == 97u8);
    assert(ascii_bytes("clear"@)[0] == 99u8);
    assert(ascii_bytes("echo"@)[0] == 101u8);
    assert(ascii_bytes("echo "@)[0] == 101u8);
    assert(ascii_bytes("reboot"@)[0] == 114u8);
    assert(command != ascii_bytes("help"@));
    assert(command != ascii_bytes("about"@));
    assert(command != ascii_bytes("clear"@));
    assert(command != ascii_bytes("echo"@));
    assert(!ascii_bytes("echo "@).is_prefix_of(command));
    assert(command != ascii_bytes("reboot"@));
    let saved = history_saved(s);
    assert(saved.uptime_seconds == s.uptime_seconds);
    let t = s.uptime_seconds;
    assert(uptime_reply(t) =~= "\n\nNOSSO_OS uptime: "@ + clock_field((t / 3600) as nat) + seq![':'] + clock_field(
        ((t % 3600) / 60) as nat,
    ) + seq![':'] + clock_field((t % 60) as nat) + "\n> "@);
}

} // verus!
