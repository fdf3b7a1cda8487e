//! How far the terminal's operations can move the cursor down. On a
//! command line without backspace bytes every operation moves it down by a
//! bounded amount, so a caller that keeps that much room below the cursor
//! meets the cursor bound that the operations require.

use vstd::prelude::*;
use crate::graphics::backend::GraphicsBackend;
use crate::graphics::types::{Color, Rect};
use super::model::{
    TermState, put_char_spec, put_chars, redraw_spec, remove_spec, write_spec, backspaces,
    selection_drawn, removed_before, command_cleared, padded, term_wf, history_loaded,
    history_stepped_back, history_stepped_forward, history_saved, command_executed, char_pushed,
    all_selected, command_cancelled, moved_left, moved_right, screen_cleared, screen_restarted,
    inserted_at, decimal, two_digits_then, help_reply, about_reply, banner, bare_echo_reply,
    echo_reply, reboot_reply, breakpoint_reply, unknown_reply, uptime_reply, prompt, ascii_bytes,
    COMMAND_CAPACITY, COMMAND_X, LINE_HEIGHT, TOP_MARGIN, CURSOR_LIMIT,
};
use super::laws::{no_backspace, lemma_redraw_keeps_command, lemma_put_char_keeps_command};
use super::lemmas::lemma_backspaces_grow;
use super::{pow_of, lemma_decimal_len_below, lemma_decimal_len};

verus! {

/// How far redrawing the command line, or printing one character, can move
/// the cursor down on a clean command line: one line per character of a
/// full command.
pub const EDIT_RISE: usize = 1280;

/// A command buffer of the right size whose command holds no backspace byte.
pub open spec fn clean_command<C>(s: TermState<C>) -> bool {
    &&& s.command.len() == COMMAND_CAPACITY
    &&& s.command_len <= COMMAND_CAPACITY
    &&& s.command_cursor <= s.command_len
    &&& no_backspace(s.command, 0, s.command_len as int)
}

proof fn lemma_put_chars_rise<G: GraphicsBackend>(
    s: TermState<G::Canvas>,
    bytes: Seq<u8>,
    i: int,
    n: int,
    bound: int,
)
    requires
        0 <= i,
        no_backspace(bytes, i, n),
    ensures
        put_chars::<G>(s, bytes, i, n, bound).cursor_y <= s.cursor_y + LINE_HEIGHT * (if i < n {
            n - i
        } else {
            0
        }),
    decreases n - i,
{
    if !(i >= n || s.measure() > bound) {
        let c = bytes[i] as char;
        assert(c != '\u{8}');
        let next = put_char_spec::<G>(s, c);
        assert(next.cursor_y <= s.cursor_y + LINE_HEIGHT);
        lemma_put_chars_rise::<G>(next, bytes, i + 1, n, bound);
    }
}

/// Redrawing a clean command line moves the cursor down by at most
/// `EDIT_RISE` and keeps the line clean.
pub proof fn lemma_redraw_rise<G: GraphicsBackend>(s: TermState<G::Canvas>)
    requires
        clean_command(s),
    ensures
        redraw_spec::<G>(s).cursor_y <= s.cursor_y + EDIT_RISE,
        clean_command(redraw_spec::<G>(s)),
{
    let rect = Rect { x: COMMAND_X, y: s.cursor_y as usize, width: 640, height: 16 };
    let blank = TermState {
        canvas: G::rect_filled(s.canvas, rect, Color { r: 0, g: 0, b: 0 }),
        cursor_x: COMMAND_X as int,
        ..s
    };
    let shown = if s.command_selected {
        selection_drawn::<G>(blank)
    } else {
        blank
    };
    assert(shown.cursor_y == s.cursor_y);
    lemma_put_chars_rise::<G>(shown, s.command, 0, s.command_len as int, s.measure());
    lemma_redraw_keeps_command::<G>(s);
}

/// Backspace on a clean command line: the same bound, and the line stays clean.
pub proof fn lemma_remove_rise<G: GraphicsBackend>(s: TermState<G::Canvas>)
    requires
        clean_command(s),
    ensures
        remove_spec::<G>(s).cursor_y <= s.cursor_y + EDIT_RISE,
        clean_command(remove_spec::<G>(s)),
{
    if s.command_selected {
        lemma_redraw_rise::<G>(TermState { command_selected: false, ..command_cleared(s) });
    } else if s.command_cursor == 0 || s.command_cursor > s.command_len {
    } else {
        let cur = s.command_cursor;
        let len = s.command_len;
        let erased = removed_before(s.command, cur, len);
        assert forall|k: int| 0 <= k < len - 1 implies erased[k] != 8 by {
            if k < cur - 1 {
                assert(erased[k] == s.command[k]);
            } else {
                assert(erased[k] == s.command[k + 1]);
            }
        }
        lemma_redraw_rise::<G>(
            TermState { command: erased, command_len: (len - 1) as nat, command_cursor: (cur - 1) as nat, ..s },
        );
    }
}

/// Printing one character on a clean command line.
pub proof fn lemma_put_char_rise<G: GraphicsBackend>(s: TermState<G::Canvas>, c: char)
    requires
        clean_command(s),
    ensures
        put_char_spec::<G>(s, c).cursor_y <= s.cursor_y + EDIT_RISE,
        clean_command(put_char_spec::<G>(s, c)),
{
    if c == '\u{8}' {
        lemma_remove_rise::<G>(s);
    } else {
        lemma_put_char_keeps_command::<G>(s, c);
    }
}

/// Writing `text` on a clean command line: at most `EDIT_RISE` per character.
pub proof fn lemma_write_rise<G: GraphicsBackend>(s: TermState<G::Canvas>, text: Seq<char>)
    requires
        clean_command(s),
    ensures
        write_spec::<G>(s, text).cursor_y <= s.cursor_y + EDIT_RISE * text.len(),
        clean_command(write_spec::<G>(s, text)),
    decreases text.len(),
{
    if text.len() > 0 {
        lemma_put_char_rise::<G>(s, text[0]);
        lemma_write_rise::<G>(put_char_spec::<G>(s, text[0]), text.drop_first());
    }
}

/// `k` backspaces on a clean command line: at most `EDIT_RISE` each.
pub proof fn lemma_backspaces_rise<G: GraphicsBackend>(s: TermState<G::Canvas>, k: nat)
    requires
        clean_command(s),
    ensures
        backspaces::<G>(s, k).cursor_y <= s.cursor_y + EDIT_RISE * k,
        clean_command(backspaces::<G>(s, k)),
    decreases k,
{
    if k > 0 {
        lemma_backspaces_rise::<G>(s, (k - 1) as nat);
        lemma_remove_rise::<G>(backspaces::<G>(s, (k - 1) as nat));
    }
}

/// No history entry holds a backspace byte.
pub open spec fn clean_history<C>(s: TermState<C>) -> bool {
    forall|i: int| 0 <= i < s.history_count ==> no_backspace(#[trigger] s.history[i], 0, s.history_len[i] as int)
}

/// Loading a history entry: at most one `EDIT_RISE` per backspace that
/// erases the typed command, and two redraws.
pub proof fn lemma_history_loaded_rise<G: GraphicsBackend>(s: TermState<G::Canvas>, index: nat)
    requires
        term_wf::<G>(s),
        clean_command(s),
        clean_history(s),
    ensures
        history_loaded::<G>(s, index).cursor_y <= s.cursor_y + EDIT_RISE * (COMMAND_CAPACITY + 2),
        clean_command(history_loaded::<G>(s, index)),
{
    if index < s.history_count {
        lemma_backspaces_rise::<G>(s, s.command_len);
        lemma_backspaces_grow::<G>(s, s.command_len);
        let erased = backspaces::<G>(s, s.command_len);
        let len = erased.history_len[index as int];
        let entry = erased.history[index as int].subrange(0, len as int);
        let loaded = TermState {
            command: padded(entry),
            command_len: len as nat,
            command_cursor: len as nat,
            command_selected: false,
            ..erased
        };
        assert(clean_command(loaded)) by {
            assert forall|k: int| 0 <= k < len implies loaded.command[k] != 8 by {
                assert(loaded.command[k] == s.history[index as int][k]);
            }
        }
        lemma_redraw_rise::<G>(loaded);
        lemma_redraw_rise::<G>(redraw_spec::<G>(loaded));
    }
}

/// The Up arrow.
pub proof fn lemma_stepped_back_rise<G: GraphicsBackend>(s: TermState<G::Canvas>)
    requires
        term_wf::<G>(s),
        clean_command(s),
        clean_history(s),
    ensures
        history_stepped_back::<G>(s).cursor_y <= s.cursor_y + EDIT_RISE * (COMMAND_CAPACITY + 2),
        clean_command(history_stepped_back::<G>(s)),
{
    if s.history_count > 0 {
        let index = if s.history_index > 0 {
            (s.history_index - 1) as nat
        } else {
            s.history_index
        };
        lemma_history_loaded_rise::<G>(TermState { history_index: index, ..s }, index);
    }
}

/// The Down arrow.
pub proof fn lemma_stepped_forward_rise<G: GraphicsBackend>(s: TermState<G::Canvas>)
    requires
        term_wf::<G>(s),
        clean_command(s),
        clean_history(s),
    ensures
        history_stepped_forward::<G>(s).cursor_y <= s.cursor_y + EDIT_RISE * (COMMAND_CAPACITY + 2),
        clean_command(history_stepped_forward::<G>(s)),
{
    if s.history_count > 0 {
        let index = if s.history_index < s.history_count {
            s.history_index + 1
        } else {
            s.history_index
        };
        let moved = TermState { history_index: index, ..s };
        if index < s.history_count {
            lemma_history_loaded_rise::<G>(moved, index);
        } else {
            lemma_redraw_rise::<G>(command_cleared(moved));
        }
    }
}

/// Editing the command line with a character other than backspace, Ctrl+A,
/// Ctrl+C or an arrow along the line: one redraw at most.
pub proof fn lemma_line_edit_rise<G: GraphicsBackend>(s: TermState<G::Canvas>, c: char)
    requires
        clean_command(s),
        c != '\u{8}',
    ensures
        char_pushed::<G>(s, c).cursor_y <= s.cursor_y + EDIT_RISE,
        clean_command(char_pushed::<G>(s, c)),
        all_selected::<G>(s).cursor_y <= s.cursor_y + EDIT_RISE,
        clean_command(all_selected::<G>(s)),
        command_cancelled::<G>(s).cursor_y <= s.cursor_y + EDIT_RISE,
        clean_command(command_cancelled::<G>(s)),
        moved_left::<G>(s).cursor_y <= s.cursor_y + EDIT_RISE,
        clean_command(moved_left::<G>(s)),
        moved_right::<G>(s).cursor_y <= s.cursor_y + EDIT_RISE,
        clean_command(moved_right::<G>(s)),
{
    if (c as u32) < 128 {
        let fresh = if s.command_selected {
            TermState { command_selected: false, ..command_cleared(s) }
        } else {
            s
        };
        if fresh.command_len < COMMAND_CAPACITY {
            let cur = fresh.command_cursor;
            let len = fresh.command_len;
            let typed = inserted_at(fresh.command, cur, len, c as u8);
            assert forall|k: int| 0 <= k < len + 1 implies typed[k] != 8 by {
                if k < cur {
                    assert(typed[k] == fresh.command[k]);
                } else if k == cur {
                    assert(typed[k] == c as u8);
                } else {
                    assert(typed[k] == fresh.command[k - 1]);
                }
            }
            lemma_redraw_rise::<G>(TermState { command: typed, command_len: len + 1, command_cursor: cur + 1, ..fresh });
        }
    }
    if s.command_len > 0 {
        lemma_redraw_rise::<G>(TermState { command_selected: true, command_cursor: s.command_len, ..s });
    }
    lemma_redraw_rise::<G>(TermState { command_selected: false, ..command_cleared(s) });
    if s.command_cursor > 0 {
        lemma_redraw_rise::<G>(TermState { command_cursor: (s.command_cursor - 1) as nat, ..s });
    }
    if s.command_cursor < s.command_len {
        lemma_redraw_rise::<G>(TermState { command_cursor: s.command_cursor + 1, ..s });
    }
}

/// Ctrl+L: the cursor starts over at the top and the greeting is printed.
pub proof fn lemma_restart_rise<G: GraphicsBackend>(s: TermState<G::Canvas>)
    requires
        clean_command(s),
        s.cursor_y >= 0,
    ensures
        screen_restarted::<G>(s).cursor_y <= s.cursor_y + TOP_MARGIN + EDIT_RISE * REPLY_LIMIT,
        clean_command(screen_restarted::<G>(s)),
{
    lemma_reply_lengths();
    lemma_write_rise::<G>(screen_cleared::<G>(s), banner());
}

/// Every reply the terminal prints is at most this many characters long.
pub const REPLY_LIMIT: usize = 256;

proof fn lemma_two_digits_len(n: nat, k: nat, rest: Seq<char>)
    requires
        decimal(n).len() <= k,
    ensures
        two_digits_then(n, rest).len() <= k + 1 + rest.len(),
{
    reveal_strlit("0");
}

/// The lengths of the replies.
pub proof fn lemma_reply_lengths()
    ensures
        prompt().len() == 3,
        banner().len() <= REPLY_LIMIT,
        help_reply().len() <= REPLY_LIMIT,
        about_reply().len() <= REPLY_LIMIT,
        bare_echo_reply().len() <= REPLY_LIMIT,
        reboot_reply().len() <= REPLY_LIMIT,
        breakpoint_reply().len() <= REPLY_LIMIT,
        unknown_reply().len() <= REPLY_LIMIT,
        forall|seconds: u64| #[trigger] uptime_reply(seconds).len() <= REPLY_LIMIT,
        forall|command: Seq<u8>|
            5 <= command.len() <= COMMAND_CAPACITY ==> #[trigger] echo_reply(command).len() <= REPLY_LIMIT,
{
    reveal_strlit("\n> ");
    reveal_strlit("NOSSO_OS\n\n");
    reveal_strlit("Kernel iniciado com sucesso!\n\n");
    reveal_strlit("> ");
    reveal_strlit("\n\nComandos disponiveis:\n");
    reveal_strlit("  help   - mostra esta mensagem\n");
    reveal_strlit("  about  - mostra informacoes do sistema\n");
    reveal_strlit("  clear  - limpa a tela\n");
    reveal_strlit("  echo   - mostra um texto\n");
    reveal_strlit("  reboot - reinicia o sistema\n");
    reveal_strlit("  uptime - mostra o tempo ligado do sistema\n");
    reveal_strlit("  int3   - testa a IDT\n");
    reveal_strlit("\n\nNOSSO_OS\n");
    reveal_strlit("Gustavo Corporation\n\n");
    reveal_strlit("Architecture : x86_64\n");
    reveal_strlit("Kernel       : 0.1.0\n");
    reveal_strlit("Status       : ONLINE\n");
    reveal_strlit("\n\n");
    reveal_strlit("\n");
    reveal_strlit("\n\nReiniciando o NOSSO_OS...\n");
    reveal_strlit("\n\nDisparando breakpoint...\n");
    reveal_strlit("\n\nComando desconhecido.\n");
    reveal_strlit("Digite 'help' para ver os comandos.\n");
    reveal_strlit("\n\nNOSSO_OS uptime: ");
    reveal_strlit(":");
    assert forall|seconds: u64| #[trigger] uptime_reply(seconds).len() <= REPLY_LIMIT by {
        reveal_with_fuel(pow_of, 3);
        let secs = (seconds % 60) as nat;
        let mins = ((seconds % 3600) / 60) as nat;
        let hours = (seconds / 3600) as nat;
        lemma_decimal_len_below(secs, 2);
        lemma_decimal_len_below(mins, 2);
        lemma_decimal_len(hours);
        let tail = ":"@ + two_digits_then(secs, prompt());
        lemma_two_digits_len(secs, 2, prompt());
        lemma_two_digits_len(mins, 2, tail);
        let mid = ":"@ + two_digits_then(mins, tail);
        lemma_two_digits_len(hours, 20, mid);
    }
}

/// Executing the typed command: the reply is printed (after the screen is
/// cleared, for `clear`), at most `EDIT_RISE` per character.
pub proof fn lemma_executed_rise<G: GraphicsBackend>(s: TermState<G::Canvas>)
    requires
        term_wf::<G>(s),
        clean_command(s),
    ensures
        command_executed::<G>(s).0.cursor_y <= s.cursor_y + TOP_MARGIN + EDIT_RISE * REPLY_LIMIT,
        clean_command(command_executed::<G>(s).0),
{
    lemma_reply_lengths();
    let command = s.command_text();
    let saved = history_saved(s);
    assert(clean_command(saved));
    lemma_write_rise::<G>(s, prompt());
    lemma_write_rise::<G>(saved, help_reply());
    lemma_write_rise::<G>(saved, about_reply());
    lemma_write_rise::<G>(screen_cleared::<G>(saved), banner());
    lemma_write_rise::<G>(saved, bare_echo_reply());
    lemma_write_rise::<G>(saved, reboot_reply());
    lemma_write_rise::<G>(saved, uptime_reply(saved.uptime_seconds));
    lemma_write_rise::<G>(saved, breakpoint_reply());
    lemma_write_rise::<G>(saved, unknown_reply());
    if ascii_bytes("echo "@).is_prefix_of(command) {
        reveal_strlit("echo ");
        assert(ascii_bytes("echo "@).len() == 5);
        assert(echo_reply(command).len() <= REPLY_LIMIT);
        lemma_write_rise::<G>(saved, echo_reply(command));
    }
}

/// How far one key press can move the terminal's cursor down, at most, on
/// a terminal without backspace bytes in its command or history.
pub const EVENT_RISE: usize = 0x10_0000;

/// Room for any one key press: no backspace byte in the command or the
/// history, and `EVENT_RISE` pixel rows left below the cursor.
pub open spec fn room_for_event<C>(s: TermState<C>) -> bool {
    &&& clean_command(s)
    &&& clean_history(s)
    &&& s.cursor_y <= CURSOR_LIMIT - EVENT_RISE
}

} // verus!
