//! The kernel's interactive loop: what each timer tick and each key does to
//! the keyboard state, the terminal and the blinking cursor.

use vstd::prelude::*;
use crate::graphics::backend::GraphicsBackend;
use crate::keyboard::{Keyboard, key_char, modifier_applied, is_release};
use crate::terminal::Terminal;
use crate::terminal::model::{
    TermState, CommandEffect, CURSOR_LIMIT, cursor_drawn, all_selected, command_cancelled,
    screen_restarted, history_stepped_back, history_stepped_forward, moved_left, moved_right,
    command_executed, remove_spec, char_pushed, term_wf,
};
use crate::terminal::headroom::{
    room_for_event, lemma_line_edit_rise, lemma_stepped_back_rise, lemma_stepped_forward_rise,
    lemma_restart_rise, lemma_executed_rise, lemma_remove_rise,
};
use crate::graphics::backend::lemma_drawn_rows_keep_size;
use crate::terminal::laws::{no_backspace, lemma_redraw_keeps_command, lemma_typing_inserts, lemma_backspace_deletes};
use crate::graphics::types::{Color, Rect};
use crate::timer::TIMER_FREQUENCY;

verus! {

/// Scan code of the `A` key.
pub const KEY_A: u8 = 0x1E;

/// Scan code of the `C` key.
pub const KEY_C: u8 = 0x2E;

/// Scan code of the `L` key.
pub const KEY_L: u8 = 0x26;

/// Scan code of Enter.
pub const KEY_ENTER: u8 = 0x1C;

/// Scan code of Backspace.
pub const KEY_BACKSPACE: u8 = 0x0E;

/// Scan code of the prefix of extended keys.
pub const EXTENDED_PREFIX: u8 = 0xE0;

/// Extended scan codes of the arrow keys.
pub const ARROW_UP: u8 = 0x48;

pub const ARROW_DOWN: u8 = 0x50;

pub const ARROW_LEFT: u8 = 0x4B;

pub const ARROW_RIGHT: u8 = 0x4D;

/// What the loop holds between events.
pub struct ConsoleState<C> {
    pub keyboard: Keyboard,
    pub terminal: TermState<C>,
    pub cursor_visible: bool,
    pub last_second: u64,
}

/// The keyboard, the terminal and the state of the blinking cursor.
pub struct Console<'a, G> where G: GraphicsBackend {
    pub keyboard: Keyboard,
    pub terminal: Terminal<'a, G>,
    pub cursor_visible: bool,
    pub last_second: u64,
}

/// A timer reading of `ticks`: when the whole second it falls in differs
/// from the last one seen, that second becomes the uptime and the cursor
/// blinks.
pub open spec fn ticked<G: GraphicsBackend>(c: ConsoleState<G::Canvas>, ticks: u64) -> ConsoleState<G::Canvas> {
    let second = ticks / TIMER_FREQUENCY;
    if second == c.last_second {
        c
    } else {
        ConsoleState {
            last_second: second,
            cursor_visible: !c.cursor_visible,
            terminal: cursor_drawn::<G>(TermState { uptime_seconds: second, ..c.terminal }, !c.cursor_visible),
            ..c
        }
    }
}

/// After an edit: the cursor shown again.
pub open spec fn with_cursor_shown<G: GraphicsBackend>(
    c: ConsoleState<G::Canvas>,
    keyboard: Keyboard,
    terminal: TermState<G::Canvas>,
) -> ConsoleState<G::Canvas> {
    ConsoleState { keyboard, terminal: cursor_drawn::<G>(terminal, true), cursor_visible: true, ..c }
}

/// What an extended key does to the terminal: the arrows move through the
/// history or along the command line; other extended keys do nothing.
pub open spec fn extended_key_applied<G: GraphicsBackend>(t: TermState<G::Canvas>, key: u8) -> TermState<G::Canvas> {
    if key == ARROW_UP {
        history_stepped_back::<G>(t)
    } else if key == ARROW_DOWN {
        history_stepped_forward::<G>(t)
    } else if key == ARROW_LEFT {
        moved_left::<G>(t)
    } else if key == ARROW_RIGHT {
        moved_right::<G>(t)
    } else {
        t
    }
}

/// One scan code from the keyboard, in this order: a modifier updates the
/// keyboard and shows the cursor; the `0xE0` prefix is recorded; a release
/// redraws the cursor as it was. Any other press hides the cursor first,
/// then: Ctrl+A selects the command, Ctrl+C cancels it, Ctrl+L restarts the
/// screen; after a prefix, an arrow key acts on the command line; Enter
/// executes the command, Backspace deletes, a character key types; the
/// cursor is then shown again. When the command asks for a reboot or a
/// breakpoint, that request is returned and the cursor left hidden.
pub open spec fn scancode_handled<G: GraphicsBackend>(c: ConsoleState<G::Canvas>, scancode: u8) -> (ConsoleState<G::Canvas>, CommandEffect) {
    match modifier_applied(c.keyboard, scancode) {
        Some(keyboard) => (with_cursor_shown::<G>(c, keyboard, c.terminal), CommandEffect::Done),
        None => if scancode == EXTENDED_PREFIX {
            (ConsoleState { keyboard: Keyboard { extended_scancode: true, ..c.keyboard }, ..c }, CommandEffect::Done)
        } else if is_release(scancode) {
            (ConsoleState { terminal: cursor_drawn::<G>(c.terminal, c.cursor_visible), ..c }, CommandEffect::Done)
        } else {
            let hidden = cursor_drawn::<G>(c.terminal, false);
            let kb = c.keyboard;
            if kb.ctrl_pressed && scancode == KEY_A {
                (with_cursor_shown::<G>(c, kb, all_selected::<G>(hidden)), CommandEffect::Done)
            } else if kb.ctrl_pressed && scancode == KEY_C {
                (with_cursor_shown::<G>(c, kb, command_cancelled::<G>(hidden)), CommandEffect::Done)
            } else if kb.ctrl_pressed && scancode == KEY_L {
                (with_cursor_shown::<G>(c, kb, screen_restarted::<G>(hidden)), CommandEffect::Done)
            } else if kb.extended_scancode {
                (
                    with_cursor_shown::<G>(
                        c,
                        Keyboard { extended_scancode: false, ..kb },
                        extended_key_applied::<G>(hidden, scancode),
                    ),
                    CommandEffect::Done,
                )
            } else if scancode == KEY_ENTER {
                let (t, effect) = command_executed::<G>(hidden);
                match effect {
                    CommandEffect::Done => (with_cursor_shown::<G>(c, kb, t), CommandEffect::Done),
                    _ => (ConsoleState { terminal: t, ..c }, effect),
                }
            } else if scancode == KEY_BACKSPACE {
                (with_cursor_shown::<G>(c, kb, remove_spec::<G>(hidden)), CommandEffect::Done)
            } else {
                match key_char(kb, scancode) {
                    Some(ch) => (with_cursor_shown::<G>(c, kb, char_pushed::<G>(hidden, ch)), CommandEffect::Done),
                    None => (with_cursor_shown::<G>(c, kb, hidden), CommandEffect::Done),
                }
            }
        },
    }
}

/// A second timer reading in the same second changes nothing: the uptime
/// and the cursor change once per second.
pub proof fn lemma_tick_once_per_second<G: GraphicsBackend>(c: ConsoleState<G::Canvas>, ticks: u64)
    ensures
        ticked::<G>(ticked::<G>(c, ticks), ticks) == ticked::<G>(c, ticks),
{
}

/// After any key press other than the extended-key prefix, and after any
/// modifier key, the cursor is shown, unless the key ran a command that
/// reboots or stops the machine.
pub proof fn lemma_key_press_shows_cursor<G: GraphicsBackend>(c: ConsoleState<G::Canvas>, scancode: u8)
    requires
        modifier_applied(c.keyboard, scancode) is Some || (!is_release(scancode) && scancode
            != EXTENDED_PREFIX),
        scancode_handled::<G>(c, scancode).1 is Done,
    ensures
        scancode_handled::<G>(c, scancode).0.cursor_visible,
{
}

/// A timer reading of `ticks` leaves the console at second `ticks / 100`;
/// in a new second that second becomes the terminal's uptime, so a console
/// whose uptime is its last second seen keeps it so, at `ticks / 100`.
pub proof fn lemma_timer_sets_uptime<G: GraphicsBackend>(c: ConsoleState<G::Canvas>, ticks: u64)
    ensures
        ticked::<G>(c, ticks).last_second == ticks / 100,
        ticks / 100 != c.last_second ==> ticked::<G>(c, ticks).terminal.uptime_seconds == ticks / 100,
        ticks / 100 == c.last_second ==> ticked::<G>(c, ticks) == c,
        c.terminal.uptime_seconds == c.last_second ==> ticked::<G>(c, ticks).terminal.uptime_seconds == ticks
            / 100,
{
}

/// After the `0xE0` prefix, Left (`0x4B`) moves the editing position one
/// step left and Right (`0x4D`) one step right, each staying inside the
/// command, which is left as it was; the prefix is consumed. (Left out:
/// commands holding a backspace byte, which edit themselves while the line
/// is redrawn.)
pub proof fn lemma_arrow_keys_move_along_the_line<G: GraphicsBackend>(c: ConsoleState<G::Canvas>, scancode: u8)
    requires
        term_wf::<G>(c.terminal),
        no_backspace(c.terminal.command, 0, c.terminal.command_len as int),
        c.keyboard.extended_scancode,
        scancode == 0x4B || scancode == 0x4D,
    ensures
        scancode_handled::<G>(c, scancode).1 is Done,
        !scancode_handled::<G>(c, scancode).0.keyboard.extended_scancode,
        scancode_handled::<G>(c, scancode).0.terminal.command == c.terminal.command,
        scancode_handled::<G>(c, scancode).0.terminal.command_len == c.terminal.command_len,
        scancode == 0x4D ==> scancode_handled::<G>(c, scancode).0.terminal.command_cursor == if c.terminal.command_cursor
            < c.terminal.command_len {
            c.terminal.command_cursor + 1int
        } else {
            c.terminal.command_cursor as int
        },
        scancode == 0x4B ==> scancode_handled::<G>(c, scancode).0.terminal.command_cursor == if c.terminal.command_cursor
            > 0 {
            c.terminal.command_cursor - 1int
        } else {
            c.terminal.command_cursor as int
        },
{
    let hidden = cursor_drawn::<G>(c.terminal, false);
    if hidden.command_cursor < hidden.command_len {
        lemma_redraw_keeps_command::<G>(TermState { command_cursor: hidden.command_cursor + 1, ..hidden });
    }
    if hidden.command_cursor > 0 {
        lemma_redraw_keeps_command::<G>(TermState { command_cursor: (hidden.command_cursor - 1) as nat, ..hidden });
    }
}

/// Without a pending prefix or a Ctrl shortcut, Backspace (`0x0E`) deletes
/// the byte before the editing position and a character key inserts its
/// character at the editing position (on a line that is not full). (Left
/// out: selected commands, and commands holding a backspace byte.)
pub proof fn lemma_keys_edit_the_line<G: GraphicsBackend>(c: ConsoleState<G::Canvas>, scancode: u8)
    requires
        term_wf::<G>(c.terminal),
        no_backspace(c.terminal.command, 0, c.terminal.command_len as int),
        !c.terminal.command_selected,
        !c.keyboard.extended_scancode,
        modifier_applied(c.keyboard, scancode) is None,
        scancode < 0x80,
        !(c.keyboard.ctrl_pressed && (scancode == 0x1E || scancode == 0x2E || scancode == 0x26)),
    ensures
        scancode == 0x0E && c.terminal.command_cursor > 0 ==> scancode_handled::<G>(c, scancode).0.terminal.command_text()
            == c.terminal.command_text().subrange(0, c.terminal.command_cursor - 1) + c.terminal.command_text().subrange(
            c.terminal.command_cursor as int,
            c.terminal.command_len as int,
        ),
        scancode == 0x0E && c.terminal.command_cursor > 0 ==> scancode_handled::<G>(c, scancode).0.terminal.command_cursor
            == c.terminal.command_cursor - 1,
        c.terminal.command_len < 64 ==> (key_char(c.keyboard, scancode) matches Some(ch) ==> scancode_handled::<G>(
            c,
            scancode,
        ).0.terminal.command_text() == c.terminal.command_text().subrange(0, c.terminal.command_cursor as int).push(
            ch as u8,
        ) + c.terminal.command_text().subrange(c.terminal.command_cursor as int, c.terminal.command_len as int)),
        c.terminal.command_len < 64 ==> (key_char(c.keyboard, scancode) matches Some(ch) ==> scancode_handled::<G>(
            c,
            scancode,
        ).0.terminal.command_cursor == c.terminal.command_cursor + 1),
{
    let t = c.terminal;
    lemma_drawn_rows_keep_size::<G>(
        t.canvas,
        Rect { x: t.cursor_x as usize, y: t.cursor_y as usize, width: 8, height: 16 },
        16,
        Color { r: 0, g: 0, b: 0 },
    );
    let hidden = cursor_drawn::<G>(t, false);
    lemma_backspace_deletes::<G>(hidden);
    if let Some(ch) = key_char(c.keyboard, scancode) {
        if c.terminal.command_len < 64 {
            lemma_typing_inserts::<G>(hidden, ch);
        }
    }
}

/// With room for an event on the terminal, any scan code keeps the cursor
/// in range.
pub proof fn lemma_event_fits<G: GraphicsBackend>(c: ConsoleState<G::Canvas>, scancode: u8)
    requires
        term_wf::<G>(c.terminal),
        room_for_event(c.terminal),
    ensures
        scancode_handled::<G>(c, scancode).0.terminal.cursor_y <= CURSOR_LIMIT,
{
    let t = c.terminal;
    let black = Color { r: 0, g: 0, b: 0 };
    lemma_drawn_rows_keep_size::<G>(t.canvas, Rect { x: t.cursor_x as usize, y: t.cursor_y as usize, width: 8, height: 16 }, 16, black);
    let hidden = cursor_drawn::<G>(t, false);
    assert(term_wf::<G>(hidden));
    lemma_line_edit_rise::<G>(hidden, ' ');
    lemma_stepped_back_rise::<G>(hidden);
    lemma_stepped_forward_rise::<G>(hidden);
    lemma_restart_rise::<G>(hidden);
    lemma_executed_rise::<G>(hidden);
    lemma_remove_rise::<G>(hidden);
    if let Some(ch) = key_char(c.keyboard, scancode) {
        lemma_line_edit_rise::<G>(hidden, ch);
    }
}

impl<'a, G> Console<'a, G> where G: GraphicsBackend {
    pub open spec fn view(&self) -> ConsoleState<G::Canvas> {
        ConsoleState {
            keyboard: self.keyboard,
            terminal: self.terminal@,
            cursor_visible: self.cursor_visible,
            last_second: self.last_second,
        }
    }

    pub open spec fn wf(&self) -> bool {
        self.terminal.wf()
    }

    /// The loop's starting state: a fresh keyboard, second 0, and the
    /// cursor drawn visible.
    pub fn new(terminal: Terminal<'a, G>) -> (console: Self)
        requires
            terminal.wf(),
        ensures
            console.wf(),
            console@ == (ConsoleState {
                keyboard: Keyboard {
                    shift_pressed: false,
                    caps_lock: false,
                    ctrl_pressed: false,
                    extended_scancode: false,
                },
                terminal: cursor_drawn::<G>(terminal@, true),
                cursor_visible: true,
                last_second: 0,
            }),
    {
        let mut console = Console { keyboard: Keyboard::new(), terminal, cursor_visible: true, last_second: 0 };
        console.terminal.draw_cursor(true);
        console
    }

    /// Handles a timer reading; see `ticked`.
    pub fn on_timer(&mut self, ticks: u64)
        requires
            old(self).wf(),
        ensures
            final(self).wf(),
            final(self)@ == ticked::<G>(old(self)@, ticks),
    {
        let current_second = ticks / TIMER_FREQUENCY;
        if current_second != self.last_second {
            self.last_second = current_second;
            self.terminal.update_uptime(current_second);
            self.cursor_visible = !self.cursor_visible;
            self.terminal.draw_cursor(self.cursor_visible);
        }
    }

    /// Handles one scan code when the terminal has room for it (see
    /// `room_for_event`), as `on_scancode` does; otherwise changes nothing
    /// and gives `None`.
    pub fn try_on_scancode(&mut self, scancode: u8) -> (effect: Option<CommandEffect>)
        requires
            old(self).wf(),
        ensures
            final(self).wf(),
            effect is Some <==> room_for_event(old(self)@.terminal),
            effect matches Some(e) ==> (final(self)@, e) == scancode_handled::<G>(old(self)@, scancode),
            effect is None ==> final(self)@ == old(self)@,
    {
        if self.terminal.has_room_for_event() {
            proof {
                lemma_event_fits::<G>(self@, scancode);
            }
            Some(self.on_scancode(scancode))
        } else {
            None
        }
    }

    /// Handles one scan code; see `scancode_handled`. The caller performs
    /// the returned effect.
    pub fn on_scancode(&mut self, scancode: u8) -> (effect: CommandEffect)
        requires
            old(self).wf(),
            scancode_handled::<G>(old(self)@, scancode).0.terminal.cursor_y <= CURSOR_LIMIT,
        ensures
            final(self).wf(),
            (final(self)@, effect) == scancode_handled::<G>(old(self)@, scancode),
    {
        if self.keyboard.update_modifiers(scancode) {
            self.cursor_visible = true;
            self.terminal.draw_cursor(true);
            return CommandEffect::Done;
        }
        if self.keyboard.is_extended(scancode) {
            return CommandEffect::Done;
        }
        if scancode >= 0x80 {
            self.terminal.draw_cursor(self.cursor_visible);
            return CommandEffect::Done;
        }
        self.terminal.draw_cursor(false);
        if self.keyboard.ctrl_pressed && scancode == KEY_A {
            self.terminal.select_all();
            self.cursor_visible = true;
            self.terminal.draw_cursor(true);
            return CommandEffect::Done;
        }
        if self.keyboard.ctrl_pressed && scancode == KEY_C {
            self.terminal.cancel_command();
            self.cursor_visible = true;
            self.terminal.draw_cursor(true);
            return CommandEffect::Done;
        }
        if self.keyboard.ctrl_pressed && scancode == KEY_L {
            self.terminal.restart_screen();
            self.cursor_visible = true;
            self.terminal.draw_cursor(true);
            return CommandEffect::Done;
        }
        if let Some(extended) = self.keyboard.take_extended(scancode) {
            if extended == ARROW_UP {
                self.terminal.history_previous();
            } else if extended == ARROW_DOWN {
                self.terminal.history_next();
            } else if extended == ARROW_LEFT {
                self.terminal.move_cursor_left();
            } else if extended == ARROW_RIGHT {
                self.terminal.move_cursor_right();
            }
            self.cursor_visible = true;
            self.terminal.draw_cursor(true);
            return CommandEffect::Done;
        }
        if scancode == KEY_ENTER {
            let effect = self.terminal.execute_command();
            match effect {
                CommandEffect::Done => {},
                _ => {
                    return effect;
                },
            }
        } else if scancode == KEY_BACKSPACE {
            self.terminal.remove_command_char();
        } else if let Some(character) = self.keyboard.scancode_to_ascii(scancode) {
            self.terminal.push_command_char(character);
        }
        self.cursor_visible = true;
        self.terminal.draw_cursor(true);
        CommandEffect::Done
    }
}

} // verus!
