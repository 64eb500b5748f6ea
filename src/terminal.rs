use vstd::prelude::*;

use crate::game::{mark_of, placed, restarted, Game};
use crate::state_text::{decimal, push_char, push_decimal};

verus! {

/// Second byte of an arrow key sequence, after the escape.
pub const ESC_BRACKET: u8 = 91;
pub const ARROW_UP: u8 = 65;
pub const ARROW_DOWN: u8 = 66;
pub const ARROW_RIGHT: u8 = 67;
pub const ARROW_LEFT: u8 = 68;
/// `q`
pub const KEY_QUIT: u8 = 113;
/// `s`
pub const KEY_SHOW: u8 = 115;
/// `h`
pub const KEY_HIDE: u8 = 104;
/// `f`
pub const KEY_FREE: u8 = 102;
/// `r`
pub const KEY_RESTART: u8 = 114;
/// `x`
pub const KEY_X: u8 = 120;
/// `o`
pub const KEY_O: u8 = 111;
/// The space bar.
pub const KEY_PLACE: u8 = 32;
pub const KEY_ESCAPE: u8 = 27;

/// The terminal control sequences the game writes.
#[derive(Debug, PartialEq, Eq, Structural, Clone, Copy)]
pub enum Ansi {
    HideCursor,
    ShowCursor,
    ClearScreen,
    /// Column, then row, both counted from 1.
    MoveCursor(u16, u16),
}

pub open spec fn esc() -> char {
    '\x1B'
}

/// The characters of a control sequence.
pub open spec fn ansi_text(a: Ansi) -> Seq<char> {
    match a {
        Ansi::HideCursor => seq![esc(), '[', '?', '2', '5', 'l'],
        Ansi::ShowCursor => seq![esc(), '[', '?', '2', '5', 'h'],
        Ansi::ClearScreen => seq![esc(), '[', '2', 'J'],
        Ansi::MoveCursor(x, y) => seq![esc(), '['] + decimal(y as nat) + seq![';'] + decimal(
            x as nat,
        ) + seq!['H'],
    }
}

fn push_chars(s: &mut String, cs: &[char])
    ensures
        final(s)@ == old(s)@ + cs@,
{
    let mut i: usize = 0;
    while i < cs.len()
        invariant
            i <= cs@.len(),
            s@ == old(s)@ + cs@.subrange(0, i as int),
        decreases cs@.len() - i,
    {
        push_char(s, cs[i]);
        i += 1;
        assert(s@ =~= old(s)@ + cs@.subrange(0, i as int));
    }
    assert(cs@.subrange(0, i as int) =~= cs@);
}

impl Ansi {
    /// The control sequence as text.
    pub fn to_string(&self) -> (r: String)
        ensures
            r@ == ansi_text(*self),
    {
        let mut s = String::new();
        match self {
            Ansi::HideCursor => {
                push_chars(&mut s, &['\x1B', '[', '?', '2', '5', 'l']);
            },
            Ansi::ShowCursor => {
                push_chars(&mut s, &['\x1B', '[', '?', '2', '5', 'h']);
            },
            Ansi::ClearScreen => {
                push_chars(&mut s, &['\x1B', '[', '2', 'J']);
            },
            Ansi::MoveCursor(x, y) => {
                push_chars(&mut s, &['\x1B', '[']);
                push_decimal(&mut s, *y);
                push_char(&mut s, ';');
                push_decimal(&mut s, *x);
                push_char(&mut s, 'H');
            },
        }
        assert(s@ =~= ansi_text(*self));
        s
    }
}

pub open spec fn max(a: int, b: int) -> int {
    if a >= b {
        a
    } else {
        b
    }
}

pub open spec fn min(a: int, b: int) -> int {
    if a <= b {
        a
    } else {
        b
    }
}

/// Where the cursor at `pos` goes on the arrow key sequence `first`, `second`
/// (`[` then `A` up, `B` down, `C` right, `D` left). A free cursor moves one step
/// within a terminal of `size` columns and rows; a cursor on a board cell moves
/// to the neighbouring cell. Anything else leaves the cursor where it is.
pub open spec fn cursor_after(
    pos: (u16, u16),
    free: bool,
    on_cell: bool,
    first: u8,
    second: u8,
    size: (u16, u16),
) -> (u16, u16) {
    let (x, y) = pos;
    if first != ESC_BRACKET {
        pos
    } else if free {
        if second == ARROW_UP {
            (x, max(y - 1, 1) as u16)
        } else if second == ARROW_DOWN {
            (x, min(y + 1, size.1 as int) as u16)
        } else if second == ARROW_RIGHT {
            (min(x + 1, size.0 as int) as u16, y)
        } else if second == ARROW_LEFT {
            (max(x - 1, 1) as u16, y)
        } else {
            pos
        }
    } else if on_cell {
        if second == ARROW_UP {
            (x, max(y - 2, 2) as u16)
        } else if second == ARROW_DOWN {
            (x, min(y + 2, 6) as u16)
        } else if second == ARROW_RIGHT {
            (min(x + 4, 11) as u16, y)
        } else if second == ARROW_LEFT {
            (max(x - 4, 3) as u16, y)
        } else {
            pos
        }
    } else {
        pos
    }
}

/// Moves the cursor for the arrow key sequence `first`, `second`, in a terminal
/// of `size` columns and rows.
pub fn move_cursor(game: &mut Game, first: u8, second: u8, size: (u16, u16))
    ensures
        *final(game) == (Game {
            cursor_pos: cursor_after(
                old(game).cursor_pos,
                old(game).free_cursor,
                old(game).cursor_cell() is Some,
                first,
                second,
                size,
            ),
            ..*old(game)
        }),
{
    if first != ESC_BRACKET {
        return;
    }
    let (x, y) = game.cursor_pos;
    let (max_x, max_y) = size;
    if game.free_cursor {
        if second == ARROW_UP {
            let ny = y.saturating_sub(1);
            game.cursor_pos = (x, if ny >= 1 { ny } else { 1 });
        } else if second == ARROW_DOWN {
            let ny = y.saturating_add(1);
            game.cursor_pos = (x, if ny <= max_y { ny } else { max_y });
        } else if second == ARROW_RIGHT {
            let nx = x.saturating_add(1);
            game.cursor_pos = (if nx <= max_x { nx } else { max_x }, y);
        } else if second == ARROW_LEFT {
            let nx = x.saturating_sub(1);
            game.cursor_pos = (if nx >= 1 { nx } else { 1 }, y);
        }
    } else if game.cursor_slot().is_some() {
        if second == ARROW_UP {
            let ny = y.saturating_sub(2);
            game.cursor_pos = (x, if ny >= 2 { ny } else { 2 });
        } else if second == ARROW_DOWN {
            let ny = y.saturating_add(2);
            game.cursor_pos = (x, if ny <= 6 { ny } else { 6 });
        } else if second == ARROW_RIGHT {
            let nx = x.saturating_add(4);
            game.cursor_pos = (if nx <= 11 { nx } else { 11 }, y);
        } else if second == ARROW_LEFT {
            let nx = x.saturating_sub(4);
            game.cursor_pos = (if nx >= 3 { nx } else { 3 }, y);
        }
    }
}

/// What the caller has to do after a key press that the game itself does not handle.
#[derive(Debug, PartialEq, Eq, Structural, Clone, Copy)]
pub enum KeyAction {
    /// Nothing more.
    Nothing,
    /// Restore the terminal and leave.
    Quit,
    ShowCursor,
    HideCursor,
    /// An escape: read the rest of an arrow key sequence and hand it to `move_cursor`.
    ReadArrow,
}

/// What a key press asks of the caller.
pub open spec fn key_action(key: u8) -> KeyAction {
    if key == KEY_QUIT {
        KeyAction::Quit
    } else if key == KEY_SHOW {
        KeyAction::ShowCursor
    } else if key == KEY_HIDE {
        KeyAction::HideCursor
    } else if key == KEY_ESCAPE {
        KeyAction::ReadArrow
    } else {
        KeyAction::Nothing
    }
}

/// Handles one key press: `f` frees or fixes the cursor, `r` restarts, `x` and `o`
/// place that mark and space places the mark of the player to move; the keys that
/// ask for terminal work (`q`, `s`, `h`, escape) are handed back as an action.
pub fn handle_key(game: &mut Game, key: u8) -> (r: KeyAction)
    requires
        key == KEY_X || key == KEY_O || key == KEY_PLACE ==> old(game).state.round < 255,
    ensures
        r == key_action(key),
        key == KEY_FREE ==> *final(game) == (Game { free_cursor: !old(game).free_cursor, ..*old(game) }),
        key == KEY_RESTART ==> restarted(*old(game), *final(game)),
        key == KEY_X ==> placed(*old(game), *final(game), 'X'),
        key == KEY_O ==> placed(*old(game), *final(game), 'O'),
        key == KEY_PLACE ==> placed(*old(game), *final(game), mark_of(old(game).state.current_player)),
        key != KEY_FREE && key != KEY_RESTART && key != KEY_X && key != KEY_O && key != KEY_PLACE ==> *final(game)
            == *old(game),
{
    if key == KEY_QUIT {
        KeyAction::Quit
    } else if key == KEY_SHOW {
        KeyAction::ShowCursor
    } else if key == KEY_HIDE {
        KeyAction::HideCursor
    } else if key == KEY_ESCAPE {
        KeyAction::ReadArrow
    } else {
        if key == KEY_FREE {
            game.free_cursor = !game.free_cursor;
        } else if key == KEY_RESTART {
            game.restart();
        } else if key == KEY_X {
            game.attempt_placing('X');
        } else if key == KEY_O {
            game.attempt_placing('O');
        } else if key == KEY_PLACE {
            let c = game.get_current_player().mark();
            game.attempt_placing(c);
        }
        KeyAction::Nothing
    }
}

} // verus!
