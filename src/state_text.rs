use vstd::prelude::*;

use crate::game::{is_cell, mark_of, Player, State};
use crate::state_codec::FormatError;

verus! {

/// Relies on `String::push`: appends the one character `c`.
#[verifier::external_body]
pub(crate) fn push_char(s: &mut String, c: char)
    ensures
        final(s)@ == old(s)@.push(c),
{
    s.push(c)
}

pub open spec fn digit_char(d: nat) -> char {
    if d == 0 {
        '0'
    } else if d == 1 {
        '1'
    } else if d == 2 {
        '2'
    } else if d == 3 {
        '3'
    } else if d == 4 {
        '4'
    } else if d == 5 {
        '5'
    } else if d == 6 {
        '6'
    } else if d == 7 {
        '7'
    } else if d == 8 {
        '8'
    } else {
        '9'
    }
}

pub open spec fn is_digit(c: char) -> bool {
    '0' <= c && c <= '9'
}

pub open spec fn digit_value(c: char) -> nat {
    (c as u32 - '0' as u32) as nat
}

/// The decimal digits of `n`, without leading zeros.
pub open spec fn decimal(n: nat) -> Seq<char>
    decreases n,
{
    if n < 10 {
        seq![digit_char(n)]
    } else {
        decimal(n / 10) + seq![digit_char(n % 10)]
    }
}

/// The number that a run of decimal digits writes.
pub open spec fn digits_value(s: Seq<char>) -> nat
    decreases s.len(),
{
    if s.len() == 0 {
        0
    } else {
        digits_value(s.drop_last()) * 10 + digit_value(s.last())
    }
}

pub open spec fn bool_text(b: bool) -> Seq<char> {
    if b {
        seq!['t', 'r', 'u', 'e']
    } else {
        seq!['f', 'a', 'l', 's', 'e']
    }
}

/// The winner's mark, or a space when there is none.
pub open spec fn winner_char(w: Option<Player>) -> char {
    match w {
        Some(p) => mark_of(p),
        None => ' ',
    }
}

pub open spec fn board_text(b: Seq<char>) -> Seq<char> {
    seq![b[0], ',', b[1], ',', b[2], ',', b[3], ',', b[4], ',', b[5], ',', b[6], ',', b[7], ',', b[8]]
}

pub open spec fn separator() -> Seq<char> {
    seq!['#', '#', '#']
}

/// The text form of a state: the comma-joined board, the player to move, the round,
/// whether the game is active and the winner, joined by `###`.
pub open spec fn text_of(s: State) -> Seq<char> {
    board_text(s.board@) + separator() + seq![mark_of(s.current_player)] + separator() + decimal(
        s.round as nat,
    ) + separator() + bool_text(s.active) + separator() + seq![winner_char(s.winner)]
}

proof fn lemma_digit(d: nat)
    requires
        d < 10,
    ensures
        is_digit(digit_char(d)),
        digit_value(digit_char(d)) == d,
{
}

proof fn lemma_decimal(n: nat)
    ensures
        forall|i: int| 0 <= i < decimal(n).len() ==> #[trigger] is_digit(decimal(n)[i]),
        digits_value(decimal(n)) == n,
        n < 10 ==> decimal(n).len() == 1,
        10 <= n < 100 ==> decimal(n).len() == 2,
        100 <= n < 1000 ==> decimal(n).len() == 3,
    decreases n,
{
    if n < 10 {
        lemma_digit(n);
        assert(decimal(n).drop_last() =~= Seq::<char>::empty());
        assert(digits_value(Seq::<char>::empty()) == 0);
    } else {
        lemma_decimal(n / 10);
        lemma_digit(n % 10);
        let s = decimal(n);
        assert(s.drop_last() =~= decimal(n / 10));
        assert(s.last() == digit_char(n % 10));
        assert(digits_value(s) == digits_value(decimal(n / 10)) * 10 + n % 10);
        assert((n / 10) * 10 + n % 10 == n);
        assert forall|i: int| 0 <= i < s.len() implies #[trigger] is_digit(s[i]) by {
            if i < decimal(n / 10).len() {
                assert(is_digit(decimal(n / 10)[i]));
            }
        }
    }
}

/// Where the fields of a state's text form stand.
proof fn lemma_text_layout(s: State)
    ensures
        ({
            let t = text_of(s);
            let d = decimal(s.round as nat).len() as int;
            &&& 1 <= d <= 3
            &&& t.len() == 24 + d + 3 + bool_text(s.active).len() + 3 + 1
            &&& forall|i: int| 0 <= i < 9 ==> t[2 * i] == s.board@[i]
            &&& t[20] == mark_of(s.current_player)
            &&& t.subrange(24, 24 + d) == decimal(s.round as nat)
            &&& t[24 + d] == '#'
            &&& t[24 + d + 3] == bool_text(s.active)[0]
            &&& t[t.len() - 1] == winner_char(s.winner)
        }),
{
    lemma_decimal(s.round as nat);
    let dec = decimal(s.round as nat);
    let head = board_text(s.board@) + separator() + seq![mark_of(s.current_player)] + separator();
    let tail = separator() + bool_text(s.active) + separator() + seq![winner_char(s.winner)];
    let t = text_of(s);
    assert(t =~= head + dec + tail);
    assert(head.len() == 24);
    assert(t.subrange(24, 24 + dec.len() as int) =~= dec);
    assert forall|i: int| 0 <= i < 9 implies t[2 * i] == s.board@[i] by {
        assert(t[2 * i] == head[2 * i]);
    }
}

/// Appends the decimal digits of `n`.
pub(crate) fn push_decimal(s: &mut String, n: u16)
    ensures
        final(s)@ == old(s)@ + decimal(n as nat),
    decreases n,
{
    if n >= 10 {
        push_decimal(s, n / 10);
    }
    let d = n % 10;
    let c = if d == 0 {
        '0'
    } else if d == 1 {
        '1'
    } else if d == 2 {
        '2'
    } else if d == 3 {
        '3'
    } else if d == 4 {
        '4'
    } else if d == 5 {
        '5'
    } else if d == 6 {
        '6'
    } else if d == 7 {
        '7'
    } else if d == 8 {
        '8'
    } else {
        '9'
    };
    push_char(s, c);
    proof {
        if n >= 10 {
            assert(final(s)@ =~= old(s)@ + decimal(n as nat));
        } else {
            assert(final(s)@ =~= old(s)@ + decimal(n as nat));
        }
    }
}

/// The decimal digits of `n`.
pub fn decimal_string(n: u16) -> (r: String)
    ensures
        r@ == decimal(n as nat),
{
    let mut s = String::new();
    push_decimal(&mut s, n);
    assert(s@ =~= decimal(n as nat));
    s
}


pub open spec fn pow10(d: int) -> nat {
    if d <= 0 {
        1
    } else if d == 1 {
        10
    } else if d == 2 {
        100
    } else {
        1000
    }
}

/// The cells at the even positions of the first seventeen characters; any character
/// that is not a cell reads as an empty one.
fn read_board(text: &str) -> (board: [char; 9])
    requires
        text@.len() >= 17,
    ensures
        forall|j: int|
            0 <= j < 9 ==> board@[j] == (if is_cell(text@[2 * j]) {
                text@[2 * j]
            } else {
                ' '
            }),
        forall|j: int| 0 <= j < 9 ==> #[trigger] is_cell(board@[j]),
{
    let mut board: [char; 9] = [' ', ' ', ' ', ' ', ' ', ' ', ' ', ' ', ' '];
    let mut i: usize = 0;
    while i < 9
        invariant
            i <= 9,
            text@.len() >= 17,
            forall|j: int|
                0 <= j < i ==> board@[j] == (if is_cell(text@[2 * j]) {
                    text@[2 * j]
                } else {
                    ' '
                }),
            forall|j: int| 0 <= j < 9 ==> #[trigger] is_cell(board@[j]),
        decreases 9 - i,
    {
        let c = text.get_char(2 * i);
        board[i] = if c == 'X' || c == 'O' || c == ' ' {
            c
        } else {
            ' '
        };
        i += 1;
    }
    board
}

/// Reads up to three decimal digits from position `at`; returns their value and count.
fn read_digits(text: &str, at: usize) -> (r: (u16, usize))
    requires
        at + 3 < text@.len() <= usize::MAX,
    ensures
        r.1 <= 3,
        r.0 as nat == digits_value(text@.subrange(at as int, at + r.1)),
        forall|j: int| at <= j < at + r.1 ==> #[trigger] is_digit(text@[j]),
        r.1 < 3 ==> !is_digit(text@[at + r.1]),
{
    let mut value: u16 = 0;
    let mut d: usize = 0;
    while d < 3 && '0' <= text.get_char(at + d) && text.get_char(at + d) <= '9'
        invariant
            d <= 3,
            at + 3 < text@.len() <= usize::MAX,
            value < pow10(d as int),
            value as nat == digits_value(text@.subrange(at as int, at + d)),
            forall|j: int| at <= j < at + d ==> #[trigger] is_digit(text@[j]),
        decreases 3 - d,
    {
        let c = text.get_char(at + d);
        let dv = (c as u32 - '0' as u32) as u16;
        proof {
            let sub = text@.subrange(at as int, at + d + 1);
            assert(sub.drop_last() =~= text@.subrange(at as int, at + d));
            assert(sub.last() == c);
        }
        value = value * 10 + dv;
        d += 1;
    }
    (value, d)
}

/// A state read field by field from the text form of `s2` is `s2`.
proof fn lemma_read_back(t: Seq<char>, s: State, d: int, s2: State)
    requires
        s2.wf(),
        text_of(s2) == t,
        forall|j: int|
            0 <= j < 9 ==> s.board@[j] == (if is_cell(t[2 * j]) {
                t[2 * j]
            } else {
                ' '
            }),
        s.current_player == (if t[20] == 'X' {
            Player::X
        } else {
            Player::O
        }),
        0 <= d <= 3,
        forall|j: int| 24 <= j < 24 + d ==> #[trigger] is_digit(t[j]),
        d < 3 ==> !is_digit(t[24 + d]),
        digits_value(t.subrange(24, 24 + d)) <= 255 ==> s.round as nat == digits_value(
            t.subrange(24, 24 + d),
        ),
        s.active == (t[24 + d + 3] == 't'),
        s.winner == (if t[t.len() - 1] == 'X' {
            Some(Player::X)
        } else if t[t.len() - 1] == 'O' {
            Some(Player::O)
        } else {
            None
        }),
    ensures
        s == s2,
{
    lemma_text_layout(s2);
    lemma_decimal(s2.round as nat);
    let dd = decimal(s2.round as nat).len() as int;
    assert forall|j: int| 0 <= j < 9 implies s.board@[j] == s2.board@[j] by {
        assert(is_cell(s2.board@[j]));
    }
    assert(s.board@ =~= s2.board@);
    assert(s.board == s2.board);
    if d < dd {
        assert(is_digit(decimal(s2.round as nat)[d]));
        assert(t[24 + d] == decimal(s2.round as nat)[d]);
    }
    if d > dd {
        assert(is_digit(t[24 + dd]));
    }
    assert(d == dd);
    assert(s.round == s2.round);
}

impl State {
    /// The text form of this state.
    pub fn to_string(&self) -> (r: String)
        ensures
            r@ == text_of(*self),
    {
        proof {
            reveal_strlit("###");
            reveal_strlit("true");
            reveal_strlit("false");
            assert("###"@ =~= separator());
            assert("true"@ =~= bool_text(true));
            assert("false"@ =~= bool_text(false));
        }
        let mut s = String::new();
        let mut i: usize = 0;
        while i < 9
            invariant
                i <= 9,
                i == 0 ==> s@ == Seq::<char>::empty(),
                i > 0 ==> s@ == board_text(self.board@).subrange(0, 2 * i - 1),
            decreases 9 - i,
        {
            if i > 0 {
                push_char(&mut s, ',');
            }
            push_char(&mut s, self.board[i]);
            i += 1;
            assert(s@ =~= board_text(self.board@).subrange(0, 2 * i - 1));
        }
        assert(s@ =~= board_text(self.board@));
        s.append("###");
        push_char(&mut s, self.current_player.mark());
        s.append("###");
        push_decimal(&mut s, self.round as u16);
        s.append("###");
        if self.active {
            s.append("true");
        } else {
            s.append("false");
        }
        s.append("###");
        let w = match self.winner {
            Some(p) => p.mark(),
            None => ' ',
        };
        push_char(&mut s, w);
        assert(s@ =~= text_of(*self));
        s
    }

    /// Reads a state from its text form. Only the exact text form of a well-formed
    /// state is accepted; in particular a space in the winner field means no winner.
    pub fn from_text(text: &str) -> (r: Result<State, FormatError>)
        ensures
            r matches Ok(s) ==> s.wf() && text_of(s) == text@,
            r is Err ==> r == Err::<State, FormatError>(FormatError::Malformed) && forall|s: State|
                #![trigger text_of(s)]
                s.wf() ==> text_of(s) != text@,
    {
        let n = text.unicode_len();
        if n < 36 {
            proof {
                assert forall|s: State| #![trigger text_of(s)] s.wf() implies text_of(s) != text@ by {
                    lemma_text_layout(s);
                }
            }
            return Err(FormatError::Malformed);
        }
        let board = read_board(text);
        let current_player = if text.get_char(20) == 'X' {
            Player::X
        } else {
            Player::O
        };
        let (value, d) = read_digits(text, 24);
        let round: u8 = if value <= 255 {
            value as u8
        } else {
            0
        };
        let active = text.get_char(24 + d + 3) == 't';
        let last = text.get_char(n - 1);
        let winner = if last == 'X' {
            Some(Player::X)
        } else if last == 'O' {
            Some(Player::O)
        } else {
            None
        };
        let s = State { board, round, active, current_player, winner };
        let canonical = s.to_string();
        let given = String::from_str(text);
        if canonical == given {
            Ok(s)
        } else {
            proof {
                assert forall|s2: State| #![trigger text_of(s2)] s2.wf() implies text_of(s2)
                    != text@ by {
                    if text_of(s2) == text@ {
                        lemma_read_back(text@, s, d as int, s2);
                    }
                }
            }
            Err(FormatError::Malformed)
        }
    }

    /// Reads a state from text that is the text form of some well-formed state.
    pub fn from(value: String) -> (r: State)
        requires
            exists|s: State| #![trigger text_of(s)] s.wf() && text_of(s) == value@,
        ensures
            r.wf(),
            text_of(r) == value@,
    {
        match State::from_text(value.as_str()) {
            Ok(s) => s,
            // cannot happen: the precondition names a state with this text form
            Err(_) => State::initial(),
        }
    }
}

/// Two well-formed states with the same text form are the same state.
pub proof fn lemma_text_determines_state(s1: State, s2: State)
    requires
        s1.wf(),
        s2.wf(),
        text_of(s1) == text_of(s2),
    ensures
        s1 == s2,
{
    lemma_text_layout(s1);
    lemma_text_layout(s2);
    lemma_decimal(s1.round as nat);
    lemma_decimal(s2.round as nat);
    let t = text_of(s1);
    let d1 = decimal(s1.round as nat).len() as int;
    let d2 = decimal(s2.round as nat).len() as int;
    if d1 < d2 {
        assert(is_digit(decimal(s2.round as nat)[d1]));
        assert(t[24 + d1] == decimal(s2.round as nat)[d1]);
    }
    if d2 < d1 {
        assert(is_digit(decimal(s1.round as nat)[d2]));
        assert(t[24 + d2] == decimal(s1.round as nat)[d2]);
    }
    assert(s1.board@ =~= s2.board@) by {
        assert forall|j: int| 0 <= j < 9 implies s1.board@[j] == s2.board@[j] by {
            assert(t[2 * j] == s1.board@[j]);
        }
    }
    assert(s1.board == s2.board);
    assert(s1.active == s2.active) by {
        assert(t[24 + d1 + 3] == bool_text(s1.active)[0]);
    }
    assert(s1.winner == s2.winner) by {
        assert(t[t.len() - 1] == winner_char(s1.winner));
    }
}

} // verus!
