use vstd::prelude::*;

use crate::game::{is_cell, Player, State};

verus! {

/// Why bytes or text do not hold a game state.
#[derive(Debug, PartialEq, Eq, Structural, Clone, Copy)]
pub enum FormatError {
    /// The binary form is not exactly eleven bytes long.
    WrongLength,
    /// The text is not the text form of any state.
    Malformed,
}

/// Length of the binary form of a state.
pub const STATE_BYTES: usize = 11;

pub open spec fn cell_byte(c: char) -> u8 {
    if c == 'X' {
        88u8
    } else if c == 'O' {
        79u8
    } else {
        32u8
    }
}

pub open spec fn byte_cell(b: u8) -> char {
    if b == 88 {
        'X'
    } else if b == 79 {
        'O'
    } else {
        ' '
    }
}

pub open spec fn bit(flags: u8, k: nat) -> bool {
    (flags as nat / pow2(k)) % 2 == 1
}

pub open spec fn pow2(k: nat) -> nat {
    if k == 0 {
        1
    } else if k == 1 {
        2
    } else if k == 2 {
        4
    } else {
        8
    }
}

/// The flag byte: bit 0 the player to move (clear for `O`, who opens a match; set
/// for `X`), bit 1 whether the game is active, bit 2 whether there is a winner,
/// bit 3 the winner (clear for `O`, set for `X`).
pub open spec fn flags_of(s: State) -> u8 {
    ((if s.current_player == Player::X {
        1u8
    } else {
        0u8
    }) + (if s.active {
        2u8
    } else {
        0u8
    }) + (match s.winner {
        None => 0u8,
        Some(Player::O) => 4u8,
        Some(Player::X) => 12u8,
    })) as u8
}

/// The binary form: one byte per cell, the round, the flag byte.
pub open spec fn encode_state(s: State) -> Seq<u8> {
    Seq::new(9, |i: int| cell_byte(s.board@[i])) + seq![s.round, flags_of(s)]
}

pub open spec fn player_bit(set: bool) -> Player {
    if set {
        Player::X
    } else {
        Player::O
    }
}

/// The state that eleven bytes hold. A board byte other than `X` or `O` is an empty cell.
pub open spec fn state_of_bytes(b: Seq<u8>) -> State {
    State {
        board: [
            byte_cell(b[0]),
            byte_cell(b[1]),
            byte_cell(b[2]),
            byte_cell(b[3]),
            byte_cell(b[4]),
            byte_cell(b[5]),
            byte_cell(b[6]),
            byte_cell(b[7]),
            byte_cell(b[8]),
        ],
        round: b[9],
        active: bit(b[10], 1),
        current_player: player_bit(bit(b[10], 0)),
        winner: if bit(b[10], 2) {
            Some(player_bit(bit(b[10], 3)))
        } else {
            None
        },
    }
}

pub open spec fn decode_state(b: Seq<u8>) -> Result<State, FormatError> {
    if b.len() != 11 {
        Err(FormatError::WrongLength)
    } else {
        Ok(state_of_bytes(b))
    }
}

/// Bytes that are the binary form of some state: cells are `X`, `O` or a space, only the
/// four low flag bits are used, and the winner bit only with the has-winner bit.
pub open spec fn is_state_bytes(b: Seq<u8>) -> bool {
    &&& b.len() == 11
    &&& forall|i: int| 0 <= i < 9 ==> #[trigger] b[i] == 88 || b[i] == 79 || b[i] == 32
    &&& b[10] < 16
    &&& (bit(b[10], 3) ==> bit(b[10], 2))
}

impl State {
    /// The binary form of this state.
    pub fn to_bytes(&self) -> (r: Vec<u8>)
        ensures
            r@ == encode_state(*self),
            r@.len() == STATE_BYTES,
    {
        let mut bytes: Vec<u8> = Vec::new();
        let mut i: usize = 0;
        while i < 9
            invariant
                i <= 9,
                bytes@ == Seq::new(i as nat, |j: int| cell_byte(self.board@[j])),
            decreases 9 - i,
        {
            let c = self.board[i];
            let b: u8 = if c == 'X' {
                88
            } else if c == 'O' {
                79
            } else {
                32
            };
            bytes.push(b);
            i += 1;
            assert(bytes@ =~= Seq::new(i as nat, |j: int| cell_byte(self.board@[j])));
        }
        bytes.push(self.round);
        let mut flags: u8 = 0;
        if self.current_player == Player::X {
            flags = flags + 1;
        }
        if self.active {
            flags = flags + 2;
        }
        match self.winner {
            None => {},
            Some(Player::O) => {
                flags = flags + 4;
            },
            Some(Player::X) => {
                flags = flags + 12;
            },
        }
        bytes.push(flags);
        assert(bytes@ =~= encode_state(*self));
        bytes
    }

    /// Reads a state from its binary form.
    pub fn try_from(bytes: &[u8]) -> (r: Result<State, FormatError>)
        ensures
            r == decode_state(bytes@),
            r matches Ok(s) ==> s.wf(),
    {
        if bytes.len() != STATE_BYTES {
            return Err(FormatError::WrongLength);
        }
        let mut board: [char; 9] = [' ', ' ', ' ', ' ', ' ', ' ', ' ', ' ', ' '];
        let mut i: usize = 0;
        while i < 9
            invariant
                i <= 9,
                bytes@.len() == 11,
                forall|j: int| 0 <= j < i ==> board@[j] == byte_cell(bytes@[j]),
                forall|j: int| 0 <= j < 9 ==> #[trigger] is_cell(board@[j]),
            decreases 9 - i,
        {
            let b = bytes[i];
            board[i] = if b == 88 {
                'X'
            } else if b == 79 {
                'O'
            } else {
                ' '
            };
            i += 1;
        }
        let flags = bytes[10];
        let current_player = if flags % 2 == 1 {
            Player::X
        } else {
            Player::O
        };
        let active = (flags / 2) % 2 == 1;
        let winner = if (flags / 4) % 2 == 1 {
            Some(
                if (flags / 8) % 2 == 1 {
                    Player::X
                } else {
                    Player::O
                },
            )
        } else {
            None
        };
        let s = State { board, round: bytes[9], active, current_player, winner };
        let ghost expected = state_of_bytes(bytes@);
        assert(s.board@ =~= expected.board@);
        assert(s.board == expected.board);
        Ok(s)
    }
}

/// Decoding the binary form of a well-formed state gives back that state.
pub proof fn lemma_state_round_trip(s: State)
    requires
        s.wf(),
    ensures
        decode_state(encode_state(s)) == Ok::<State, FormatError>(s),
{
    let b = encode_state(s);
    let t = state_of_bytes(b);
    assert forall|i: int| 0 <= i < 9 implies t.board@[i] == s.board@[i] by {
        assert(is_cell(s.board@[i]));
        assert(b[i] == cell_byte(s.board@[i]));
    }
    assert(t.board@ =~= s.board@);
    assert(t.board == s.board);
    let f = flags_of(s);
    assert(bit(f, 0) == (s.current_player == Player::X));
    assert(bit(f, 1) == s.active);
    assert(bit(f, 2) == (s.winner is Some));
    assert(s.winner is Some ==> (bit(f, 3) == (s.winner == Some(Player::X))));
}

/// Encoding the state that well-formed bytes hold gives back those bytes.
pub proof fn lemma_bytes_round_trip(b: Seq<u8>)
    requires
        is_state_bytes(b),
    ensures
        decode_state(b) matches Ok(s) && encode_state(s) == b,
{
    let s = state_of_bytes(b);
    let e = encode_state(s);
    assert forall|i: int| 0 <= i < 9 implies e[i] == b[i] by {
        assert(b[i] == 88 || b[i] == 79 || b[i] == 32);
    }
    let f = b[10];
    assert(flags_of(s) == f) by {
        assert(f < 16);
    }
    assert(e =~= b);
}

} // verus!
