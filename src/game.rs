use vstd::prelude::*;

use crate::network::NetState;

verus! {

/// Whether the match is played on one terminal or between two processes.
#[derive(Debug, PartialEq, Eq, Structural, Clone, Copy)]
pub enum Mode {
    Local,
    Network,
}

/// One of the two players.
#[derive(Debug, PartialEq, Eq, Structural, Clone, Copy)]
pub enum Player {
    X,
    O,
}

/// Why a state proposed by the peer was not adopted.
#[derive(Debug, PartialEq, Eq, Structural, Clone, Copy)]
pub enum RejectReason {
    /// Not exactly one board cell differs.
    NotSingleMove,
    /// The proposed round is not the local round plus one.
    RoundMismatch,
    /// The changed cell does not hold the expected mover's mark.
    WrongMover,
    /// The player to move did not change.
    TurnNotAdvanced,
}

/// The mark that a player writes on the board.
pub open spec fn mark_of(p: Player) -> char {
    match p {
        Player::X => 'X',
        Player::O => 'O',
    }
}

/// The player that a mark character names, in either case.
pub open spec fn player_of(c: char) -> Player {
    if c == 'O' || c == 'o' {
        Player::O
    } else {
        Player::X
    }
}

pub open spec fn is_mark_char(c: char) -> bool {
    c == 'X' || c == 'x' || c == 'O' || c == 'o'
}

/// A board cell: a mark, or a space for an empty cell.
pub open spec fn is_cell(c: char) -> bool {
    c == 'X' || c == 'O' || c == ' '
}

pub open spec fn is_board(b: Seq<char>) -> bool {
    b.len() == 9 && forall|i: int| 0 <= i < 9 ==> #[trigger] is_cell(b[i])
}

pub open spec fn is_empty_board(b: Seq<char>) -> bool {
    b.len() == 9 && forall|i: int| 0 <= i < 9 ==> #[trigger] b[i] == ' '
}

pub open spec fn is_full(b: Seq<char>) -> bool {
    forall|i: int| 0 <= i < 9 ==> #[trigger] b[i] != ' '
}

/// The owner of the line through cells `i`, `j`, `k`, if the three hold one mark.
pub open spec fn line_owner(b: Seq<char>, i: int, j: int, k: int) -> Option<Player> {
    if b[i] == b[j] && b[j] == b[k] && b[i] != ' ' {
        Some(player_of(b[i]))
    } else {
        None
    }
}

/// The three rows, the three columns and the two diagonals.
pub open spec fn is_line(i: int, j: int, k: int) -> bool {
    ||| (i, j, k) == (0int, 1int, 2int)
    ||| (i, j, k) == (3int, 4int, 5int)
    ||| (i, j, k) == (6int, 7int, 8int)
    ||| (i, j, k) == (0int, 3int, 6int)
    ||| (i, j, k) == (1int, 4int, 7int)
    ||| (i, j, k) == (2int, 5int, 8int)
    ||| (i, j, k) == (0int, 4int, 8int)
    ||| (i, j, k) == (2int, 4int, 6int)
}

pub open spec fn first_of(a: Option<Player>, b: Option<Player>) -> Option<Player> {
    if a is Some {
        a
    } else {
        b
    }
}

pub open spec fn row_winner(b: Seq<char>) -> Option<Player> {
    first_of(line_owner(b, 0, 1, 2), first_of(line_owner(b, 3, 4, 5), line_owner(b, 6, 7, 8)))
}

pub open spec fn col_winner(b: Seq<char>) -> Option<Player> {
    first_of(line_owner(b, 0, 3, 6), first_of(line_owner(b, 1, 4, 7), line_owner(b, 2, 5, 8)))
}

pub open spec fn diagonal_winner(b: Seq<char>) -> Option<Player> {
    first_of(line_owner(b, 0, 4, 8), line_owner(b, 2, 4, 6))
}

/// The winner of a board: rows are looked at first, then columns, then diagonals.
pub open spec fn winner_of(b: Seq<char>) -> Option<Player> {
    first_of(row_winner(b), first_of(col_winner(b), diagonal_winner(b)))
}

/// `board` differs from `other` at cell `k` and nowhere else.
pub open spec fn differs_only_at(board: Seq<char>, other: Seq<char>, k: int) -> bool {
    &&& 0 <= k < 9
    &&& board[k] != other[k]
    &&& forall|j: int| 0 <= j < 9 && j != k ==> board[j] == other[j]
}

pub open spec fn single_move(board: Seq<char>, other: Seq<char>) -> bool {
    exists|k: int| differs_only_at(board, other, k)
}

/// The one cell at which two boards that differ by a single move differ.
pub open spec fn moved_cell(board: Seq<char>, other: Seq<char>) -> int {
    choose|k: int| differs_only_at(board, other, k)
}

/// First slot at or after `i` that lies at `pos`.
pub open spec fn slot_from(slots: Seq<(u16, u16)>, pos: (u16, u16), i: int) -> Option<int>
    decreases slots.len() - i,
{
    if i < 0 || i >= slots.len() {
        None
    } else if slots[i] == pos {
        Some(i)
    } else {
        slot_from(slots, pos, i + 1)
    }
}

impl Player {
    pub open spec fn spec_toggle(self) -> Player {
        match self {
            Player::O => Player::X,
            Player::X => Player::O,
        }
    }

    /// The other player.
    pub fn toggle(&self) -> (r: Player)
        ensures
            r == self.spec_toggle(),
    {
        match self {
            Player::O => Player::X,
            Player::X => Player::O,
        }
    }

    /// The player that a mark names, in either case; `None` for any other character.
    pub fn from_mark(c: char) -> (r: Option<Player>)
        ensures
            r == (if is_mark_char(c) {
                Some(player_of(c))
            } else {
                None
            }),
    {
        if c == 'O' || c == 'o' {
            Some(Player::O)
        } else if c == 'X' || c == 'x' {
            Some(Player::X)
        } else {
            None
        }
    }

    /// The player that a mark names, in either case.
    pub fn from(c: char) -> (r: Player)
        requires
            is_mark_char(c),
        ensures
            r == player_of(c),
    {
        if c == 'O' || c == 'o' {
            Player::O
        } else {
            Player::X
        }
    }

    /// The mark that this player writes on the board.
    pub fn mark(&self) -> (r: char)
        ensures
            r == mark_of(*self),
    {
        match self {
            Player::O => 'O',
            Player::X => 'X',
        }
    }
}

impl From<&Player> for char {
    fn from(value: &Player) -> (r: char) {
        value.mark()
    }
}

impl vstd::std_specs::convert::FromSpecImpl<&Player> for char {
    open spec fn obeys_from_spec() -> bool {
        true
    }

    open spec fn from_spec(v: &Player) -> char {
        mark_of(*v)
    }
}

/// A snapshot of the game: the board, the round counter, whose turn it is and the outcome.
#[derive(Debug, Clone, Copy)]
pub struct State {
    pub board: [char; 9],
    pub round: u8,
    pub active: bool,
    pub current_player: Player,
    pub winner: Option<Player>,
}

impl State {
    /// Every cell holds a mark or a space.
    pub open spec fn wf(&self) -> bool {
        is_board(self.board@)
    }

    /// The state at the start of a match.
    pub open spec fn is_initial(&self) -> bool {
        &&& is_empty_board(self.board@)
        &&& self.round == 0
        &&& self.active
        &&& self.current_player == Player::O
        &&& self.winner is None
    }

    /// The state after win and draw detection.
    pub open spec fn spec_check_status(self) -> State {
        let winner = winner_of(self.board@);
        State {
            winner,
            active: self.active && !(is_full(self.board@) || winner is Some),
            ..self
        }
    }

    /// The state at the start of a match.
    pub fn initial() -> (r: State)
        ensures
            r.is_initial(),
            r.wf(),
    {
        State {
            board: [' ', ' ', ' ', ' ', ' ', ' ', ' ', ' ', ' '],
            round: 0,
            active: true,
            current_player: Player::O,
            winner: None,
        }
    }

    /// Starts the match over.
    pub fn restart(&mut self)
        ensures
            final(self).is_initial(),
            final(self).wf(),
    {
        *self = State::initial();
    }

    /// Sets the winner from the board, and ends the game when it has a winner or no empty cell.
    pub fn check_status(&mut self)
        requires
            old(self).wf(),
        ensures
            *final(self) == old(self).spec_check_status(),
    {
        let rows_result = self.check_rows();
        let cols_result = self.check_cols();
        let diagonal_result = self.check_diagonal();
        self.winner = match rows_result {
            Some(p) => Some(p),
            None => match cols_result {
                Some(p) => Some(p),
                None => diagonal_result,
            },
        };
        if !self.has_empty_cell() || self.winner.is_some() {
            self.active = false;
        }
    }

    fn has_empty_cell(&self) -> (r: bool)
        ensures
            r == !is_full(self.board@),
    {
        let mut i: usize = 0;
        while i < 9
            invariant
                i <= 9,
                forall|j: int| 0 <= j < i ==> self.board@[j] != ' ',
            decreases 9 - i,
        {
            if self.board[i] == ' ' {
                return true;
            }
            i += 1;
        }
        false
    }

    fn line(&self, i: usize, j: usize, k: usize) -> (r: Option<Player>)
        requires
            self.wf(),
            i < 9,
            j < 9,
            k < 9,
        ensures
            r == line_owner(self.board@, i as int, j as int, k as int),
    {
        let b = &self.board;
        assert(is_cell(self.board@[i as int]));
        if b[i] == b[j] && b[j] == b[k] && b[i] != ' ' {
            Some(Player::from(b[i]))
        } else {
            None
        }
    }

    fn check_rows(&self) -> (r: Option<Player>)
        requires
            self.wf(),
        ensures
            r == row_winner(self.board@),
    {
        let mut row: usize = 0;
        while row < 3
            invariant
                self.wf(),
                row <= 3,
                row_winner(self.board@) == (if row == 0 {
                    row_winner(self.board@)
                } else if row == 1 {
                    first_of(line_owner(self.board@, 3, 4, 5), line_owner(self.board@, 6, 7, 8))
                } else if row == 2 {
                    line_owner(self.board@, 6, 7, 8)
                } else {
                    None::<Player>
                }),
            decreases 3 - row,
        {
            let found = self.line(3 * row, 3 * row + 1, 3 * row + 2);
            if found.is_some() {
                return found;
            }
            row += 1;
        }
        None
    }

    fn check_cols(&self) -> (r: Option<Player>)
        requires
            self.wf(),
        ensures
            r == col_winner(self.board@),
    {
        let mut col: usize = 0;
        while col < 3
            invariant
                self.wf(),
                col <= 3,
                col_winner(self.board@) == (if col == 0 {
                    col_winner(self.board@)
                } else if col == 1 {
                    first_of(line_owner(self.board@, 1, 4, 7), line_owner(self.board@, 2, 5, 8))
                } else if col == 2 {
                    line_owner(self.board@, 2, 5, 8)
                } else {
                    None::<Player>
                }),
            decreases 3 - col,
        {
            let found = self.line(col, col + 3, col + 6);
            if found.is_some() {
                return found;
            }
            col += 1;
        }
        None
    }

    fn check_diagonal(&self) -> (r: Option<Player>)
        requires
            self.wf(),
        ensures
            r == diagonal_winner(self.board@),
    {
        let main = self.line(0, 4, 8);
        if main.is_some() {
            return main;
        }
        self.line(2, 4, 6)
    }
}

/// Decides whether `proposed` is a legal single move by `expected_mover` from `local`.
pub open spec fn spec_validate(local: State, proposed: State, expected_mover: Player) -> Result<
    (),
    RejectReason,
> {
    if !single_move(local.board@, proposed.board@) {
        Err(RejectReason::NotSingleMove)
    } else if proposed.round != local.round + 1 {
        Err(RejectReason::RoundMismatch)
    } else if proposed.board@[moved_cell(local.board@, proposed.board@)] != mark_of(expected_mover) {
        Err(RejectReason::WrongMover)
    } else if proposed.current_player == local.current_player {
        Err(RejectReason::TurnNotAdvanced)
    } else {
        Ok(())
    }
}

/// Checks that `proposed` follows from `local` by one move of `expected_mover`:
/// exactly one cell changed, the round went up by one, the changed cell holds
/// the mover's mark and the turn passed to the other player, checked in that order.
pub fn validate_move(local: &State, proposed: &State, expected_mover: Player) -> (r: Result<
    (),
    RejectReason,
>)
    ensures
        r == spec_validate(*local, *proposed, expected_mover),
{
    let mut first: Option<usize> = None;
    let mut second: Option<usize> = None;
    let mut i: usize = 0;
    while i < 9
        invariant
            i <= 9,
            first is None ==> second is None,
            first is None ==> forall|j: int| 0 <= j < i ==> local.board@[j] == proposed.board@[j],
            first matches Some(f) ==> {
                &&& f < i
                &&& local.board@[f as int] != proposed.board@[f as int]
                &&& forall|j: int| 0 <= j < f ==> local.board@[j] == proposed.board@[j]
            },
            first is Some && second is None ==> forall|j: int|
                first->0 < j < i ==> local.board@[j] == proposed.board@[j],
            second matches Some(s) ==> {
                &&& first is Some && first->0 < s
                &&& s < i
                &&& local.board@[s as int] != proposed.board@[s as int]
            },
        decreases 9 - i,
    {
        if local.board[i] != proposed.board[i] {
            if first.is_none() {
                first = Some(i);
            } else if second.is_none() {
                second = Some(i);
            }
        }
        i += 1;
    }
    let k = match first {
        None => {
            assert(!single_move(local.board@, proposed.board@));
            return Err(RejectReason::NotSingleMove);
        },
        Some(f) => f,
    };
    if let Some(s) = second {
        assert(!single_move(local.board@, proposed.board@)) by {
            if exists|m: int| differs_only_at(local.board@, proposed.board@, m) {
                let m = choose|m: int| differs_only_at(local.board@, proposed.board@, m);
                assert(k as int == m);
                assert(s as int == m);
            }
        }
        return Err(RejectReason::NotSingleMove);
    }
    assert(differs_only_at(local.board@, proposed.board@, k as int));
    assert(moved_cell(local.board@, proposed.board@) == k as int) by {
        let m = moved_cell(local.board@, proposed.board@);
        assert(differs_only_at(local.board@, proposed.board@, m));
    }
    if proposed.round as u16 != local.round as u16 + 1 {
        return Err(RejectReason::RoundMismatch);
    }
    if proposed.board[k] != expected_mover.mark() {
        return Err(RejectReason::WrongMover);
    }
    if proposed.current_player == local.current_player {
        return Err(RejectReason::TurnNotAdvanced);
    }
    Ok(())
}

/// A proposed state that fills one empty cell with the expected mover's mark, counts
/// the round up by one and passes the turn is accepted.
pub proof fn lemma_validate_accepts_single_move(
    local: State,
    proposed: State,
    expected_mover: Player,
    k: int,
)
    requires
        0 <= k < 9,
        local.board@[k] == ' ',
        proposed.board@ == local.board@.update(k, mark_of(expected_mover)),
        proposed.round == local.round + 1,
        proposed.current_player != local.current_player,
    ensures
        spec_validate(local, proposed, expected_mover) == Ok::<(), RejectReason>(()),
{
    assert(differs_only_at(local.board@, proposed.board@, k));
    let m = moved_cell(local.board@, proposed.board@);
    assert(differs_only_at(local.board@, proposed.board@, m));
}

/// A proposed state in which two cells changed is not a single move.
pub proof fn lemma_validate_rejects_two_changes(
    local: State,
    proposed: State,
    expected_mover: Player,
    i: int,
    j: int,
)
    requires
        0 <= i < 9,
        0 <= j < 9,
        i != j,
        local.board@[i] != proposed.board@[i],
        local.board@[j] != proposed.board@[j],
    ensures
        spec_validate(local, proposed, expected_mover) == Err::<(), RejectReason>(
            RejectReason::NotSingleMove,
        ),
{
    if single_move(local.board@, proposed.board@) {
        let m = moved_cell(local.board@, proposed.board@);
        assert(differs_only_at(local.board@, proposed.board@, m));
    }
}

/// A single move that does not count the round up is rejected; in particular one
/// that keeps the local round.
pub proof fn lemma_validate_rejects_stale_round(
    local: State,
    proposed: State,
    expected_mover: Player,
    k: int,
)
    requires
        differs_only_at(local.board@, proposed.board@, k),
        proposed.round == local.round,
    ensures
        spec_validate(local, proposed, expected_mover) == Err::<(), RejectReason>(
            RejectReason::RoundMismatch,
        ),
{
}

/// A single move, with the round counted up, that puts the other player's mark in
/// the changed cell is a move by the wrong player.
pub proof fn lemma_validate_rejects_wrong_mover(
    local: State,
    proposed: State,
    expected_mover: Player,
    k: int,
)
    requires
        differs_only_at(local.board@, proposed.board@, k),
        proposed.round == local.round + 1,
        proposed.board@[k] == mark_of(expected_mover.spec_toggle()),
    ensures
        spec_validate(local, proposed, expected_mover) == Err::<(), RejectReason>(
            RejectReason::WrongMover,
        ),
{
    let m = moved_cell(local.board@, proposed.board@);
    assert(differs_only_at(local.board@, proposed.board@, m));
    assert(m == k);
}

/// A full board with no line of three identical marks is a draw: no winner, and the
/// game is over.
pub proof fn lemma_full_board_without_line_is_draw(s: State)
    requires
        s.wf(),
        is_full(s.board@),
        forall|i: int, j: int, k: int|
            #![trigger line_owner(s.board@, i, j, k)]
            is_line(i, j, k) ==> line_owner(s.board@, i, j, k) is None,
    ensures
        s.spec_check_status().winner is None,
        !s.spec_check_status().active,
{
    assert(line_owner(s.board@, 0, 1, 2) is None);
    assert(line_owner(s.board@, 3, 4, 5) is None);
    assert(line_owner(s.board@, 6, 7, 8) is None);
    assert(line_owner(s.board@, 0, 3, 6) is None);
    assert(line_owner(s.board@, 1, 4, 7) is None);
    assert(line_owner(s.board@, 2, 5, 8) is None);
    assert(line_owner(s.board@, 0, 4, 8) is None);
    assert(line_owner(s.board@, 2, 4, 6) is None);
}

/// The cell positions on screen of the nine board cells, row by row.
pub open spec fn slot_positions() -> Seq<(u16, u16)> {
    seq![(3, 2), (7, 2), (11, 2), (3, 4), (7, 4), (11, 4), (3, 6), (7, 6), (11, 6)]
}

/// A match as one process sees it: the shared state, which player this side is,
/// the link state and the cursor on the screen.
#[derive(Debug)]
pub struct Game {
    pub state: State,
    pub player: Player,
    pub net_state: NetState,
    pub mode: Mode,
    pub board_pos: (u16, u16),
    pub cursor_pos: (u16, u16),
    pub free_cursor: bool,
    pub symbol_slots: [(u16, u16); 9],
}

/// `after` is `before` once the mark `symbol` was offered for the cell under the cursor:
/// placed, with the round counted and the turn passed, where that move is allowed;
/// otherwise nothing changed.
pub open spec fn placed(before: Game, after: Game, symbol: char) -> bool {
    if is_mark_char(symbol) && before.may_place(player_of(symbol)) {
        &&& after.state.board@ == before.state.board@.update(
            before.cursor_cell()->0,
            mark_of(player_of(symbol)),
        )
        &&& after == (Game {
            state: State {
                board: after.state.board,
                round: (before.state.round + 1) as u8,
                current_player: before.state.current_player.spec_toggle(),
                ..before.state
            },
            ..before
        })
    } else {
        after == before
    }
}

/// `after` is `before` restarted: a local match starts over, a network match is kept.
pub open spec fn restarted(before: Game, after: Game) -> bool {
    if before.mode == Mode::Local {
        after.state.is_initial() && after == (Game { state: after.state, ..before })
    } else {
        after == before
    }
}

impl Game {
    /// The board cell under the cursor, if the cursor is on one.
    pub open spec fn cursor_cell(self) -> Option<int> {
        slot_from(self.symbol_slots@, self.cursor_pos, 0)
    }

    /// This side may place a mark of player `p`.
    pub open spec fn may_place(self, p: Player) -> bool {
        &&& (self.mode == Mode::Network ==> self.player == p)
        &&& self.cursor_cell() is Some
        &&& self.state.board@[self.cursor_cell()->0] == ' '
        &&& self.state.current_player == p
        &&& self.state.active
    }

    /// A new match. The host, and both sides of a local match, play `O` and may send
    /// first; the other side of a network match plays `X` and waits.
    pub fn new(mode: Mode, is_host: bool) -> (r: Game)
        ensures
            r.state.is_initial(),
            r.state.wf(),
            r.mode == mode,
            mode == Mode::Network && !is_host ==> r.player == Player::X && r.net_state
                == NetState::Waiting,
            !(mode == Mode::Network && !is_host) ==> r.player == Player::O && r.net_state
                == NetState::Active,
            r.symbol_slots@ == slot_positions(),
            r.board_pos == (1u16, 1u16),
            r.cursor_pos == (3u16, 2u16),
            !r.free_cursor,
    {
        let mut player = Player::O;
        let mut net_state = NetState::Active;
        if mode == Mode::Network && !is_host {
            player = Player::X;
            net_state = NetState::Waiting;
        }
        let symbol_slots: [(u16, u16); 9] = [
            (3, 2),
            (7, 2),
            (11, 2),
            (3, 4),
            (7, 4),
            (11, 4),
            (3, 6),
            (7, 6),
            (11, 6),
        ];
        assert(symbol_slots@ =~= slot_positions());
        Game {
            player,
            mode,
            net_state,
            state: State::initial(),
            symbol_slots,
            board_pos: (1, 1),
            cursor_pos: (3, 2),
            free_cursor: false,
        }
    }

    /// Win and draw detection on the current state.
    pub fn check_state(&mut self)
        requires
            old(self).state.wf(),
        ensures
            *final(self) == (Game { state: old(self).state.spec_check_status(), ..*old(self) }),
    {
        self.state.check_status();
    }

    pub(crate) fn cursor_slot(&self) -> (r: Option<usize>)
        ensures
            r matches Some(i) ==> i < 9 && self.cursor_cell() == Some(i as int),
            r is None ==> self.cursor_cell() is None,
    {
        let mut i: usize = 0;
        while i < 9
            invariant
                i <= 9,
                self.symbol_slots@.len() == 9,
                self.cursor_cell() == slot_from(self.symbol_slots@, self.cursor_pos, i as int),
            decreases 9 - i,
        {
            let slot = self.symbol_slots[i];
            if slot.0 == self.cursor_pos.0 && slot.1 == self.cursor_pos.1 {
                return Some(i);
            }
            i += 1;
        }
        None
    }

    /// Places the mark `symbol` (either case) in the cell under the cursor, when the cell is
    /// empty, it is that player's turn, the game is active and, in a network match, the mark
    /// is this side's own. Then the round goes up by one and the turn passes. Otherwise
    /// nothing changes.
    pub fn attempt_placing(&mut self, symbol: char)
        requires
            old(self).state.round < 255,
        ensures
            placed(*old(self), *final(self), symbol),
    {
        let p = match Player::from_mark(symbol) {
            Some(p) => p,
            None => return ,
        };
        if self.mode == Mode::Network && self.player != p {
            return;
        }
        if let Some(i) = self.cursor_slot() {
            if self.state.board[i] == ' ' && self.state.current_player == p && self.state.active {
                self.state.board[i] = p.mark();
                self.state.round = self.state.round + 1;
                self.state.current_player = self.state.current_player.toggle();
            }
        }
    }

    /// Adopts a state proposed by the peer when it is one move of the other player
    /// from the local state; otherwise keeps the local state and says why.
    pub fn validate(&mut self, potential_state: State) -> (r: Result<(), RejectReason>)
        ensures
            r == spec_validate(old(self).state, potential_state, old(self).player.spec_toggle()),
            r is Ok ==> *final(self) == (Game { state: potential_state, ..*old(self) }),
            r is Err ==> *final(self) == *old(self),
    {
        let expected = self.player.toggle();
        let r = validate_move(&self.state, &potential_state, expected);
        if r.is_ok() {
            self.state = potential_state;
        }
        r
    }

    /// The player whose turn it is.
    pub fn get_current_player(&self) -> (r: &Player)
        ensures
            *r == self.state.current_player,
    {
        &self.state.current_player
    }

    /// Starts a local match over; a network match cannot be restarted.
    pub fn restart(&mut self)
        ensures
            restarted(*old(self), *final(self)),
    {
        match self.mode {
            Mode::Local => self.state.restart(),
            Mode::Network => {},
        }
    }
}

} // verus!
