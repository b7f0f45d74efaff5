//! The game state machine: legal moves, turns, the winner and resets.
use vstd::prelude::*;
use vstd::set_lib::{lemma_int_range, lemma_len_subset, set_int_range};
use crate::board::{
    Cell, Player, CELLS, empty_board, five_at, line_through, new_board, opponent, owned_along,
    row_of, col_of, index_of, step_row, step_col,
};
use crate::win::completes_line;

verus! {

/// Where a game stands. Exactly one of these holds at any time.
#[derive(Clone, Debug, PartialEq, Eq)]
pub enum GameStatus {
    WaitingForConnection,
    InProgress(Player),
    Finished(Player),
    Disconnected(String),
}

/// Why a move was refused.
#[derive(Clone, Copy, Debug, PartialEq, Eq, Structural)]
pub enum MoveError {
    OutOfTurn,
    OutOfBounds,
    CellOccupied,
    GameAlreadyFinished,
}

/// What an accepted move led to.
#[derive(Clone, Copy, Debug, PartialEq, Eq, Structural)]
pub struct MoveOutcome {
    pub winner: Option<Player>,
}

/// The error a move of `p` at `index` gets, if any: a finished game refuses
/// every move; otherwise it must be `p`'s turn, `index` must lie on the board,
/// and its cell must be empty, checked in that order.
pub open spec fn move_error(b: Seq<Cell>, st: GameStatus, index: int, p: Player) -> Option<
    MoveError,
> {
    if st is Finished {
        Some(MoveError::GameAlreadyFinished)
    } else if st != GameStatus::InProgress(p) {
        Some(MoveError::OutOfTurn)
    } else if !(0 <= index < 225) {
        Some(MoveError::OutOfBounds)
    } else if b[index] != Cell::Empty {
        Some(MoveError::CellOccupied)
    } else {
        None
    }
}

/// A move of `p` at `index` on board `b` with status `st`: the new board,
/// the new status and the answer. A refused move changes nothing; an
/// accepted one marks the cell, then either finishes the game, when the mark
/// completes five in a row, or passes the turn.
pub open spec fn place_result(b: Seq<Cell>, st: GameStatus, index: int, p: Player) -> (
    Seq<Cell>,
    GameStatus,
    Result<MoveOutcome, MoveError>,
) {
    match move_error(b, st, index, p) {
        Some(e) => (b, st, Err(e)),
        None => {
            let nb = b.update(index, Cell::Owned(p));
            if line_through(nb, index, p) {
                (nb, GameStatus::Finished(p), Ok(MoveOutcome { winner: Some(p) }))
            } else {
                (nb, GameStatus::InProgress(opponent(p)), Ok(MoveOutcome { winner: None }))
            }
        },
    }
}

/// The copy of `s` that `clone` gives.
fn copy_status(s: &GameStatus) -> (r: GameStatus)
    ensures
        r == *s,
{
    match s {
        GameStatus::WaitingForConnection => GameStatus::WaitingForConnection,
        GameStatus::InProgress(p) => GameStatus::InProgress(*p),
        GameStatus::Finished(p) => GameStatus::Finished(*p),
        GameStatus::Disconnected(reason) => GameStatus::Disconnected(reason.clone()),
    }
}

/// The board and the status of one game.
pub struct Game {
    cells: Vec<Cell>,
    status: GameStatus,
}

impl Game {
    /// The cells, in row-major order.
    pub closed spec fn board(&self) -> Seq<Cell> {
        self.cells@
    }

    /// The current status.
    pub closed spec fn state(&self) -> GameStatus {
        self.status
    }

    pub open spec fn wf(&self) -> bool {
        self.board().len() == 225
    }

    /// A game on an empty board with `One` to move.
    pub fn new() -> (g: Game)
        ensures
            g.wf(),
            g.board() == empty_board(),
            g.state() == GameStatus::InProgress(Player::One),
    {
        Game { cells: new_board(), status: GameStatus::InProgress(Player::One) }
    }

    /// An empty board that waits for the connection to its authority.
    pub fn waiting() -> (g: Game)
        ensures
            g.wf(),
            g.board() == empty_board(),
            g.state() == GameStatus::WaitingForConnection,
    {
        Game { cells: new_board(), status: GameStatus::WaitingForConnection }
    }

    /// A copy of the 225 cells.
    pub fn board_snapshot(&self) -> (r: Vec<Cell>)
        ensures
            r@ == self.board(),
    {
        self.cells.clone()
    }

    /// The cell at `index`.
    pub fn cell(&self, index: usize) -> (r: Cell)
        requires
            self.wf(),
            index < CELLS,
        ensures
            r == self.board()[index as int],
    {
        self.cells[index]
    }

    /// A copy of the status.
    pub fn status(&self) -> (r: GameStatus)
        ensures
            r == self.state(),
    {
        copy_status(&self.status)
    }

    /// Places `player`'s mark at `index`. On success the turn passes to the
    /// other player, or the game is finished when the mark completes five
    /// in a row; on failure nothing changes.
    pub fn place(&mut self, index: usize, player: Player) -> (r: Result<MoveOutcome, MoveError>)
        requires
            old(self).wf(),
        ensures
            final(self).wf(),
            (final(self).board(), final(self).state(), r) == place_result(
                old(self).board(),
                old(self).state(),
                index as int,
                player,
            ),
    {
        match &self.status {
            GameStatus::Finished(_) => {
                return Err(MoveError::GameAlreadyFinished);
            },
            GameStatus::InProgress(turn) => {
                if *turn != player {
                    return Err(MoveError::OutOfTurn);
                }
            },
            _ => {
                return Err(MoveError::OutOfTurn);
            },
        }
        if index >= CELLS {
            return Err(MoveError::OutOfBounds);
        }
        if self.cells[index] != Cell::Empty {
            return Err(MoveError::CellOccupied);
        }
        self.cells.set(index, Cell::Owned(player));
        if completes_line(&self.cells, index, player) {
            self.status = GameStatus::Finished(player);
            Ok(MoveOutcome { winner: Some(player) })
        } else {
            self.status = GameStatus::InProgress(player.other());
            Ok(MoveOutcome { winner: None })
        }
    }

    /// Clears the board and gives the first move to `One`, whatever the
    /// game's state was.
    pub fn reset(&mut self)
        ensures
            final(self).wf(),
            final(self).board() == empty_board(),
            final(self).state() == GameStatus::InProgress(Player::One),
    {
        self.cells = new_board();
        self.status = GameStatus::InProgress(Player::One);
    }

    /// Ends the game by the authority's word, with `winner` as its winner.
    pub fn declare_winner(&mut self, winner: Player)
        requires
            old(self).wf(),
        ensures
            final(self).wf(),
            final(self).board() == old(self).board(),
            final(self).state() == GameStatus::Finished(winner),
    {
        self.status = GameStatus::Finished(winner);
    }

    /// Records that the connection was lost, for `reason`; the board stays.
    pub fn disconnect(&mut self, reason: String)
        requires
            old(self).wf(),
        ensures
            final(self).wf(),
            final(self).board() == old(self).board(),
            final(self).state() == GameStatus::Disconnected(reason),
    {
        self.status = GameStatus::Disconnected(reason);
    }
}

/// On a board with `index` empty, a move there by the player to move is
/// accepted and marks the cell with that player. The cell then refuses every
/// later move, and while the game goes on it refuses the player to move with
/// `CellOccupied`.
pub proof fn lemma_place_once(b: Seq<Cell>, index: int, p: Player, q: Player)
    requires
        b.len() == 225,
        0 <= index < 225,
        b[index] == Cell::Empty,
    ensures
        ({
            let (b1, s1, r1) = place_result(b, GameStatus::InProgress(p), index, p);
            &&& r1 is Ok
            &&& b1[index] == Cell::Owned(p)
            &&& place_result(b1, s1, index, q).2 is Err
            &&& place_result(b1, s1, index, q).0 == b1
            &&& s1 == GameStatus::InProgress(q) ==> place_result(b1, s1, index, q).2 == Err::<
                MoveOutcome,
                MoveError,
            >(MoveError::CellOccupied)
        }),
{
}

/// A move by anyone but the player to move, in a game not finished, is
/// refused with `OutOfTurn`, wherever it is, and changes nothing.
pub proof fn lemma_out_of_turn(b: Seq<Cell>, st: GameStatus, index: int, p: Player)
    requires
        !(st is Finished),
        st != GameStatus::InProgress(p),
    ensures
        place_result(b, st, index, p) == (b, st, Err::<MoveOutcome, MoveError>(MoveError::OutOfTurn)),
{
}

/// A legal move that completes five marks of its player in a row, along any
/// of the four axes, wins: the game is finished with that player as winner.
pub proof fn lemma_five_wins(b: Seq<Cell>, index: int, p: Player, a: int, s: int)
    requires
        b.len() == 225,
        0 <= index < 225,
        b[index] == Cell::Empty,
        0 <= a < 4,
        -4 <= s <= 0,
        five_at(b.update(index, Cell::Owned(p)), row_of(index), col_of(index), a, s, p),
    ensures
        place_result(b, GameStatus::InProgress(p), index, p).1 == GameStatus::Finished(p),
        place_result(b, GameStatus::InProgress(p), index, p).2 == Ok::<MoveOutcome, MoveError>(
            MoveOutcome { winner: Some(p) },
        ),
{
    assert(line_through(b.update(index, Cell::Owned(p)), index, p));
}

/// The cells that hold a mark of `p`.
pub open spec fn marks_of(b: Seq<Cell>, p: Player) -> Set<int> {
    Set::new(|j: int| 0 <= j < b.len() && b[j] == Cell::Owned(p))
}

/// Five in a row takes five marks: on a board with four or fewer marks of
/// `p`, no cell has a line of `p` through it.
pub proof fn lemma_four_marks_never_win(b: Seq<Cell>, i: int, p: Player)
    requires
        b.len() == 225,
        marks_of(b, p).len() < 5,
    ensures
        !line_through(b, i, p),
{
    if line_through(b, i, p) {
        let (a, s) = choose|a: int, s: int|
            0 <= a < 4 && -4 <= s <= 0 && #[trigger] five_at(b, row_of(i), col_of(i), a, s, p);
        let r = row_of(i);
        let c = col_of(i);
        assert(owned_along(b, r, c, a, s, p));
        assert(owned_along(b, r, c, a, s + 1, p));
        assert(owned_along(b, r, c, a, s + 2, p));
        assert(owned_along(b, r, c, a, s + 3, p));
        assert(owned_along(b, r, c, a, s + 4, p));
        let x0 = index_of(step_row(a, r, s), step_col(a, c, s));
        let x1 = index_of(step_row(a, r, s + 1), step_col(a, c, s + 1));
        let x2 = index_of(step_row(a, r, s + 2), step_col(a, c, s + 2));
        let x3 = index_of(step_row(a, r, s + 3), step_col(a, c, s + 3));
        let x4 = index_of(step_row(a, r, s + 4), step_col(a, c, s + 4));
        let five = set![x0, x1, x2, x3, x4];
        assert(x0 != x1 && x0 != x2 && x0 != x3 && x0 != x4);
        assert(x1 != x2 && x1 != x3 && x1 != x4);
        assert(x2 != x3 && x2 != x4 && x3 != x4);
        assert(five.len() == 5);
        lemma_int_range(0, 225);
        assert(marks_of(b, p).subset_of(set_int_range(0, 225)));
        lemma_len_subset(marks_of(b, p), set_int_range(0, 225));
        assert(five.subset_of(marks_of(b, p)));
        lemma_len_subset(five, marks_of(b, p));
    }
}

} // verus!
