//! The board: 225 cells in row-major order, 15 to a row.
use vstd::prelude::*;

verus! {

/// Cells in one row (and rows on the board).
pub const SIDE: usize = 15;

/// Cells on the board.
pub const CELLS: usize = 225;

/// One of the two participants.
#[derive(Clone, Copy, Debug, PartialEq, Eq, Structural)]
pub enum Player {
    One,
    Two,
}

/// The participant who moves after `p`.
pub open spec fn opponent(p: Player) -> Player {
    match p {
        Player::One => Player::Two,
        Player::Two => Player::One,
    }
}

impl Player {
    /// The participant who moves after `self`.
    pub fn other(self) -> (r: Player)
        ensures
            r == opponent(self),
    {
        match self {
            Player::One => Player::Two,
            Player::Two => Player::One,
        }
    }
}

/// What a cell of the board holds.
#[derive(Clone, Copy, Debug, PartialEq, Eq, Structural)]
pub enum Cell {
    Empty,
    Owned(Player),
}

pub open spec fn row_of(i: int) -> int {
    i / 15
}

pub open spec fn col_of(i: int) -> int {
    i % 15
}

pub open spec fn in_grid(r: int, c: int) -> bool {
    0 <= r < 15 && 0 <= c < 15
}

pub open spec fn index_of(r: int, c: int) -> int {
    r * 15 + c
}

/// The row reached from row `r` by `k` steps along axis `a`
/// (0: horizontal, 1: vertical, 2: down-right diagonal, 3: down-left diagonal).
pub open spec fn step_row(a: int, r: int, k: int) -> int {
    if a == 0 {
        r
    } else {
        r + k
    }
}

/// The column reached from column `c` by `k` steps along axis `a`.
pub open spec fn step_col(a: int, c: int, k: int) -> int {
    if a == 1 {
        c
    } else if a == 3 {
        c - k
    } else {
        c + k
    }
}

/// The cell at row `r`, column `c` lies on the board and belongs to `p`.
pub open spec fn owned_at(b: Seq<Cell>, r: int, c: int, p: Player) -> bool {
    in_grid(r, c) && b[index_of(r, c)] == Cell::Owned(p)
}

/// The cell `k` steps from (`r`, `c`) along axis `a` lies on the board and belongs to `p`.
pub open spec fn owned_along(b: Seq<Cell>, r: int, c: int, a: int, k: int, p: Player) -> bool {
    owned_at(b, step_row(a, r, k), step_col(a, c, k), p)
}

/// The five cells at steps `s` to `s + 4` from (`r`, `c`) along axis `a` all belong to `p`.
pub open spec fn five_at(b: Seq<Cell>, r: int, c: int, a: int, s: int, p: Player) -> bool {
    forall|k: int| s <= k < s + 5 ==> #[trigger] owned_along(b, r, c, a, k, p)
}

/// Five cells of `p` in an unbroken line along one of the four axes pass
/// through the cell at index `i`, none of them leaving the board.
pub open spec fn line_through(b: Seq<Cell>, i: int, p: Player) -> bool {
    exists|a: int, s: int|
        0 <= a < 4 && -4 <= s <= 0 && #[trigger] five_at(b, row_of(i), col_of(i), a, s, p)
}

/// The empty board.
pub open spec fn empty_board() -> Seq<Cell> {
    Seq::new(225, |i: int| Cell::Empty)
}

/// A board of 225 empty cells.
pub fn new_board() -> (r: Vec<Cell>)
    ensures
        r@ == empty_board(),
{
    let mut v: Vec<Cell> = Vec::new();
    let mut i: usize = 0;
    while i < CELLS
        invariant
            i <= CELLS,
            v@ == Seq::new(i as nat, |j: int| Cell::Empty),
        decreases CELLS - i,
    {
        v.push(Cell::Empty);
        i = i + 1;
        assert(v@ =~= Seq::new(i as nat, |j: int| Cell::Empty));
    }
    assert(v@ =~= empty_board());
    v
}

} // verus!
