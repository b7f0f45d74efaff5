//! Deciding whether the mark just placed completes five in a row.
use vstd::prelude::*;
use crate::board::{
    Cell, Player, owned_along, five_at, line_through, row_of, col_of, step_row, step_col,
};

verus! {

/// The step number `j` counted forward (`j`) or backward (`-j`).
pub open spec fn off(forward: bool, j: int) -> int {
    if forward {
        j
    } else {
        -j
    }
}

/// The row and column `k` steps from (`r`, `c`) along axis `a`.
fn step(a: u8, r: i64, c: i64, k: i64) -> (res: (i64, i64))
    requires
        a < 4,
        0 <= r < 15,
        0 <= c < 15,
        -5 <= k <= 5,
    ensures
        res.0 == step_row(a as int, r as int, k as int),
        res.1 == step_col(a as int, c as int, k as int),
{
    if a == 0 {
        (r, c + k)
    } else if a == 1 {
        (r + k, c)
    } else if a == 2 {
        (r + k, c + k)
    } else {
        (r + k, c - k)
    }
}

/// Counts the cells of `p` met one after another walking away from
/// (`r`, `c`) along axis `a`, in one direction, stopping at four.
fn run_length(b: &Vec<Cell>, r: i64, c: i64, a: u8, forward: bool, p: Player) -> (n: i64)
    requires
        b@.len() == 225,
        0 <= r < 15,
        0 <= c < 15,
        a < 4,
    ensures
        0 <= n <= 4,
        forall|j: int|
            1 <= j <= n ==> #[trigger] owned_along(
                b@,
                r as int,
                c as int,
                a as int,
                off(forward, j),
                p,
            ),
        n < 4 ==> !owned_along(b@, r as int, c as int, a as int, off(forward, n + 1), p),
{
    let mut n: i64 = 0;
    while n < 4
        invariant
            b@.len() == 225,
            0 <= r < 15,
            0 <= c < 15,
            a < 4,
            0 <= n <= 4,
            forall|j: int|
                1 <= j <= n ==> #[trigger] owned_along(
                    b@,
                    r as int,
                    c as int,
                    a as int,
                    off(forward, j),
                    p,
                ),
        decreases 4 - n,
    {
        let k: i64 = if forward {
            n + 1
        } else {
            -(n + 1)
        };
        let (rr, cc) = step(a, r, c, k);
        if rr < 0 || rr >= 15 || cc < 0 || cc >= 15 {
            return n;
        }
        let idx: usize = (rr * 15 + cc) as usize;
        let hit = match b[idx] {
            Cell::Owned(q) => q == p,
            Cell::Empty => false,
        };
        if !hit {
            return n;
        }
        n = n + 1;
    }
    n
}

/// Whether five or more marks of `p` now stand in an unbroken line through
/// `index` along some axis. Lines never wrap from one row's end to the next
/// row's start: every step is taken in row and column coordinates.
pub fn completes_line(b: &Vec<Cell>, index: usize, p: Player) -> (r: bool)
    requires
        b@.len() == 225,
        index < 225,
        b@[index as int] == Cell::Owned(p),
    ensures
        r == line_through(b@, index as int, p),
{
    let r: i64 = (index / 15) as i64;
    let c: i64 = (index % 15) as i64;
    assert(r == row_of(index as int) && c == col_of(index as int));
    assert(owned_along(b@, r as int, c as int, 0, 0, p));
    let mut a: u8 = 0;
    while a < 4
        invariant
            b@.len() == 225,
            index < 225,
            r == row_of(index as int),
            c == col_of(index as int),
            0 <= r < 15,
            0 <= c < 15,
            a <= 4,
            forall|x: int| 0 <= x < 4 ==> owned_along(b@, r as int, c as int, x, 0, p),
            forall|x: int, s: int|
                0 <= x < a && -4 <= s <= 0 ==> !#[trigger] five_at(
                    b@,
                    r as int,
                    c as int,
                    x,
                    s,
                    p,
                ),
        decreases 4 - a,
    {
        let f = run_length(b, r, c, a, true, p);
        let k = run_length(b, r, c, a, false, p);
        if f + k >= 4 {
            proof {
                let s = -(k as int);
                assert forall|m: int| s <= m < s + 5 implies #[trigger] owned_along(
                    b@,
                    r as int,
                    c as int,
                    a as int,
                    m,
                    p,
                ) by {
                    if m > 0 {
                        assert(off(true, m) == m);
                    } else if m < 0 {
                        assert(off(false, -m) == m);
                    }
                }
                assert(five_at(b@, r as int, c as int, a as int, s, p));
            }
            return true;
        }
        proof {
            assert forall|s: int| -4 <= s <= 0 implies !#[trigger] five_at(
                b@,
                r as int,
                c as int,
                a as int,
                s,
                p,
            ) by {
                if five_at(b@, r as int, c as int, a as int, s, p) {
                    if s + 4 >= f + 1 {
                        assert(off(true, f + 1) == f + 1);
                        assert(owned_along(b@, r as int, c as int, a as int, f + 1, p));
                    } else {
                        assert(off(false, k + 1) == -(k + 1));
                        assert(owned_along(b@, r as int, c as int, a as int, -(k + 1), p));
                    }
                }
            }
        }
        a = a + 1;
    }
    false
}

/// Five marks of `p` at consecutive indices that run from the end of row
/// `r` (from column `c0`) into the start of row `r + 1` are no five in a row:
/// when they are `p`'s only marks, no cell has a line of `p` through it.
pub proof fn lemma_row_wrap_is_no_line(b: Seq<Cell>, r: int, c0: int, p: Player, i: int)
    requires
        b.len() == 225,
        0 <= r < 14,
        11 <= c0 <= 14,
        forall|j: int| 0 <= j < 225 ==> (#[trigger] b[j] == Cell::Owned(p) <==> r * 15 + c0 <= j < r * 15 + c0 + 5),
    ensures
        !line_through(b, i, p),
{
    if line_through(b, i, p) {
        let (a, s) = choose|a: int, s: int|
            0 <= a < 4 && -4 <= s <= 0 && #[trigger] five_at(b, row_of(i), col_of(i), a, s, p);
        let ri = row_of(i);
        let ci = col_of(i);
        assert(owned_along(b, ri, ci, a, s, p));
        assert(owned_along(b, ri, ci, a, s + 2, p));
        assert(owned_along(b, ri, ci, a, s + 4, p));
        let r0 = step_row(a, ri, s);
        let r4 = step_row(a, ri, s + 4);
        let c0w = step_col(a, ci, s);
        let c4w = step_col(a, ci, s + 4);
        assert(b[r0 * 15 + c0w] == Cell::Owned(p));
        assert(b[r4 * 15 + c4w] == Cell::Owned(p));
        if a == 0 {
            assert(r0 == r4 && c4w == c0w + 4);
        } else {
            let r2 = step_row(a, ri, s + 2);
            let c2w = step_col(a, ci, s + 2);
            assert(b[r2 * 15 + c2w] == Cell::Owned(p));
            assert(r2 == r0 + 2);
        }
    }
}

} // verus!
