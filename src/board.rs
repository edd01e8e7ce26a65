use vstd::prelude::*;

verus! {

/// The abstract state of a grid: its dimensions and the liveness of each
/// cell, stored column by column (`cells[x][y]`).
pub struct Board {
    pub width: nat,
    pub height: nat,
    pub cells: Seq<Seq<bool>>,
}

/// The standard birth/survival rule: a cell is alive in the next generation
/// when it has exactly three live neighbors, or when it is alive now and has
/// exactly two.
pub open spec fn next_alive(alive: bool, neighbors: int) -> bool {
    neighbors == 3 || (alive && neighbors == 2)
}

impl Board {
    /// Every column holds exactly one flag per row.
    pub open spec fn wf(self) -> bool {
        &&& self.cells.len() == self.width
        &&& forall|x: int| 0 <= x < self.width ==> #[trigger] self.cells[x].len() == self.height
    }

    pub open spec fn in_bounds(self, x: int, y: int) -> bool {
        0 <= x < self.width && 0 <= y < self.height
    }

    /// A board of the given dimensions with every cell dead.
    pub open spec fn fresh(width: nat, height: nat) -> Board {
        Board { width, height, cells: Seq::new(width, |x: int| Seq::new(height, |y: int| false)) }
    }

    pub open spec fn alive(self, x: int, y: int) -> bool {
        self.cells[x][y]
    }

    /// The same board with the cell at `(x, y)` overwritten by `v`.
    pub open spec fn set(self, x: int, y: int, v: bool) -> Board {
        Board { cells: self.cells.update(x, self.cells[x].update(y, v)), ..self }
    }

    /// 1 when `(x, y)` lies on the board and is alive, else 0: positions off
    /// the board count as dead.
    pub open spec fn live_weight(self, x: int, y: int) -> int {
        if self.in_bounds(x, y) && self.alive(x, y) {
            1
        } else {
            0
        }
    }

    /// The number of live cells among the eight Moore neighbors of `(x, y)`.
    pub open spec fn neighbor_count(self, x: int, y: int) -> int {
        self.live_weight(x - 1, y - 1) + self.live_weight(x - 1, y) + self.live_weight(x - 1, y + 1)
            + self.live_weight(x, y - 1) + self.live_weight(x, y + 1) + self.live_weight(x + 1, y - 1)
            + self.live_weight(x + 1, y) + self.live_weight(x + 1, y + 1)
    }

    /// 1 when `(x, y)` lies on the board, else 0.
    pub open spec fn slot_weight(self, x: int, y: int) -> int {
        if self.in_bounds(x, y) {
            1
        } else {
            0
        }
    }

    /// The number of the eight Moore neighbor positions of `(x, y)` that lie
    /// on the board.
    pub open spec fn neighbor_slots(self, x: int, y: int) -> int {
        self.slot_weight(x - 1, y - 1) + self.slot_weight(x - 1, y) + self.slot_weight(x - 1, y + 1)
            + self.slot_weight(x, y - 1) + self.slot_weight(x, y + 1) + self.slot_weight(x + 1, y - 1)
            + self.slot_weight(x + 1, y) + self.slot_weight(x + 1, y + 1)
    }

    /// The next generation: same dimensions, each cell decided by
    /// `next_alive` from its current state and its live-neighbor count.
    pub open spec fn step(self) -> Board {
        Board {
            width: self.width,
            height: self.height,
            cells: Seq::new(
                self.width,
                |x: int| Seq::new(self.height, |y: int| next_alive(self.alive(x, y), self.neighbor_count(x, y))),
            ),
        }
    }
}

/// Writing a value into an in-bounds cell and reading that cell back gives
/// the value written; the board keeps its shape.
pub proof fn lemma_set_then_get(b: Board, x: int, y: int, v: bool)
    requires
        b.wf(),
        b.in_bounds(x, y),
    ensures
        b.set(x, y, v).wf(),
        b.set(x, y, v).alive(x, y) == v,
{
    let s = b.set(x, y, v);
    assert forall|i: int| 0 <= i < s.width implies #[trigger] s.cells[i].len() == s.height by {
        if i != x {
            assert(s.cells[i] == b.cells[i]);
        }
    }
}

/// A freshly made board of any dimensions is well formed and has every cell
/// dead.
pub proof fn lemma_fresh_board_all_dead(width: nat, height: nat)
    ensures
        Board::fresh(width, height).wf(),
        forall|x: int, y: int|
            Board::fresh(width, height).in_bounds(x, y) ==> !#[trigger] Board::fresh(width, height).alive(x, y),
{
}

/// Bounds on the live-neighbor count of an in-bounds cell: it never exceeds
/// the number of neighbor positions on the board, which is at most 3 for a
/// corner cell, at most 5 for an edge cell and exactly 8 for an interior
/// cell; a cell whose neighbors are all dead has count 0.
pub proof fn lemma_neighbor_count_bounds(b: Board, x: int, y: int)
    requires
        b.wf(),
        b.in_bounds(x, y),
    ensures
        0 <= b.neighbor_count(x, y) <= b.neighbor_slots(x, y) <= 8,
        (x == 0 || x == b.width - 1) && (y == 0 || y == b.height - 1) ==> b.neighbor_slots(x, y) <= 3,
        (x == 0 || x == b.width - 1 || y == 0 || y == b.height - 1) ==> b.neighbor_slots(x, y) <= 5,
        (0 < x < b.width - 1 && 0 < y < b.height - 1) ==> b.neighbor_slots(x, y) == 8,
        (forall|dx: int, dy: int|
            -1 <= dx <= 1 && -1 <= dy <= 1 && !(dx == 0 && dy == 0) ==> #[trigger] b.live_weight(
                x + dx,
                y + dy,
            ) == 0) ==> b.neighbor_count(x, y) == 0,
{
    if forall|dx: int, dy: int|
        -1 <= dx <= 1 && -1 <= dy <= 1 && !(dx == 0 && dy == 0) ==> #[trigger] b.live_weight(
            x + dx,
            y + dy,
        ) == 0 {
        assert(b.live_weight(x + -1, y + -1) == 0);
        assert(b.live_weight(x + -1, y + 0) == 0);
        assert(b.live_weight(x + -1, y + 1) == 0);
        assert(b.live_weight(x + 0, y + -1) == 0);
        assert(b.live_weight(x + 0, y + 1) == 0);
        assert(b.live_weight(x + 1, y + -1) == 0);
        assert(b.live_weight(x + 1, y + 0) == 0);
        assert(b.live_weight(x + 1, y + 1) == 0);
    }
}

} // verus!
