use vstd::prelude::*;

use crate::board::{lemma_set_then_get, next_alive, Board};
use crate::pos::{Dimensions, Position};

verus! {

/// The message carried by every out-of-bounds error of the grid.
pub open spec fn bounds_message() -> Seq<char> {
    "Position out of bounds"@
}

/// A Game of Life grid of fixed dimensions, stored column by column.
pub struct GoL {
    map: Vec<Vec<bool>>,
    dims: Dimensions,
}

impl View for GoL {
    type V = Board;

    closed spec fn view(&self) -> Board {
        Board {
            width: self.dims.width as nat,
            height: self.dims.height as nat,
            cells: self.map@.map_values(|col: Vec<bool>| col@),
        }
    }
}

impl GoL {
    /// Makes a grid of the given dimensions with every cell dead.
    pub fn new(dims: Dimensions) -> (r: GoL)
        ensures
            r@ == Board::fresh(dims.width as nat, dims.height as nat),
            r@.wf(),
            forall|x: int, y: int| r@.in_bounds(x, y) ==> !#[trigger] r@.alive(x, y),
    {
        let mut map: Vec<Vec<bool>> = Vec::new();
        let mut x: usize = 0;
        while x < dims.width
            invariant
                x <= dims.width,
                map@.len() == x,
                forall|i: int| 0 <= i < x ==> #[trigger] map@[i]@ == Seq::new(dims.height as nat, |j: int| false),
            decreases dims.width - x,
        {
            let mut col: Vec<bool> = Vec::new();
            let mut y: usize = 0;
            while y < dims.height
                invariant
                    y <= dims.height,
                    col@ == Seq::new(y as nat, |j: int| false),
                decreases dims.height - y,
            {
                col.push(false);
                y += 1;
                assert(col@ =~= Seq::new(y as nat, |j: int| false));
            }
            map.push(col);
            x += 1;
        }
        let r = GoL { map, dims };
        assert(r@.cells =~= Board::fresh(dims.width as nat, dims.height as nat).cells);
        r
    }

    /// The dimensions the grid was made with.
    pub fn dims(&self) -> (d: Dimensions)
        ensures
            d.width as nat == self@.width,
            d.height as nat == self@.height,
    {
        self.dims
    }

    fn bound_check(&self, pos: Position) -> (r: Result<(), String>)
        ensures
            r is Ok <==> self@.in_bounds(pos.x as int, pos.y as int),
            r matches Err(msg) ==> msg@ == bounds_message(),
    {
        if pos.x < self.dims.width && pos.y < self.dims.height {
            Ok(())
        } else {
            Err(String::from_str("Position out of bounds"))
        }
    }

    /// The state of the cell at `pos`, or an error when `pos` lies outside
    /// the grid.
    pub fn get_cell_at(&self, pos: Position) -> (r: Result<bool, String>)
        requires
            self@.wf(),
        ensures
            self@.in_bounds(pos.x as int, pos.y as int) ==> r == Ok::<bool, String>(
                self@.alive(pos.x as int, pos.y as int),
            ),
            !self@.in_bounds(pos.x as int, pos.y as int) ==> (r matches Err(msg) && msg@
                == bounds_message()),
    {
        match self.bound_check(pos) {
            Err(msg) => Err(msg),
            Ok(_) => {
                assert(self.map@[pos.x as int]@ == self@.cells[pos.x as int]);
                Ok(self.map[pos.x][pos.y])
            },
        }
    }

    /// Overwrites the cell at `pos` with `val`, or fails, leaving the grid
    /// as it was, when `pos` lies outside the grid.
    pub fn set_cell_at(&mut self, pos: Position, val: bool) -> (r: Result<(), String>)
        requires
            old(self)@.wf(),
        ensures
            final(self)@.wf(),
            old(self)@.in_bounds(pos.x as int, pos.y as int) ==> r is Ok && final(self)@ == old(
                self,
            )@.set(pos.x as int, pos.y as int, val),
            !old(self)@.in_bounds(pos.x as int, pos.y as int) ==> (r matches Err(msg) && msg@
                == bounds_message()) && final(self)@ == old(self)@,
    {
        match self.bound_check(pos) {
            Err(msg) => Err(msg),
            Ok(_) => {
                assert(self.map@[pos.x as int]@ == self@.cells[pos.x as int]);
                self.map[pos.x][pos.y] = val;
                proof {
                    let b = old(self)@.set(pos.x as int, pos.y as int, val);
                    lemma_set_then_get(old(self)@, pos.x as int, pos.y as int, val);
                    assert(self@.cells =~= b.cells);
                }
                Ok(())
            },
        }
    }
    /// 1 when the neighbor of `pos` at offset `(dx, dy)` lies on the grid and
    /// is alive, else 0.
    fn neighbor_weight(&self, pos: Position, dx: i32, dy: i32) -> (w: i32)
        requires
            self@.wf(),
            self@.in_bounds(pos.x as int, pos.y as int),
            -1 <= dx <= 1,
            -1 <= dy <= 1,
        ensures
            w == self@.live_weight(pos.x + dx, pos.y + dy),
    {
        if (dx < 0 && pos.x == 0) || (dy < 0 && pos.y == 0) {
            return 0;
        }
        let nx: usize = if dx < 0 {
            pos.x - 1
        } else if dx > 0 {
            pos.x + 1
        } else {
            pos.x
        };
        let ny: usize = if dy < 0 {
            pos.y - 1
        } else if dy > 0 {
            pos.y + 1
        } else {
            pos.y
        };
        match self.get_cell_at(Position { x: nx, y: ny }) {
            Ok(true) => 1,
            _ => 0,
        }
    }

    /// The number of live cells among the eight neighbors of `pos`, where
    /// neighbors off the grid count as dead; an error when `pos` itself lies
    /// outside the grid.
    pub fn get_neighbors_alive_count(&self, pos: Position) -> (r: Result<i32, String>)
        requires
            self@.wf(),
        ensures
            self@.in_bounds(pos.x as int, pos.y as int) ==> (r matches Ok(n) && n as int
                == self@.neighbor_count(pos.x as int, pos.y as int)),
            !self@.in_bounds(pos.x as int, pos.y as int) ==> (r matches Err(msg) && msg@
                == bounds_message()),
    {
        match self.bound_check(pos) {
            Err(msg) => Err(msg),
            Ok(_) => {
                let mut count: i32 = 0;
                count = count + self.neighbor_weight(pos, -1, -1);
                count = count + self.neighbor_weight(pos, -1, 0);
                count = count + self.neighbor_weight(pos, -1, 1);
                count = count + self.neighbor_weight(pos, 0, -1);
                count = count + self.neighbor_weight(pos, 0, 1);
                count = count + self.neighbor_weight(pos, 1, -1);
                count = count + self.neighbor_weight(pos, 1, 0);
                count = count + self.neighbor_weight(pos, 1, 1);
                Ok(count)
            },
        }
    }

    /// The next generation of `gol`, a new grid of the same dimensions; `gol`
    /// itself is left as it is.
    pub fn simulate_next_step(gol: &GoL) -> (r: Result<GoL, String>)
        requires
            gol@.wf(),
        ensures
            r matches Ok(next) && next@ == gol@.step() && next@.wf(),
    {
        let mut result = GoL::new(gol.dims);
        let ghost target = gol@.step();
        let mut x: usize = 0;
        while x < gol.dims.width
            invariant
                gol@.wf(),
                target == gol@.step(),
                result@.wf(),
                result@.width == gol@.width,
                result@.height == gol@.height,
                x <= gol.dims.width,
                forall|i: int, j: int|
                    #![trigger result@.alive(i, j)]
                    result@.in_bounds(i, j) ==> result@.alive(i, j) == if i < x {
                        target.alive(i, j)
                    } else {
                        false
                    },
            decreases gol.dims.width - x,
        {
            let mut y: usize = 0;
            while y < gol.dims.height
                invariant
                    gol@.wf(),
                    target == gol@.step(),
                    result@.wf(),
                    result@.width == gol@.width,
                    result@.height == gol@.height,
                    x < gol.dims.width,
                    y <= gol.dims.height,
                    forall|i: int, j: int|
                        #![trigger result@.alive(i, j)]
                        result@.in_bounds(i, j) ==> result@.alive(i, j) == if i < x || (i == x && j
                            < y) {
                            target.alive(i, j)
                        } else {
                            false
                        },
                decreases gol.dims.height - y,
            {
                let pos = Position { x, y };
                let neighbors = match gol.get_neighbors_alive_count(pos) {
                    Ok(n) => n,
                    Err(msg) => return Err(msg),
                };
                let working_cell = match gol.get_cell_at(pos) {
                    Ok(val) => val,
                    Err(msg) => return Err(msg),
                };
                let ghost before = result@;
                assert(!before.alive(x as int, y as int));
                assert(target.alive(x as int, y as int) == next_alive(working_cell, neighbors as int));
                if neighbors < 2 {
                    proof {
                        lemma_set_then_get(before, x as int, y as int, false);
                    }
                    if let Err(msg) = result.set_cell_at(pos, false) {
                        return Err(msg);
                    }
                } else if (neighbors == 2 || neighbors == 3) && working_cell {
                    proof {
                        lemma_set_then_get(before, x as int, y as int, true);
                    }
                    if let Err(msg) = result.set_cell_at(pos, true) {
                        return Err(msg);
                    }
                } else if neighbors > 3 {
                    proof {
                        lemma_set_then_get(before, x as int, y as int, false);
                    }
                    if let Err(msg) = result.set_cell_at(pos, false) {
                        return Err(msg);
                    }
                } else if neighbors == 3 {
                    proof {
                        lemma_set_then_get(before, x as int, y as int, true);
                    }
                    if let Err(msg) = result.set_cell_at(pos, true) {
                        return Err(msg);
                    }
                }
                assert(result@.alive(x as int, y as int) == target.alive(x as int, y as int));
                assert forall|i: int, j: int|
                    result@.in_bounds(i, j) && !(i == x && j == y) implies #[trigger] result@.alive(
                    i,
                    j,
                ) == before.alive(i, j) by {
                    if i != x {
                        assert(result@.cells[i] == before.cells[i]);
                    }
                }
                y += 1;
            }
            x += 1;
        }
        assert forall|i: int| 0 <= i < target.width implies #[trigger] result@.cells[i]
            =~= target.cells[i] by {
            assert forall|j: int| 0 <= j < target.height implies result@.cells[i][j]
                == target.cells[i][j] by {
                assert(result@.alive(i, j) == target.alive(i, j));
            }
        }
        assert(result@.cells =~= target.cells);
        Ok(result)
    }
}

} // verus!
