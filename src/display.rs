use vstd::prelude::*;

use crate::board::Board;
use crate::gol::GoL;
use crate::pos::{Dimensions, Position};

verus! {

/// `n` space characters.
pub open spec fn spaces(n: nat) -> Seq<char> {
    Seq::new(n, |i: int| ' ')
}

/// `n` rows that each hold a single newline marker.
pub open spec fn marker_rows(n: nat) -> Seq<Seq<char>> {
    Seq::new(n, |i: int| seq!['\n'])
}

/// How a cell is drawn: `'1'` when alive, a space when dead.
pub open spec fn cell_char(alive: bool) -> char {
    if alive {
        '1'
    } else {
        ' '
    }
}

/// The padding put on each side along an axis: half of what the window
/// exceeds the grid by, rounded down, and none when the window is not larger.
pub open spec fn side_padding(window: int, grid: int) -> nat {
    if window > grid {
        ((window - grid) / 2) as nat
    } else {
        0
    }
}

/// How many grid lines along an axis a window starting at `origin` covers.
pub open spec fn covered(origin: int, window: int, grid: int) -> nat {
    if origin >= grid {
        0
    } else if window < grid - origin {
        window as nat
    } else {
        (grid - origin) as nat
    }
}

/// A window fails when, along an axis where it is not larger than the grid,
/// it reaches past the grid's edge.
pub open spec fn viewport_fails(b: Board, origin: Position, window: Dimensions) -> bool {
    ||| window.width <= b.width && origin.x + window.width > b.width
    ||| window.height <= b.height && origin.y + window.height > b.height
}

/// The text of grid row `y`: the left padding, the covered cells, and the
/// right padding when the window is wider than what it covers.
pub open spec fn viewport_row(b: Board, origin: Position, window: Dimensions, y: int) -> Seq<char> {
    let pad = spaces(side_padding(window.width as int, b.width as int));
    let cols = covered(origin.x as int, window.width as int, b.width as int);
    pad + Seq::new(cols, |i: int| cell_char(b.alive(origin.x + i, y))) + if cols < window.width {
        pad
    } else {
        Seq::empty()
    }
}

/// The rows of a window onto the board: the top newline markers, one row per
/// covered grid row from the top down, and the bottom newline markers when
/// the window is taller than what it covers.
pub open spec fn viewport_rows(b: Board, origin: Position, window: Dimensions) -> Seq<Seq<char>> {
    let markers = marker_rows(side_padding(window.height as int, b.height as int));
    let rows = covered(origin.y as int, window.height as int, b.height as int);
    markers + Seq::new(rows, |i: int| viewport_row(b, origin, window, origin.y + i)) + if rows
        < window.height {
        markers
    } else {
        Seq::empty()
    }
}

/// The message of the error for a window that reaches past the grid.
pub open spec fn viewport_message() -> Seq<char> {
    "Viewport out of bounds"@
}

/// Extracting a window depends on the board and the window alone: two
/// extractions with the same arguments agree, in failure and in rows.
pub proof fn lemma_viewport_deterministic(b1: Board, b2: Board, origin: Position, window: Dimensions)
    requires
        b1 == b2,
    ensures
        viewport_fails(b1, origin, window) == viewport_fails(b2, origin, window),
        viewport_rows(b1, origin, window) == viewport_rows(b2, origin, window),
{
}

fn make_spaces(n: usize) -> (r: String)
    ensures
        r@ == spaces(n as nat),
{
    let mut r = String::new();
    let mut i: usize = 0;
    while i < n
        invariant
            i <= n,
            r@ == spaces(i as nat),
        decreases n - i,
    {
        proof {
            reveal_strlit(" ");
        }
        r.append(" ");
        i += 1;
        assert(r@ =~= spaces(i as nat));
    }
    r
}

fn push_markers(rows: &mut Vec<String>, n: usize)
    ensures
        final(rows)@.map_values(|s: String| s@) == old(rows)@.map_values(|s: String| s@)
            + marker_rows(n as nat),
{
    let ghost start = rows@.map_values(|s: String| s@);
    let mut i: usize = 0;
    while i < n
        invariant
            i <= n,
            rows@.map_values(|s: String| s@) == start + marker_rows(i as nat),
        decreases n - i,
    {
        proof {
            reveal_strlit("\n");
        }
        let marker = String::from_str("\n");
        assert(marker@ =~= seq!['\n']);
        let ghost prev = rows@;
        rows.push(marker);
        assert(rows@ == prev.push(marker));
        assert(rows@.map_values(|s: String| s@) =~= prev.map_values(|s: String| s@).push(seq!['\n']));
        i += 1;
        assert(rows@.map_values(|s: String| s@) =~= start + marker_rows(i as nat));
    }
}

/// Renders the window at `v_pos` of extent `v_dims` onto `gol` as rows of
/// text. Along an axis where the window is larger than the grid the content
/// is padded instead of checked; along another, a window that reaches past
/// the grid's edge is an error.
pub fn get_viewport_data(v_pos: Position, v_dims: Dimensions, gol: &GoL) -> (r: Result<
    Vec<String>,
    String,
>)
    requires
        gol@.wf(),
    ensures
        r is Err <==> viewport_fails(gol@, v_pos, v_dims),
        r matches Ok(rows) ==> rows@.map_values(|s: String| s@) == viewport_rows(
            gol@,
            v_pos,
            v_dims,
        ),
        r matches Err(msg) ==> msg@ == viewport_message(),
{
    let dims = gol.dims();
    let (gw, gh) = (dims.width, dims.height);
    if (v_dims.width <= gw && v_pos.x > gw - v_dims.width) || (v_dims.height <= gh && v_pos.y > gh
        - v_dims.height) {
        return Err(String::from_str("Viewport out of bounds"));
    }
    let lpad: usize = if v_dims.width > gw {
        (v_dims.width - gw) / 2
    } else {
        0
    };
    let tpad: usize = if v_dims.height > gh {
        (v_dims.height - gh) / 2
    } else {
        0
    };
    let cols: usize = if v_pos.x >= gw {
        0
    } else if v_dims.width < gw - v_pos.x {
        v_dims.width
    } else {
        gw - v_pos.x
    };
    let rows: usize = if v_pos.y >= gh {
        0
    } else if v_dims.height < gh - v_pos.y {
        v_dims.height
    } else {
        gh - v_pos.y
    };
    let ghost b = gol@;
    let ghost markers = marker_rows(tpad as nat);

    let mut result: Vec<String> = Vec::new();
    push_markers(&mut result, tpad);
    assert(result@.map_values(|s: String| s@) =~= markers);
    let padding = make_spaces(lpad);

    let mut y: usize = 0;
    while y < rows
        invariant
            gol@ == b,
            b.wf(),
            b.width == gw,
            b.height == gh,
            y <= rows,
            rows == covered(v_pos.y as int, v_dims.height as int, gh as int),
            cols == covered(v_pos.x as int, v_dims.width as int, gw as int),
            padding@ == spaces(side_padding(v_dims.width as int, gw as int)),
            result@.map_values(|s: String| s@) == markers + Seq::new(
                y as nat,
                |i: int| viewport_row(b, v_pos, v_dims, v_pos.y + i),
            ),
        decreases rows - y,
    {
        let mut row = padding.clone();
        let mut x: usize = 0;
        while x < cols
            invariant
                gol@ == b,
                b.wf(),
                b.width == gw,
                b.height == gh,
                y < rows,
                x <= cols,
                rows == covered(v_pos.y as int, v_dims.height as int, gh as int),
                cols == covered(v_pos.x as int, v_dims.width as int, gw as int),
                row@ == padding@ + Seq::new(
                    x as nat,
                    |i: int| cell_char(b.alive(v_pos.x + i, v_pos.y + y)),
                ),
            decreases cols - x,
        {
            let alive = match gol.get_cell_at(Position { x: v_pos.x + x, y: v_pos.y + y }) {
                Ok(val) => val,
                Err(_) => false,
            };
            proof {
                reveal_strlit("1");
                reveal_strlit(" ");
            }
            if alive {
                row.append("1");
            } else {
                row.append(" ");
            }
            x += 1;
            assert(row@ =~= padding@ + Seq::new(
                x as nat,
                |i: int| cell_char(b.alive(v_pos.x + i, v_pos.y + y)),
            ));
        }
        if cols < v_dims.width {
            row.append(padding.as_str());
        }
        assert(row@ =~= viewport_row(b, v_pos, v_dims, v_pos.y + y));
        let ghost prev = result@;
        let ghost row_text = row@;
        result.push(row);
        assert(result@.map_values(|s: String| s@) =~= prev.map_values(|s: String| s@).push(row_text));
        y += 1;
        assert(result@.map_values(|s: String| s@) =~= markers + Seq::new(
            y as nat,
            |i: int| viewport_row(b, v_pos, v_dims, v_pos.y + i),
        ));
    }
    if rows < v_dims.height {
        push_markers(&mut result, tpad);
    }
    assert(result@.map_values(|s: String| s@) =~= viewport_rows(b, v_pos, v_dims));
    Ok(result)
}

} // verus!
