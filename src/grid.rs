use vstd::prelude::*;
use crate::terrain::{TerrainData, TileView, tile_valid};

verus! {

/// The largest width or height that generation accepts.
pub const MAX_SIDE: usize = 4096;

/// `g` has `h` rows of `w` tiles each.
pub open spec fn grid_shaped(g: Seq<Vec<TerrainData>>, w: nat, h: nat) -> bool {
    &&& g.len() == h
    &&& forall|y: int| 0 <= y < h ==> (#[trigger] g[y])@.len() == w
}

/// Every tile of `g` is valid.
pub open spec fn grid_valid(g: Seq<Vec<TerrainData>>) -> bool {
    forall|y: int, x: int|
        0 <= y < g.len() && 0 <= x < g[y]@.len() ==> tile_valid((#[trigger] g[y]@[x])@)
}

/// The tile at column `x` and row `y`.
pub open spec fn tile_at(g: Seq<Vec<TerrainData>>, x: int, y: int) -> TileView {
    g[y]@[x]@
}

/// A grid of `h` rows of `w` copies of `tile`.
pub fn filled_grid(w: usize, h: usize, tile: &TerrainData) -> (g: Vec<Vec<TerrainData>>)
    ensures
        grid_shaped(g@, w as nat, h as nat),
        forall|y: int, x: int| 0 <= y < h && 0 <= x < w ==> tile_at(g@, x, y) == tile@,
{
    let mut g: Vec<Vec<TerrainData>> = Vec::new();
    let mut y: usize = 0;
    while y < h
        invariant
            y <= h,
            grid_shaped(g@, w as nat, y as nat),
            forall|j: int, x: int| 0 <= j < y && 0 <= x < w ==> tile_at(g@, x, j) == tile@,
        decreases h - y,
    {
        let mut row: Vec<TerrainData> = Vec::new();
        let mut x: usize = 0;
        while x < w
            invariant
                x <= w,
                row@.len() == x,
                forall|i: int| 0 <= i < x ==> (#[trigger] row@[i])@ == tile@,
            decreases w - x,
        {
            row.push(tile.duplicate());
            x = x + 1;
        }
        let ghost before = g@;
        let ghost last = row@;
        assert(forall|i: int| 0 <= i < w ==> (#[trigger] last[i])@ == tile@);
        g.push(row);
        assert forall|j: int, x: int| 0 <= j < y + 1 && 0 <= x < w implies tile_at(g@, x, j)
            == tile@ by {
            if j < y {
                assert(g@[j] == before[j]);
                assert(tile_at(before, x, j) == tile@);
            } else {
                assert(g@[j]@ == last);
                assert(last[x]@ == tile@);
            }
        }
        y = y + 1;
    }
    g
}

/// Replaces the tile at column `x` and row `y`, leaving the rest as it was.
pub fn set_tile(g: &mut Vec<Vec<TerrainData>>, x: usize, y: usize, t: TerrainData)
    requires
        y < old(g)@.len(),
        x < old(g)@[y as int]@.len(),
    ensures
        final(g)@.len() == old(g)@.len(),
        forall|j: int| 0 <= j < old(g)@.len() ==> (#[trigger] final(g)@[j])@.len() == old(g)@[j]@.len(),
        forall|j: int, i: int|
            0 <= j < old(g)@.len() && 0 <= i < old(g)@[j]@.len() && !(j == y && i == x)
                ==> (#[trigger] final(g)@[j]@[i]) == old(g)@[j]@[i],
        final(g)@[y as int]@[x as int]@ == t@,
{
    g[y][x] = t;
}

/// The tiles `[lo, hi)` of a line of `len` tiles that lie within `radius` of
/// `center`; `center` itself may lie outside the line.
pub fn clamped_span(center: usize, radius: usize, len: usize) -> (r: (usize, usize))
    ensures
        r.0 == if center >= radius { center - radius } else { 0 },
        r.1 == if center + radius + 1 <= len { center + radius + 1 } else { len as int },
        r.1 <= len,
{
    let lo = center.saturating_sub(radius);
    let reach = center.saturating_add(radius).saturating_add(1);
    let hi = if reach <= len { reach } else { len };
    (lo, hi)
}

} // verus!
