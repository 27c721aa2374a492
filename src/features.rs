use vstd::prelude::*;
use crate::random::{RandomSource, CHANCE_SCALE};
use crate::terrain::{Gear, TerrainData, TerrainType, TileView, flat_view, climb_view, tile_valid, copy_gear};
use crate::grid::{grid_shaped, grid_valid, tile_at, set_tile, clamped_span, MAX_SIDE};

verus! {

/// What one overlay writes on a tile.
#[derive(Clone, Copy, Debug, PartialEq, Eq, Structural)]
pub enum Feature {
    /// The core of a glacier.
    GlacierCore,
    /// The ring of ice round a glacier's core.
    IceRing,
    /// A lava field on a mountain.
    LavaField,
    /// A lava flow on a volcano.
    LavaFlow,
    /// A rocky cliff on a mountain's coast.
    CoastalCliff,
    /// A crag.
    RockFormation,
    /// A sea cliff; it keeps the gear that the tile asked for.
    SeaCliff,
    /// The flank of a volcanic peak; it keeps the gear that the tile asked for.
    VolcanicPeak,
}

/// The tile that `f` makes of `old`, for the rolls `a` and `b` in thousandths.
pub open spec fn feature_view(f: Feature, old: TileView, a: int, b: int) -> TileView {
    match f {
        Feature::GlacierCore => climb_view(
            TerrainType::Glacier,
            900,
            400,
            4500,
            seq![Gear::IceAxe, Gear::Crampons],
        ),
        Feature::IceRing => climb_view(TerrainType::Ice, 700, 500, 3000, seq![Gear::IceAxe]),
        Feature::LavaField => flat_view(TerrainType::Lava, 300, 200),
        Feature::LavaFlow => flat_view(TerrainType::Lava, 100, 300),
        Feature::CoastalCliff => climb_view(TerrainType::Rock, 800, 900, 2500, seq![Gear::ClimbingGear]),
        Feature::RockFormation => climb_view(
            TerrainType::Rock,
            (600 + a * 3 / 10) as nat,
            800,
            (2000 + b * 2) as nat,
            seq![Gear::Rope],
        ),
        Feature::SeaCliff => climb_view(TerrainType::Rock, 800, 500, (6000 + a * 3) as nat, old.gear),
        Feature::VolcanicPeak => climb_view(TerrainType::Rock, 800, 400, (7000 + a * 3) as nat, old.gear),
    }
}

/// The tile that `f` makes of `old` for the rolls `a` and `b`.
pub fn feature_tile(f: Feature, old: &TerrainData, a: u32, b: u32) -> (r: TerrainData)
    requires
        a < CHANCE_SCALE,
        b < CHANCE_SCALE,
    ensures
        r@ == feature_view(f, old@, a as int, b as int),
        tile_valid(r@),
{
    match f {
        Feature::GlacierCore => {
            let r = TerrainData::climb(
                TerrainType::Glacier,
                900,
                400,
                4500,
                vec![Gear::IceAxe, Gear::Crampons],
            );
            assert(r@.gear =~= seq![Gear::IceAxe, Gear::Crampons]);
            r
        },
        Feature::IceRing => {
            let r = TerrainData::climb(TerrainType::Ice, 700, 500, 3000, vec![Gear::IceAxe]);
            assert(r@.gear =~= seq![Gear::IceAxe]);
            r
        },
        Feature::LavaField => TerrainData::flat(TerrainType::Lava, 300, 200),
        Feature::LavaFlow => TerrainData::flat(TerrainType::Lava, 100, 300),
        Feature::CoastalCliff => {
            let r = TerrainData::climb(TerrainType::Rock, 800, 900, 2500, vec![Gear::ClimbingGear]);
            assert(r@.gear =~= seq![Gear::ClimbingGear]);
            r
        },
        Feature::RockFormation => {
            let r = TerrainData::climb(TerrainType::Rock, 600 + a * 3 / 10, 800, 2000 + b * 2, vec![Gear::Rope]);
            assert(r@.gear =~= seq![Gear::Rope]);
            r
        },
        Feature::SeaCliff => TerrainData::climb(
            TerrainType::Rock,
            800,
            500,
            6000 + a * 3,
            copy_gear(&old.required_gear),
        ),
        Feature::VolcanicPeak => TerrainData::climb(
            TerrainType::Rock,
            800,
            400,
            7000 + a * 3,
            copy_gear(&old.required_gear),
        ),
    }
}

/// The shape of one overlay region.
#[derive(Clone, Copy, Debug, PartialEq, Eq, Structural)]
pub enum Region {
    /// The tiles whose squared distance from `(cx, cy)`, times `den`, is
    /// below `radius * radius * num`: a disc of radius `radius * sqrt(num / den)`.
    Disc { cx: usize, cy: usize, radius: usize, num: u64, den: u64 },
    /// The tiles of columns `[x0, x0 + rw)` and rows `[y0, y0 + rh)`.
    Rect { x0: usize, y0: usize, rw: usize, rh: usize },
}

/// The region is usable: a disc shrinks its radius, if anything.
pub open spec fn region_valid(r: Region) -> bool {
    match r {
        Region::Disc { cx, cy, radius, num, den } => 0 < den && num <= den && num <= 0x1_0000 && den
            <= 0x1_0000 && radius <= MAX_SIDE,
        Region::Rect { .. } => true,
    }
}

/// The squared distance between two tiles.
pub open spec fn dist2(x: int, y: int, cx: int, cy: int) -> int {
    (x - cx) * (x - cx) + (y - cy) * (y - cy)
}

/// Tile `(x, y)` lies in the region.
pub open spec fn in_region(r: Region, x: int, y: int) -> bool {
    match r {
        Region::Disc { cx, cy, radius, num, den } => dist2(x, y, cx as int, cy as int) * den < radius
            * radius * num,
        Region::Rect { x0, y0, rw, rh } => x0 <= x < x0 + rw && y0 <= y < y0 + rh,
    }
}

/// Whether tile `(x, y)` lies in the region.
pub fn region_contains(r: Region, x: usize, y: usize) -> (b: bool)
    requires
        region_valid(r),
        x < MAX_SIDE,
        y < MAX_SIDE,
    ensures
        b == in_region(r, x as int, y as int),
{
    match r {
        Region::Disc { cx, cy, radius, num, den } => {
            let gx = if x >= cx { x - cx } else { cx - x };
            let gy = if y >= cy { y - cy } else { cy - y };
            if gx >= radius || gy >= radius {
                assert(dist2(x as int, y as int, cx as int, cy as int) * den >= radius * radius
                    * num) by (nonlinear_arith)
                    requires
                        gx >= radius || gy >= radius,
                        gx == if x >= cx { x - cx } else { cx - x },
                        gy == if y >= cy { y - cy } else { cy - y },
                        num <= den,
                ;
                false
            } else {
                assert(gx * gx <= MAX_SIDE * MAX_SIDE) by (nonlinear_arith)
                    requires
                        gx < radius <= MAX_SIDE,
                ;
                assert(gy * gy <= MAX_SIDE * MAX_SIDE) by (nonlinear_arith)
                    requires
                        gy < radius <= MAX_SIDE,
                ;
                let d2 = (gx as u64) * (gx as u64) + (gy as u64) * (gy as u64);
                assert(d2 * den <= 2 * MAX_SIDE * MAX_SIDE * 0x1_0000) by (nonlinear_arith)
                    requires
                        d2 <= 2 * MAX_SIDE * MAX_SIDE,
                        den <= 0x1_0000,
                ;
                assert(radius * radius <= MAX_SIDE * MAX_SIDE) by (nonlinear_arith)
                    requires
                        radius <= MAX_SIDE,
                ;
                assert(radius * radius * num <= MAX_SIDE * MAX_SIDE * 0x1_0000) by (nonlinear_arith)
                    requires
                        radius <= MAX_SIDE,
                        num <= 0x1_0000,
                ;
                assert(d2 == dist2(x as int, y as int, cx as int, cy as int)) by (nonlinear_arith)
                    requires
                        gx == if x >= cx { x - cx } else { cx - x },
                        gy == if y >= cy { y - cy } else { cy - y },
                        d2 == gx * gx + gy * gy,
                ;
                d2 * den < (radius as u64) * (radius as u64) * num
            }
        },
        Region::Rect { x0, y0, rw, rh } => {
            x0 <= x && x - x0 < rw && y0 <= y && y - y0 < rh
        },
    }
}

/// The tiles `[lo, hi)` of a line of `len` tiles that lie within `radius`
/// of `center`, with `lo` pulled down to `hi` where the span misses the line.
pub open spec fn span(center: int, radius: int, len: int) -> (int, int) {
    let hi = if center + radius + 1 <= len { center + radius + 1 } else { len };
    let lo = if center >= radius { center - radius } else { 0 };
    (if lo <= hi { lo } else { hi }, hi)
}

/// The box `(x_lo, x_hi, y_lo, y_hi)` of a `w` by `h` grid that an overlay
/// of the region visits.
pub open spec fn region_box(r: Region, w: int, h: int) -> (int, int, int, int) {
    match r {
        Region::Disc { cx, cy, radius, .. } => {
            let xs = span(cx as int, radius as int, w);
            let ys = span(cy as int, radius as int, h);
            (xs.0, xs.1, ys.0, ys.1)
        },
        Region::Rect { x0, y0, rw, rh } => {
            let x_lo = if x0 < w { x0 as int } else { w };
            let x_hi = if x0 < w { if x0 + rw <= w { x0 + rw } else { w } } else { w };
            let y_lo = if y0 < h { y0 as int } else { h };
            let y_hi = if y0 < h { if y0 + rh <= h { y0 + rh } else { h } } else { h };
            (x_lo, x_hi, y_lo, y_hi)
        },
    }
}

/// Region placement stays on the grid: for a grid of any size, and a region
/// anywhere, even off the grid, the box that an overlay visits lies within
/// the grid and holds every tile of the grid that the region covers.
pub proof fn lemma_region_box_on_grid(r: Region, w: nat, h: nat)
    requires
        region_valid(r),
    ensures
        0 <= region_box(r, w as int, h as int).0 <= region_box(r, w as int, h as int).1 <= w,
        0 <= region_box(r, w as int, h as int).2 <= region_box(r, w as int, h as int).3 <= h,
        forall|x: int, y: int|
            0 <= x < w && 0 <= y < h && #[trigger] in_region(r, x, y) ==> region_box(r, w as int, h as int).0
                <= x < region_box(r, w as int, h as int).1 && region_box(r, w as int, h as int).2 <= y
                < region_box(r, w as int, h as int).3,
{
    match r {
        Region::Disc { cx, cy, radius, num, den } => {
            assert forall|x: int, y: int| 0 <= x < w && 0 <= y < h && #[trigger] in_region(r, x, y) implies region_box(
                r,
                w as int,
                h as int,
            ).0 <= x < region_box(r, w as int, h as int).1 && region_box(r, w as int, h as int).2 <= y
                < region_box(r, w as int, h as int).3 by {
                assert((x - cx) * (x - cx) < radius * radius && (y - cy) * (y - cy) < radius * radius)
                    by (nonlinear_arith)
                    requires
                        dist2(x, y, cx as int, cy as int) * den < radius * radius * num,
                        num <= den,
                        0 < den,
                ;
                assert(cx - radius < x < cx + radius) by (nonlinear_arith)
                    requires
                        (x - cx) * (x - cx) < radius * radius,
                        radius >= 0,
                ;
                assert(cy - radius < y < cy + radius) by (nonlinear_arith)
                    requires
                        (y - cy) * (y - cy) < radius * radius,
                        radius >= 0,
                ;
            }
        },
        Region::Rect { .. } => {},
    }
}

/// The box `[x_lo, x_hi) x [y_lo, y_hi)` of a `w` by `h` grid that holds
/// every tile of the grid that lies in the region.
pub fn region_bounds(r: Region, w: usize, h: usize) -> (b: (usize, usize, usize, usize))
    requires
        region_valid(r),
    ensures
        (b.0 as int, b.1 as int, b.2 as int, b.3 as int) == region_box(r, w as int, h as int),
        b.0 <= b.1 <= w,
        b.2 <= b.3 <= h,
        forall|x: int, y: int|
            0 <= x < w && 0 <= y < h && #[trigger] in_region(r, x, y) ==> b.0 <= x < b.1 && b.2 <= y < b.3,
{
    proof {
        lemma_region_box_on_grid(r, w as nat, h as nat);
    }
    match r {
        Region::Disc { cx, cy, radius, .. } => {
            let xs = clamped_span(cx, radius, w);
            let ys = clamped_span(cy, radius, h);
            let x_lo = if xs.0 <= xs.1 { xs.0 } else { xs.1 };
            let y_lo = if ys.0 <= ys.1 { ys.0 } else { ys.1 };
            (x_lo, xs.1, y_lo, ys.1)
        },
        Region::Rect { x0, y0, rw, rh } => {
            let x_hi = if x0 < w { if rw <= w - x0 { x0 + rw } else { w } } else { w };
            let x_lo = if x0 < w { x0 } else { w };
            let y_hi = if y0 < h { if rh <= h - y0 { y0 + rh } else { h } } else { h };
            let y_lo = if y0 < h { y0 } else { h };
            (x_lo, x_hi, y_lo, y_hi)
        },
    }
}

/// `new` is what an overlay of `f` that fills each tile of its region with
/// chance `fill` (in thousandths) can leave of the tile `old`: the tile as it
/// was, unless the fill is certain; or the feature's tile, unless the fill is
/// zero.
pub open spec fn stamped(f: Feature, fill: int, old: TileView, new: TileView) -> bool {
    ||| (new == old && fill < CHANCE_SCALE)
    ||| (fill > 0 && exists|a: int, b: int|
        0 <= a < CHANCE_SCALE && 0 <= b < CHANCE_SCALE && new == #[trigger] feature_view(f, old, a, b))
}

/// What an overlay leaves at `(x, y)`: in its region a stamped tile, elsewhere
/// the tile as it was.
pub open spec fn overlaid(
    r: Region,
    f: Feature,
    fill: int,
    before: Seq<Vec<TerrainData>>,
    after: Seq<Vec<TerrainData>>,
    x: int,
    y: int,
) -> bool {
    if in_region(r, x, y) {
        stamped(f, fill, tile_at(before, x, y), tile_at(after, x, y))
    } else {
        tile_at(after, x, y) == tile_at(before, x, y)
    }
}

/// Overlays the feature `f` on the region `r` of the grid: each tile of the
/// grid that lies in the region takes the feature's tile with chance `fill`
/// in thousandths. Tiles of the region that lie outside the grid are skipped.
pub fn stamp(
    g: &mut Vec<Vec<TerrainData>>,
    w: usize,
    h: usize,
    r: Region,
    f: Feature,
    fill: u64,
    rng: &mut RandomSource,
)
    requires
        grid_shaped(old(g)@, w as nat, h as nat),
        grid_valid(old(g)@),
        w <= MAX_SIDE,
        h <= MAX_SIDE,
        region_valid(r),
    ensures
        grid_shaped(final(g)@, w as nat, h as nat),
        grid_valid(final(g)@),
        forall|x: int, y: int|
            0 <= x < w && 0 <= y < h ==> #[trigger] overlaid(r, f, fill as int, old(g)@, final(g)@, x, y),
{
    let ghost start = g@;
    let b = region_bounds(r, w, h);
    let (x_lo, x_hi, y_lo, y_hi) = b;
    let mut y: usize = y_lo;
    while y < y_hi
        invariant
            y_lo <= y <= y_hi <= h <= MAX_SIDE,
            x_lo <= x_hi <= w <= MAX_SIDE,
            region_valid(r),
            grid_shaped(start, w as nat, h as nat),
            grid_shaped(g@, w as nat, h as nat),
            grid_valid(g@),
            forall|i: int, j: int|
                0 <= i < w && 0 <= j < h && !(y_lo <= j < y && x_lo <= i < x_hi) ==> #[trigger] tile_at(g@, i, j)
                    == tile_at(start, i, j),
            forall|i: int, j: int|
                y_lo <= j < y && x_lo <= i < x_hi ==> #[trigger] overlaid(r, f, fill as int, start, g@, i, j),
        decreases y_hi - y,
    {
        let mut x: usize = x_lo;
        while x < x_hi
            invariant
                y_lo <= y < y_hi <= h <= MAX_SIDE,
                x_lo <= x <= x_hi <= w <= MAX_SIDE,
                region_valid(r),
                grid_shaped(start, w as nat, h as nat),
                grid_shaped(g@, w as nat, h as nat),
                grid_valid(g@),
                forall|i: int, j: int|
                    0 <= i < w && 0 <= j < h && !((y_lo <= j < y && x_lo <= i < x_hi) || (j == y && x_lo <= i < x))
                        ==> #[trigger] tile_at(g@, i, j) == tile_at(start, i, j),
                forall|i: int, j: int|
                    (y_lo <= j < y && x_lo <= i < x_hi) || (j == y && x_lo <= i < x) ==> #[trigger] overlaid(
                        r,
                        f,
                        fill as int,
                        start,
                        g@,
                        i,
                        j,
                    ),
            decreases x_hi - x,
        {
            assert(tile_at(g@, x as int, y as int) == tile_at(start, x as int, y as int));
            if region_contains(r, x, y) && rng.chance(fill) {
                let a = rng.roll();
                let c = rng.roll();
                let t = feature_tile(f, &g[y][x], a, c);
                let ghost mid = g@;
                set_tile(g, x, y, t);
                assert(feature_view(f, tile_at(start, x as int, y as int), a as int, c as int) == t@);
                assert(overlaid(r, f, fill as int, start, g@, x as int, y as int));
                assert forall|i: int, j: int|
                    0 <= i < w && 0 <= j < h && !(i == x && j == y) implies #[trigger] tile_at(g@, i, j)
                    == tile_at(mid, i, j) by {
                    assert(g@[j]@[i] == mid[j]@[i]);
                }
                assert forall|j: int, i: int|
                    0 <= j < g@.len() && 0 <= i < g@[j]@.len() implies tile_valid(
                    (#[trigger] g@[j]@[i])@,
                ) by {
                    if !(i == x && j == y) {
                        assert(tile_at(g@, i, j) == tile_at(mid, i, j));
                    }
                }
                assert forall|i: int, j: int|
                    (y_lo <= j < y && x_lo <= i < x_hi) || (j == y && x_lo <= i < x + 1) implies #[trigger] overlaid(
                    r,
                    f,
                    fill as int,
                    start,
                    g@,
                    i,
                    j,
                ) by {
                    if !(i == x && j == y) {
                        assert(tile_at(g@, i, j) == tile_at(mid, i, j));
                        assert(overlaid(r, f, fill as int, start, mid, i, j));
                    }
                }
            } else {
                assert(overlaid(r, f, fill as int, start, g@, x as int, y as int));
            }
            x = x + 1;
        }
        y = y + 1;
    }
    assert forall|x: int, y: int|
        0 <= x < w && 0 <= y < h implies #[trigger] overlaid(r, f, fill as int, start, g@, x, y) by {
        if !(y_lo <= y < y_hi && x_lo <= x < x_hi) {
            assert(tile_at(g@, x, y) == tile_at(start, x, y));
            assert(!in_region(r, x, y));
        }
    }
}

} // verus!
