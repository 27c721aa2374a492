use vstd::prelude::*;
use crate::random::{RandomSource, CHANCE_SCALE};
use crate::terrain::{TerrainData, TileView};
use crate::grid::{grid_shaped, grid_valid, tile_at, MAX_SIDE};
use crate::features::{Feature, Region, feature_view, overlaid, stamp, stamped, in_region, dist2};
use crate::elevation::gap;
use crate::terrain::{TerrainType, Gear, climb_view};
use crate::classify::Theme;

verus! {

/// One named overlay step of a theme's pipeline.
#[derive(Clone, Copy, Debug, PartialEq, Eq, Structural)]
pub enum Pass {
    /// A glacier round the summit: a ring of ice and a core of glacier.
    Glacier,
    /// Four lava fields, towards the south.
    LavaFields,
    /// Rocky cliffs along the southern fifth.
    CoastalCliffs,
    /// Eight crags, out of the southern third.
    RockFormations,
    /// Three to five sea cliffs rising from the southern edge.
    SeaCliffs,
    /// Two or three volcanic peaks.
    VolcanicPeaks,
    /// Four to six rectangular lava flows.
    LavaFlows,
}

/// The passes of a theme, in the order in which they run.
pub open spec fn theme_passes(theme: Theme) -> Seq<Pass> {
    match theme {
        Theme::Mountain => seq![Pass::Glacier, Pass::LavaFields, Pass::CoastalCliffs, Pass::RockFormations],
        Theme::Coastal => seq![Pass::SeaCliffs, Pass::RockFormations],
        Theme::Volcanic => seq![Pass::VolcanicPeaks, Pass::LavaFlows],
    }
}

/// The passes of a theme, in the order in which they run.
pub fn passes_of(theme: Theme) -> (r: Vec<Pass>)
    ensures
        r@ == theme_passes(theme),
{
    let r = match theme {
        Theme::Mountain => vec![Pass::Glacier, Pass::LavaFields, Pass::CoastalCliffs, Pass::RockFormations],
        Theme::Coastal => vec![Pass::SeaCliffs, Pass::RockFormations],
        Theme::Volcanic => vec![Pass::VolcanicPeaks, Pass::LavaFlows],
    };
    assert(r@ =~= theme_passes(theme));
    r
}

/// The features that a pass writes.
pub open spec fn pass_writes(p: Pass, f: Feature) -> bool {
    match p {
        Pass::Glacier => f == Feature::IceRing || f == Feature::GlacierCore,
        Pass::LavaFields => f == Feature::LavaField,
        Pass::CoastalCliffs => f == Feature::CoastalCliff,
        Pass::RockFormations => f == Feature::RockFormation,
        Pass::SeaCliffs => f == Feature::SeaCliff,
        Pass::VolcanicPeaks => f == Feature::VolcanicPeak,
        Pass::LavaFlows => f == Feature::LavaFlow,
    }
}

/// `t` is a tile that the pass can write.
pub open spec fn pass_mark(p: Pass, t: TileView) -> bool {
    exists|f: Feature, o: TileView, a: int, b: int|
        pass_writes(p, f) && 0 <= a < CHANCE_SCALE && 0 <= b < CHANCE_SCALE && t == #[trigger] feature_view(
            f,
            o,
            a,
            b,
        )
}

/// Every tile of `after` is the tile of `before`, or one that the pass writes.
pub open spec fn pass_result(p: Pass, before: Seq<Vec<TerrainData>>, after: Seq<Vec<TerrainData>>, w: nat, h: nat) -> bool {
    forall|x: int, y: int|
        0 <= x < w && 0 <= y < h ==> #[trigger] tile_at(after, x, y) == tile_at(before, x, y) || pass_mark(
            p,
            tile_at(after, x, y),
        )
}

/// The disc of the glacier on a `w` by `h` map: round the summit, with a
/// radius of an eighth of the shorter side.
pub open spec fn glacier_ring(w: int, h: int) -> Region {
    Region::Disc {
        cx: (w * 3 / 4) as usize,
        cy: (h / 6) as usize,
        radius: (if w < h { w / 8 } else { h / 8 }) as usize,
        num: 1,
        den: 1,
    }
}

/// The core of the glacier: the part of its disc within 0.6 of its radius.
pub open spec fn glacier_core(w: int, h: int) -> Region {
    Region::Disc {
        cx: (w * 3 / 4) as usize,
        cy: (h / 6) as usize,
        radius: (if w < h { w / 8 } else { h / 8 }) as usize,
        num: 9,
        den: 25,
    }
}

/// The tile of a glacier's core.
pub open spec fn glacier_view() -> TileView {
    climb_view(TerrainType::Glacier, 900, 400, 4500, seq![Gear::IceAxe, Gear::Crampons])
}

/// The tile of a glacier's ring of ice.
pub open spec fn ice_ring_view() -> TileView {
    climb_view(TerrainType::Ice, 700, 500, 3000, seq![Gear::IceAxe])
}

/// Tile `(x, y)` of a `w` by `h` map lies beyond every region that the pass
/// can place: outside the glacier's disc; north of the reach of the lava
/// fields, whose centres lie in the southern two thirds and whose radius is
/// below 35; north of the coastal band; south of the reach of the crags,
/// whose centres lie in the northern two thirds and whose radius is below 20;
/// west of the sea cliffs or north of their reach of under 80 rows; within 16
/// tiles of the west or north edge for the volcanic peaks, whose centres lie
/// 40 tiles or more from those edges and whose radius is below 25.
pub open spec fn untouched(p: Pass, w: int, h: int, x: int, y: int) -> bool {
    match p {
        Pass::Glacier => !in_region(glacier_ring(w, h), x, y),
        Pass::LavaFields => y + 35 <= h / 3,
        Pass::CoastalCliffs => y < h * 4 / 5,
        Pass::RockFormations => y >= h * 2 / 3 + 20,
        Pass::SeaCliffs => x < w / 3 || y + 80 <= h,
        Pass::VolcanicPeaks => x < 16 || y < 16,
        Pass::LavaFlows => false,
    }
}

/// Every tile of `after` that the pass leaves alone is the tile of `before`.
pub open spec fn frame_kept(p: Pass, before: Seq<Vec<TerrainData>>, after: Seq<Vec<TerrainData>>, w: int, h: int) -> bool {
    forall|x: int, y: int|
        0 <= x < w && 0 <= y < h && untouched(p, w, h, x, y) ==> #[trigger] tile_at(after, x, y) == tile_at(
            before,
            x,
            y,
        )
}

/// A tile at least `radius` away from the centre along one axis lies outside
/// the disc.
proof fn lemma_outside_disc(x: int, y: int, cx: int, cy: int, radius: int)
    requires
        radius >= 0,
        gap(x, cx) >= radius || gap(y, cy) >= radius,
    ensures
        !(dist2(x, y, cx, cy) * 1 < radius * radius * 1),
{
    assert(dist2(x, y, cx, cy) >= radius * radius) by (nonlinear_arith)
        requires
            radius >= 0,
            gap(x, cx) >= radius || gap(y, cy) >= radius,
            gap(x, cx) == if x >= cx { x - cx } else { cx - x },
            gap(y, cy) == if y >= cy { y - cy } else { cy - y },
            dist2(x, y, cx, cy) == (x - cx) * (x - cx) + (y - cy) * (y - cy),
    ;
}

/// The glacier's core lies within its disc.
proof fn lemma_core_in_ring(w: int, h: int, x: int, y: int)
    requires
        in_region(glacier_core(w, h), x, y),
    ensures
        in_region(glacier_ring(w, h), x, y),
{
    let r = (if w < h { w / 8 } else { h / 8 }) as usize;
    let d = dist2(x, y, (w * 3 / 4) as usize as int, (h / 6) as usize as int);
    assert(d * 1 < r * r * 1) by (nonlinear_arith)
        requires
            d * 25 < r * r * 9,
    ;
}

/// The class of a tile that a pass writes.
pub proof fn lemma_mark_kind(p: Pass, t: TileView)
    requires
        pass_mark(p, t),
    ensures
        p == Pass::Glacier ==> t.kind == TerrainType::Glacier || t.kind == TerrainType::Ice,
        p == Pass::LavaFields || p == Pass::LavaFlows ==> t.kind == TerrainType::Lava,
        p == Pass::CoastalCliffs || p == Pass::RockFormations || p == Pass::SeaCliffs || p == Pass::VolcanicPeaks
            ==> t.kind == TerrainType::Rock,
{
    let (f, o, a, b) = choose|f: Feature, o: TileView, a: int, b: int|
        pass_writes(p, f) && 0 <= a < CHANCE_SCALE && 0 <= b < CHANCE_SCALE && t == #[trigger] feature_view(
            f,
            o,
            a,
            b,
        );
    assert(t == feature_view(f, o, a, b));
}

/// One overlay of a pass keeps the pass's account of every tile.
fn stamp_for(
    g: &mut Vec<Vec<TerrainData>>,
    w: usize,
    h: usize,
    r: Region,
    p: Pass,
    f: Feature,
    fill: u64,
    rng: &mut RandomSource,
    Ghost(start): Ghost<Seq<Vec<TerrainData>>>,
)
    requires
        grid_shaped(old(g)@, w as nat, h as nat),
        grid_valid(old(g)@),
        w <= MAX_SIDE,
        h <= MAX_SIDE,
        crate::features::region_valid(r),
        pass_writes(p, f),
        pass_result(p, start, old(g)@, w as nat, h as nat),
        frame_kept(p, start, old(g)@, w as int, h as int),
        forall|x: int, y: int|
            0 <= x < w && 0 <= y < h && untouched(p, w as int, h as int, x, y) ==> !#[trigger] in_region(r, x, y),
    ensures
        grid_shaped(final(g)@, w as nat, h as nat),
        grid_valid(final(g)@),
        pass_result(p, start, final(g)@, w as nat, h as nat),
        frame_kept(p, start, final(g)@, w as int, h as int),
        forall|x: int, y: int|
            0 <= x < w && 0 <= y < h ==> #[trigger] overlaid(r, f, fill as int, old(g)@, final(g)@, x, y),
{
    let ghost before = g@;
    stamp(g, w, h, r, f, fill, rng);
    assert forall|x: int, y: int|
        0 <= x < w && 0 <= y < h && untouched(p, w as int, h as int, x, y) implies #[trigger] tile_at(g@, x, y)
        == tile_at(start, x, y) by {
        assert(overlaid(r, f, fill as int, before, g@, x, y));
        assert(!in_region(r, x, y));
        assert(tile_at(before, x, y) == tile_at(start, x, y));
    }
    assert forall|x: int, y: int| 0 <= x < w && 0 <= y < h implies #[trigger] tile_at(g@, x, y) == tile_at(
        start,
        x,
        y,
    ) || pass_mark(p, tile_at(g@, x, y)) by {
        assert(overlaid(r, f, fill as int, before, g@, x, y));
        if in_region(r, x, y) && tile_at(g@, x, y) != tile_at(before, x, y) {
            let o = tile_at(before, x, y);
            assert(stamped(f, fill as int, o, tile_at(g@, x, y)));
            let (a, b) = choose|a: int, b: int|
                0 <= a < CHANCE_SCALE && 0 <= b < CHANCE_SCALE && tile_at(g@, x, y) == #[trigger] feature_view(
                    f,
                    o,
                    a,
                    b,
                );
            assert(pass_writes(p, f) && tile_at(g@, x, y) == feature_view(f, o, a, b));
        }
    }
}

/// Runs one pass over the grid. Every tile stays as it was or becomes a
/// tile of the pass; the tiles that the pass leaves alone stay as they were.
/// The glacier pass fills its core with glacier for certain, and leaves the
/// rest of its disc as it was or turns it to ice.
pub fn apply_pass(g: &mut Vec<Vec<TerrainData>>, w: usize, h: usize, p: Pass, rng: &mut RandomSource)
    requires
        grid_shaped(old(g)@, w as nat, h as nat),
        grid_valid(old(g)@),
        0 < w <= MAX_SIDE,
        0 < h <= MAX_SIDE,
    ensures
        grid_shaped(final(g)@, w as nat, h as nat),
        grid_valid(final(g)@),
        pass_result(p, old(g)@, final(g)@, w as nat, h as nat),
        frame_kept(p, old(g)@, final(g)@, w as int, h as int),
        p == Pass::Glacier ==> forall|x: int, y: int|
            0 <= x < w && 0 <= y < h ==> {
                let t = #[trigger] tile_at(final(g)@, x, y);
                &&& in_region(glacier_core(w as int, h as int), x, y) ==> t == glacier_view()
                &&& !in_region(glacier_core(w as int, h as int), x, y) ==> t == tile_at(old(g)@, x, y) || t
                    == ice_ring_view()
            },
{
    let ghost start = g@;
    match p {
        Pass::Glacier => {
            let cx = w * 3 / 4;
            let cy = h / 6;
            let radius = if w < h { w / 8 } else { h / 8 };
            let ring = Region::Disc { cx, cy, radius, num: 1, den: 1 };
            assert(ring == glacier_ring(w as int, h as int));
            stamp_for(g, w, h, ring, p, Feature::IceRing, 700, rng, Ghost(start));
            let ghost mid = g@;
            let core = Region::Disc { cx, cy, radius, num: 9, den: 25 };
            assert(core == glacier_core(w as int, h as int));
            assert forall|x: int, y: int|
                0 <= x < w && 0 <= y < h && untouched(p, w as int, h as int, x, y) implies !#[trigger] in_region(
                core,
                x,
                y,
            ) by {
                if in_region(core, x, y) {
                    lemma_core_in_ring(w as int, h as int, x, y);
                }
            }
            stamp_for(g, w, h, core, p, Feature::GlacierCore, CHANCE_SCALE, rng, Ghost(start));
            assert forall|x: int, y: int| 0 <= x < w && 0 <= y < h implies {
                let t = #[trigger] tile_at(g@, x, y);
                &&& in_region(glacier_core(w as int, h as int), x, y) ==> t == glacier_view()
                &&& !in_region(glacier_core(w as int, h as int), x, y) ==> t == tile_at(start, x, y) || t
                    == ice_ring_view()
            } by {
                assert(overlaid(ring, Feature::IceRing, 700, start, mid, x, y));
                assert(overlaid(core, Feature::GlacierCore, CHANCE_SCALE as int, mid, g@, x, y));
            }
        },
        Pass::LavaFields => {
            let mut k: usize = 0;
            while k < 4
                invariant
                    grid_shaped(g@, w as nat, h as nat),
                    grid_valid(g@),
                    0 < w <= MAX_SIDE,
                    0 < h <= MAX_SIDE,
                    p == Pass::LavaFields,
                    pass_result(p, start, g@, w as nat, h as nat),
                    frame_kept(p, start, g@, w as int, h as int),
                decreases 4 - k,
            {
                let cx = rng.range(0, w as u64) as usize;
                let cy = rng.range((h / 3) as u64, h as u64) as usize;
                let radius = rng.range(15, 35) as usize;
                let r = Region::Disc { cx, cy, radius, num: 1, den: 1 };
                assert forall|x: int, y: int|
                    0 <= x < w && 0 <= y < h && untouched(p, w as int, h as int, x, y) implies !#[trigger] in_region(
                    r,
                    x,
                    y,
                ) by {
                    lemma_outside_disc(x, y, cx as int, cy as int, radius as int);
                }
                stamp_for(g, w, h, r, p, Feature::LavaField, 600, rng, Ghost(start));
                k = k + 1;
            }
        },
        Pass::CoastalCliffs => {
            let y0 = h * 4 / 5;
            let r = Region::Rect { x0: 0, y0, rw: w, rh: h - y0 };
            stamp_for(g, w, h, r, p, Feature::CoastalCliff, 400, rng, Ghost(start));
        },
        Pass::RockFormations => {
            let mut k: usize = 0;
            while k < 8
                invariant
                    grid_shaped(g@, w as nat, h as nat),
                    grid_valid(g@),
                    0 < w <= MAX_SIDE,
                    0 < h <= MAX_SIDE,
                    p == Pass::RockFormations,
                    pass_result(p, start, g@, w as nat, h as nat),
                    frame_kept(p, start, g@, w as int, h as int),
                decreases 8 - k,
            {
                let cx = rng.range(0, w as u64) as usize;
                let cy = rng.range_or_low(0, (h * 2 / 3) as u64) as usize;
                let radius = rng.range(8, 20) as usize;
                let r = Region::Disc { cx, cy, radius, num: 1, den: 1 };
                assert forall|x: int, y: int|
                    0 <= x < w && 0 <= y < h && untouched(p, w as int, h as int, x, y) implies !#[trigger] in_region(
                    r,
                    x,
                    y,
                ) by {
                    lemma_outside_disc(x, y, cx as int, cy as int, radius as int);
                }
                stamp_for(g, w, h, r, p, Feature::RockFormation, 800, rng, Ghost(start));
                k = k + 1;
            }
        },
        Pass::SeaCliffs => {
            let count = rng.range(3, 6);
            let mut k: u64 = 0;
            while k < count
                invariant
                    grid_shaped(g@, w as nat, h as nat),
                    grid_valid(g@),
                    0 < w <= MAX_SIDE,
                    0 < h <= MAX_SIDE,
                    p == Pass::SeaCliffs,
                    pass_result(p, start, g@, w as nat, h as nat),
                    frame_kept(p, start, g@, w as int, h as int),
                decreases count - k,
            {
                let x0 = rng.range_or_low((w / 3) as u64, w.saturating_sub(20) as u64) as usize;
                let rw = rng.range(15, 30) as usize;
                let rh = rng.range(40, 80) as usize;
                let r = Region::Rect { x0, y0: h.saturating_sub(rh), rw, rh };
                stamp_for(g, w, h, r, p, Feature::SeaCliff, 700, rng, Ghost(start));
                k = k + 1;
            }
        },
        Pass::VolcanicPeaks => {
            let count = rng.range(2, 4);
            let mut k: u64 = 0;
            while k < count
                invariant
                    grid_shaped(g@, w as nat, h as nat),
                    grid_valid(g@),
                    0 < w <= MAX_SIDE,
                    0 < h <= MAX_SIDE,
                    p == Pass::VolcanicPeaks,
                    pass_result(p, start, g@, w as nat, h as nat),
                    frame_kept(p, start, g@, w as int, h as int),
                decreases count - k,
            {
                let cx = rng.range_or_low(40, w.saturating_sub(40) as u64) as usize;
                let cy = rng.range_or_low(40, h.saturating_sub(40) as u64) as usize;
                let radius = rng.range(15, 25) as usize;
                let r = Region::Disc { cx, cy, radius, num: 1, den: 1 };
                assert forall|x: int, y: int|
                    0 <= x < w && 0 <= y < h && untouched(p, w as int, h as int, x, y) implies !#[trigger] in_region(
                    r,
                    x,
                    y,
                ) by {
                    lemma_outside_disc(x, y, cx as int, cy as int, radius as int);
                }
                stamp_for(g, w, h, r, p, Feature::VolcanicPeak, 800, rng, Ghost(start));
                k = k + 1;
            }
        },
        Pass::LavaFlows => {
            let count = rng.range(4, 7);
            let mut k: u64 = 0;
            while k < count
                invariant
                    grid_shaped(g@, w as nat, h as nat),
                    grid_valid(g@),
                    0 < w <= MAX_SIDE,
                    0 < h <= MAX_SIDE,
                    p == Pass::LavaFlows,
                    pass_result(p, start, g@, w as nat, h as nat),
                    frame_kept(p, start, g@, w as int, h as int),
                decreases count - k,
            {
                let x0 = rng.range_or_low(0, w.saturating_sub(50) as u64) as usize;
                let y0 = rng.range_or_low(0, h.saturating_sub(50) as u64) as usize;
                let rw = rng.range(25, 60) as usize;
                let rh = rng.range(25, 60) as usize;
                let r = Region::Rect { x0, y0, rw, rh };
                stamp_for(g, w, h, r, p, Feature::LavaFlow, 750, rng, Ghost(start));
                k = k + 1;
            }
        },
    }
}

} // verus!
