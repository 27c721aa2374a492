use vstd::prelude::*;
use crate::random::RandomSource;
use crate::terrain::UNIT;

verus! {

/// The width of the band of per-tile noise on the mountain height field: a
/// draw `n` in `[0, NOISE_SPAN)` shifts the tile by `n - NOISE_SPAN / 2`.
pub const NOISE_SPAN: u32 = 200;

/// The width of the band of per-tile noise on the coastal height field.
pub const CLIFF_NOISE_SPAN: u32 = 300;

/// No two tiles of a grid are farther apart than this along one axis.
pub const MAX_DIST: usize = 4096;

/// `r` is the integer square root of `n`.
pub open spec fn is_root(n: nat, r: nat) -> bool {
    r * r <= n < (r + 1) * (r + 1)
}

/// The integer square root of `n`.
pub open spec fn root(n: nat) -> nat {
    choose|r: nat| is_root(n, r)
}

/// The integer square root is unique.
pub proof fn lemma_root_unique(n: nat, a: nat, b: nat)
    requires
        is_root(n, a),
        is_root(n, b),
    ensures
        a == b,
{
    if a < b {
        assert((a + 1) * (a + 1) <= b * b) by (nonlinear_arith)
            requires
                a + 1 <= b,
        ;
    } else if b < a {
        assert((b + 1) * (b + 1) <= a * a) by (nonlinear_arith)
            requires
                b + 1 <= a,
        ;
    }
}

/// The integer square root of `n`, by bisection.
pub fn isqrt(n: u64) -> (r: u64)
    requires
        n < 0x1_0000_0000,
    ensures
        r == root(n as nat),
        is_root(n as nat, r as nat),
{
    let mut lo: u64 = 0;
    let mut hi: u64 = 0x1_0000;
    assert(hi * hi == 0x1_0000_0000) by (nonlinear_arith)
        requires
            hi == 0x1_0000,
    ;
    while hi - lo > 1
        invariant
            lo < hi <= 0x1_0000,
            lo * lo <= n,
            n < hi * hi,
        decreases hi - lo,
    {
        let mid = lo + (hi - lo) / 2;
        assert(mid * mid <= 0x1_0000 * 0x1_0000) by (nonlinear_arith)
            requires
                mid <= 0x1_0000,
        ;
        if mid * mid <= n {
            lo = mid;
        } else {
            hi = mid;
        }
    }
    assert(is_root(n as nat, lo as nat));
    proof {
        let c = root(n as nat);
        assert(is_root(n as nat, c));
        lemma_root_unique(n as nat, c, lo as nat);
    }
    lo
}

/// `v` clamped to `[0, UNIT]`.
pub open spec fn clamp_unit(v: int) -> int {
    if v < 0 {
        0
    } else if v > UNIT {
        UNIT as int
    } else {
        v
    }
}

/// `|a - b|`.
pub open spec fn gap(a: int, b: int) -> int {
    if a >= b {
        a - b
    } else {
        b - a
    }
}

/// The summit of the mountain height field.
pub open spec fn summit(w: int, h: int) -> (int, int) {
    (w * 3 / 4, h / 6)
}

/// The height of the mountain height field at `(x, y)`, in thousandths: a cone
/// of falloff 2.5 around the summit, measured in fractions of the grid's
/// sides, plus a rise of up to 0.3 towards the southern edge, plus noise.
pub open spec fn mountain_elevation(x: int, y: int, w: int, h: int, noise: int) -> int {
    let dx = gap(x, summit(w, h).0) * 1000 / w;
    let dy = gap(y, summit(w, h).1) * 1000 / h;
    let d = root((dx * dx + dy * dy) as nat) as int;
    let cone = UNIT - (if d * 5 / 2 < UNIT { d * 5 / 2 } else { UNIT as int });
    let rise = y * 300 / h;
    clamp_unit(cone + rise + noise - NOISE_SPAN / 2)
}

/// The mountain height at `(x, y)` for the noise draw `noise`.
pub fn mountain_elevation_at(x: usize, y: usize, w: usize, h: usize, noise: u32) -> (r: u32)
    requires
        x < w <= crate::grid::MAX_SIDE,
        y < h <= crate::grid::MAX_SIDE,
        noise < NOISE_SPAN,
    ensures
        r == mountain_elevation(x as int, y as int, w as int, h as int, noise as int),
        r <= UNIT,
{
    let px = w * 3 / 4;
    let py = h / 6;
    let gx = if x >= px { x - px } else { px - x };
    let gy = if y >= py { y - py } else { py - y };
    assert(gx < w);
    assert(gy < h);
    assert(gx * 1000 < w * 1000) by (nonlinear_arith)
        requires
            gx < w,
    ;
    assert(gy * 1000 < h * 1000) by (nonlinear_arith)
        requires
            gy < h,
    ;
    let dx = (gx as u64) * 1000 / (w as u64);
    let dy = (gy as u64) * 1000 / (h as u64);
    assert(dx <= 1000) by (nonlinear_arith)
        requires
            dx as int == (gx as int) * 1000 / (w as int),
            gx * 1000 < w * 1000,
            w > 0,
    ;
    assert(dy <= 1000) by (nonlinear_arith)
        requires
            dy as int == (gy as int) * 1000 / (h as int),
            gy * 1000 < h * 1000,
            h > 0,
    ;
    assert(dx * dx <= 1000 * 1000) by (nonlinear_arith)
        requires
            dx <= 1000,
    ;
    assert(dy * dy <= 1000 * 1000) by (nonlinear_arith)
        requires
            dy <= 1000,
    ;
    let d = isqrt(dx * dx + dy * dy);
    assert(d <= 2000) by (nonlinear_arith)
        requires
            d * d <= dx * dx + dy * dy,
            dx * dx + dy * dy <= 2000000,
    ;
    let fall = if d * 5 / 2 < 1000 { d * 5 / 2 } else { 1000 };
    let cone = 1000 - fall;
    assert(y * 300 < h * 300) by (nonlinear_arith)
        requires
            y < h,
    ;
    let rise = (y as u64) * 300 / (h as u64);
    assert(rise < 300) by (nonlinear_arith)
        requires
            rise as int == (y as int) * 300 / (h as int),
            y * 300 < h * 300,
            h > 0,
    ;
    let sum = cone + rise + noise as u64;
    let half = (NOISE_SPAN / 2) as u64;
    let v = if sum < half {
        0
    } else if sum - half > 1000 {
        1000
    } else {
        sum - half
    };
    v as u32
}

/// `f` holds `h` rows of `w` heights each.
pub open spec fn field_shaped(f: Seq<Vec<u32>>, w: nat, h: nat) -> bool {
    &&& f.len() == h
    &&& forall|y: int| 0 <= y < h ==> (#[trigger] f[y])@.len() == w
}

/// Every height of `f` lies in `[0, UNIT]`.
pub open spec fn field_bounded(f: Seq<Vec<u32>>) -> bool {
    forall|y: int, x: int| 0 <= y < f.len() && 0 <= x < f[y]@.len() ==> #[trigger] f[y]@[x] <= UNIT
}

/// `e` is the mountain height at `(x, y)` for some noise draw.
pub open spec fn mountain_possible(x: int, y: int, w: int, h: int, e: int) -> bool {
    exists|n: int| 0 <= n < NOISE_SPAN && e == mountain_elevation(x, y, w, h, n)
}

/// The mountain height field, with fresh noise on every tile.
pub fn generate_elevation_map(w: usize, h: usize, rng: &mut RandomSource) -> (f: Vec<Vec<u32>>)
    requires
        w <= crate::grid::MAX_SIDE,
        h <= crate::grid::MAX_SIDE,
    ensures
        field_shaped(f@, w as nat, h as nat),
        field_bounded(f@),
        forall|y: int, x: int|
            0 <= y < h && 0 <= x < w ==> mountain_possible(x, y, w as int, h as int, #[trigger] f@[y]@[x] as int),
{
    let mut f: Vec<Vec<u32>> = Vec::new();
    let mut y: usize = 0;
    while y < h
        invariant
            y <= h <= crate::grid::MAX_SIDE,
            w <= crate::grid::MAX_SIDE,
            field_shaped(f@, w as nat, y as nat),
            field_bounded(f@),
            forall|j: int, x: int|
                0 <= j < y && 0 <= x < w ==> mountain_possible(x, j, w as int, h as int, #[trigger] f@[j]@[x] as int),
        decreases h - y,
    {
        let mut row: Vec<u32> = Vec::new();
        let mut x: usize = 0;
        while x < w
            invariant
                x <= w <= crate::grid::MAX_SIDE,
                y < h <= crate::grid::MAX_SIDE,
                row@.len() == x,
                forall|i: int| 0 <= i < x ==> #[trigger] row@[i] <= UNIT,
                forall|i: int| 0 <= i < x ==> mountain_possible(i, y as int, w as int, h as int, #[trigger] row@[i] as int),
            decreases w - x,
        {
            let noise = rng.range(0, NOISE_SPAN as u64) as u32;
            let e = mountain_elevation_at(x, y, w, h, noise);
            assert(mountain_possible(x as int, y as int, w as int, h as int, e as int));
            row.push(e);
            x = x + 1;
        }
        let ghost before = f@;
        let ghost last = row@;
        f.push(row);
        assert forall|j: int, x: int| 0 <= j < f@.len() && 0 <= x < f@[j]@.len() implies #[trigger] f@[j]@[x] <= UNIT by {
            if j < y {
                assert(f@[j] == before[j]);
            } else {
                assert(f@[j]@ == last);
            }
        }
        assert forall|j: int, x: int| 0 <= j < y + 1 && 0 <= x < w implies mountain_possible(x, j, w as int, h as int, #[trigger] f@[j]@[x] as int) by {
            if j < y {
                assert(f@[j] == before[j]);
            } else {
                assert(f@[j]@ == last);
                assert(mountain_possible(x, j, w as int, h as int, last[x] as int));
            }
        }
        y = y + 1;
    }
    f
}

/// The height of the coastal height field at column `x`, in thousandths: a
/// rise with the square of the distance from the western shore, scaled by
/// 0.8, plus noise.
pub open spec fn coastal_elevation(x: int, w: int, noise: int) -> int {
    let p = x * 1000 / w;
    let v = (p * p / 1000) * 4 / 5 + noise;
    if v > UNIT { UNIT as int } else { v }
}

/// The coastal height at column `x` for the noise draw `noise`.
pub fn coastal_elevation_at(x: usize, w: usize, noise: u32) -> (r: u32)
    requires
        x < w <= crate::grid::MAX_SIDE,
        noise < CLIFF_NOISE_SPAN,
    ensures
        r == coastal_elevation(x as int, w as int, noise as int),
        r <= UNIT,
{
    assert(x * 1000 < w * 1000) by (nonlinear_arith)
        requires
            x < w,
    ;
    let p = (x as u64) * 1000 / (w as u64);
    assert(p <= 1000) by (nonlinear_arith)
        requires
            p as int == (x as int) * 1000 / (w as int),
            x * 1000 < w * 1000,
            w > 0,
    ;
    assert(p * p <= 1000 * 1000) by (nonlinear_arith)
        requires
            p <= 1000,
    ;
    let v = (p * p / 1000) * 4 / 5 + noise as u64;
    let r = if v > 1000 { 1000 } else { v };
    r as u32
}

/// `e` is the coastal height at column `x` for some noise draw.
pub open spec fn coastal_possible(x: int, w: int, e: int) -> bool {
    exists|n: int| 0 <= n < CLIFF_NOISE_SPAN && e == coastal_elevation(x, w, n)
}

/// The coastal height field, with fresh noise on every tile.
pub fn generate_coastal_elevation(w: usize, h: usize, rng: &mut RandomSource) -> (f: Vec<Vec<u32>>)
    requires
        w <= crate::grid::MAX_SIDE,
        h <= crate::grid::MAX_SIDE,
    ensures
        field_shaped(f@, w as nat, h as nat),
        field_bounded(f@),
        forall|y: int, x: int|
            0 <= y < h && 0 <= x < w ==> coastal_possible(x, w as int, #[trigger] f@[y]@[x] as int),
{
    let mut f: Vec<Vec<u32>> = Vec::new();
    let mut y: usize = 0;
    while y < h
        invariant
            y <= h <= crate::grid::MAX_SIDE,
            w <= crate::grid::MAX_SIDE,
            field_shaped(f@, w as nat, y as nat),
            field_bounded(f@),
            forall|j: int, x: int|
                0 <= j < y && 0 <= x < w ==> coastal_possible(x, w as int, #[trigger] f@[j]@[x] as int),
        decreases h - y,
    {
        let mut row: Vec<u32> = Vec::new();
        let mut x: usize = 0;
        while x < w
            invariant
                x <= w <= crate::grid::MAX_SIDE,
                row@.len() == x,
                forall|i: int| 0 <= i < x ==> #[trigger] row@[i] <= UNIT,
                forall|i: int| 0 <= i < x ==> coastal_possible(i, w as int, #[trigger] row@[i] as int),
            decreases w - x,
        {
            let noise = rng.range(0, CLIFF_NOISE_SPAN as u64) as u32;
            let e = coastal_elevation_at(x, w, noise);
            assert(coastal_possible(x as int, w as int, e as int));
            row.push(e);
            x = x + 1;
        }
        let ghost before = f@;
        let ghost last = row@;
        f.push(row);
        assert forall|j: int, x: int| 0 <= j < f@.len() && 0 <= x < f@[j]@.len() implies #[trigger] f@[j]@[x] <= UNIT by {
            if j < y {
                assert(f@[j] == before[j]);
            } else {
                assert(f@[j]@ == last);
            }
        }
        assert forall|j: int, x: int| 0 <= j < y + 1 && 0 <= x < w implies coastal_possible(x, w as int, #[trigger] f@[j]@[x] as int) by {
            if j < y {
                assert(f@[j] == before[j]);
            } else {
                assert(f@[j]@ == last);
                assert(coastal_possible(x, w as int, last[x] as int));
            }
        }
        y = y + 1;
    }
    f
}

/// The rise that a volcanic peak at `(px, py)` of radius `radius` gives the
/// tile `(x, y)`, in thousandths: a cone that reaches zero at the radius.
pub open spec fn peak_influence(x: int, y: int, px: int, py: int, radius: int) -> int {
    let d = root((gap(x, px) * gap(x, px) + gap(y, py) * gap(y, py)) as nat) as int;
    let s = d * 1000 / radius;
    UNIT - (if s < UNIT { s } else { UNIT as int })
}

/// The height `e` raised by 0.8 of a peak's influence, capped at `UNIT`.
pub open spec fn raised(e: int, influence: int) -> int {
    let v = e + influence * 4 / 5;
    if v > UNIT { UNIT as int } else { v }
}

/// Raises every height of the field by a volcanic peak at `(px, py)`.
pub fn add_peak(f: &mut Vec<Vec<u32>>, w: usize, h: usize, px: usize, py: usize, radius: u32)
    requires
        field_shaped(old(f)@, w as nat, h as nat),
        field_bounded(old(f)@),
        w <= crate::grid::MAX_SIDE,
        h <= crate::grid::MAX_SIDE,
        radius > 0,
        px < w,
        py < h,
    ensures
        field_shaped(final(f)@, w as nat, h as nat),
        field_bounded(final(f)@),
        forall|y: int, x: int|
            0 <= y < h && 0 <= x < w ==> #[trigger] final(f)@[y]@[x] as int == raised(
                old(f)@[y]@[x] as int,
                peak_influence(x, y, px as int, py as int, radius as int),
            ),
{
    let ghost start = f@;
    let mut y: usize = 0;
    while y < h
        invariant
            y <= h <= crate::grid::MAX_SIDE,
            w <= crate::grid::MAX_SIDE,
            radius > 0,
            px < w,
            py < h,
            field_shaped(start, w as nat, h as nat),
            field_shaped(f@, w as nat, h as nat),
            field_bounded(f@),
            forall|j: int, x: int|
                0 <= j < y && 0 <= x < w ==> #[trigger] f@[j]@[x] as int == raised(
                    start[j]@[x] as int,
                    peak_influence(x, j, px as int, py as int, radius as int),
                ),
            forall|j: int| y <= j < h ==> #[trigger] f@[j] == start[j],
        decreases h - y,
    {
        let mut x: usize = 0;
        while x < w
            invariant
                x <= w <= crate::grid::MAX_SIDE,
                y < h <= crate::grid::MAX_SIDE,
                radius > 0,
                px < w,
                py < h,
                field_shaped(start, w as nat, h as nat),
                field_shaped(f@, w as nat, h as nat),
                field_bounded(f@),
                forall|j: int, i: int|
                    0 <= j < y && 0 <= i < w ==> #[trigger] f@[j]@[i] as int == raised(
                        start[j]@[i] as int,
                        peak_influence(i, j, px as int, py as int, radius as int),
                    ),
                forall|i: int|
                    0 <= i < x ==> #[trigger] f@[y as int]@[i] as int == raised(
                        start[y as int]@[i] as int,
                        peak_influence(i, y as int, px as int, py as int, radius as int),
                    ),
                forall|i: int| x <= i < w ==> #[trigger] f@[y as int]@[i] == start[y as int]@[i],
                forall|j: int| y < j < h ==> #[trigger] f@[j] == start[j],
            decreases w - x,
        {
            let gx = if x >= px { x - px } else { px - x };
            let gy = if y >= py { y - py } else { py - y };
            assert(gx <= MAX_DIST && gy <= MAX_DIST);
            assert(gx * gx <= MAX_DIST * MAX_DIST) by (nonlinear_arith)
                requires
                    gx <= MAX_DIST,
            ;
            assert(gy * gy <= MAX_DIST * MAX_DIST) by (nonlinear_arith)
                requires
                    gy <= MAX_DIST,
            ;
            let d = isqrt((gx as u64) * (gx as u64) + (gy as u64) * (gy as u64));
            assert(d <= 2 * MAX_DIST) by (nonlinear_arith)
                requires
                    d * d <= gx * gx + gy * gy,
                    gx * gx + gy * gy <= 2 * MAX_DIST * MAX_DIST,
            ;
            let s = d * 1000 / (radius as u64);
            let influence = 1000 - (if s < 1000 { s } else { 1000 });
            let old_e = f[y][x];
            let v = old_e as u64 + influence * 4 / 5;
            let e = if v > 1000 { 1000 } else { v as u32 };
            let ghost mid = f@;
            f[y][x] = e;
            assert forall|j: int, i: int| 0 <= j < f@.len() && 0 <= i < f@[j]@.len() implies #[trigger] f@[j]@[i] <= UNIT by {
                if j != y || i != x {
                    assert(f@[j]@[i] == mid[j]@[i]);
                }
            }
            assert forall|j: int| y < j < h implies #[trigger] f@[j] == start[j] by {
                assert(f@[j] == mid[j]);
            }
            assert forall|j: int, i: int|
                0 <= j < y && 0 <= i < w implies #[trigger] f@[j]@[i] as int == raised(
                    start[j]@[i] as int,
                    peak_influence(i, j, px as int, py as int, radius as int),
                ) by {
                assert(f@[j] == mid[j]);
            }
            x = x + 1;
        }
        y = y + 1;
    }
}

/// A field of `h` rows of `w` zero heights.
pub fn flat_field(w: usize, h: usize) -> (f: Vec<Vec<u32>>)
    ensures
        field_shaped(f@, w as nat, h as nat),
        forall|y: int, x: int| 0 <= y < h && 0 <= x < w ==> #[trigger] f@[y]@[x] == 0,
{
    let mut f: Vec<Vec<u32>> = Vec::new();
    let mut y: usize = 0;
    while y < h
        invariant
            y <= h,
            field_shaped(f@, w as nat, y as nat),
            forall|j: int, x: int| 0 <= j < y && 0 <= x < w ==> #[trigger] f@[j]@[x] == 0,
        decreases h - y,
    {
        let row: Vec<u32> = vec![0; w];
        let ghost before = f@;
        f.push(row);
        assert forall|j: int, x: int| 0 <= j < y + 1 && 0 <= x < w implies #[trigger] f@[j]@[x] == 0 by {
            if j < y {
                assert(f@[j] == before[j]);
            }
        }
        y = y + 1;
    }
    f
}

/// The height that a list of volcanic peaks `(x, y, radius)` gives tile
/// `(x, y)`: each peak in turn raises the flat ground.
pub open spec fn volcanic_height(peaks: Seq<(usize, usize, u32)>, x: int, y: int) -> int
    decreases peaks.len(),
{
    if peaks.len() == 0 {
        0
    } else {
        let p = peaks.last();
        raised(volcanic_height(peaks.drop_last(), x, y), peak_influence(x, y, p.0 as int, p.1 as int, p.2 as int))
    }
}

/// The peaks of a volcanic field on a `w` by `h` map: two to four, each
/// centred in the middle half of the map along each axis (at its start where
/// that half is empty), of radius 30 to 59 tiles.
pub open spec fn peaks_valid(peaks: Seq<(usize, usize, u32)>, w: int, h: int) -> bool {
    &&& 2 <= peaks.len() <= 4
    &&& forall|i: int|
        0 <= i < peaks.len() ==> {
            let p = #[trigger] peaks[i];
            &&& w / 4 <= p.0 && (p.0 < 3 * w / 4 || p.0 == w / 4)
            &&& h / 4 <= p.1 && (p.1 < 3 * h / 4 || p.1 == h / 4)
            &&& 30 <= p.2 < 60
        }
}

/// A peak's own centre is raised to at least 0.8, and later peaks never
/// lower a height.
pub proof fn lemma_peak_centre_high(peaks: Seq<(usize, usize, u32)>, k: int)
    requires
        0 <= k < peaks.len(),
        forall|i: int| 0 <= i < peaks.len() ==> (#[trigger] peaks[i]).2 > 0,
    ensures
        volcanic_height(peaks, peaks[k].0 as int, peaks[k].1 as int) >= 800,
    decreases peaks.len(),
{
    let x = peaks[k].0 as int;
    let y = peaks[k].1 as int;
    lemma_height_bounded(peaks.drop_last(), x, y);
    if k == peaks.len() - 1 {
        assert(is_root(0, 0)) by (nonlinear_arith);
        lemma_root_unique(0, root(0), 0);
        assert(gap(x, x) * gap(x, x) + gap(y, y) * gap(y, y) == 0);
    } else {
        let rest = peaks.drop_last();
        assert(rest[k] == peaks[k]);
        lemma_peak_centre_high(rest, k);
        let p = peaks.last();
        let s = root((gap(x, p.0 as int) * gap(x, p.0 as int) + gap(y, p.1 as int) * gap(y, p.1 as int)) as nat)
            as int * 1000 / (p.2 as int);
        assert(s >= 0) by (nonlinear_arith)
            requires
                s == root((gap(x, p.0 as int) * gap(x, p.0 as int) + gap(y, p.1 as int) * gap(y, p.1 as int))
                    as nat) as int * 1000 / (p.2 as int),
                p.2 > 0,
        ;
    }
}

/// Every volcanic height lies in `[0, UNIT]`.
pub proof fn lemma_height_bounded(peaks: Seq<(usize, usize, u32)>, x: int, y: int)
    ensures
        0 <= volcanic_height(peaks, x, y) <= UNIT,
    decreases peaks.len(),
{
    if peaks.len() > 0 {
        lemma_height_bounded(peaks.drop_last(), x, y);
        let p = peaks.last();
        let s = root((gap(x, p.0 as int) * gap(x, p.0 as int) + gap(y, p.1 as int) * gap(y, p.1 as int)) as nat)
            as int * 1000 / (p.2 as int);
        if p.2 > 0 {
            assert(s >= 0) by (nonlinear_arith)
                requires
                    s == root((gap(x, p.0 as int) * gap(x, p.0 as int) + gap(y, p.1 as int) * gap(y, p.1 as int))
                        as nat) as int * 1000 / (p.2 as int),
                    p.2 > 0,
            ;
        }
    }
}

/// The volcanic height field: two to four peaks at random places within the
/// middle half of the grid, each of radius 30 to 59 tiles, raising flat
/// ground in turn. The centre of each peak stands at 0.8 or more.
pub fn generate_volcanic_elevation(w: usize, h: usize, rng: &mut RandomSource) -> (f: Vec<Vec<u32>>)
    requires
        0 < w <= crate::grid::MAX_SIDE,
        0 < h <= crate::grid::MAX_SIDE,
    ensures
        field_shaped(f@, w as nat, h as nat),
        field_bounded(f@),
        exists|peaks: Seq<(usize, usize, u32)>|
            #[trigger] peaks_valid(peaks, w as int, h as int) && forall|x: int, y: int|
                0 <= x < w && 0 <= y < h ==> #[trigger] f@[y]@[x] as int == volcanic_height(peaks, x, y),
        exists|x: int, y: int| 0 <= x < w && 0 <= y < h && #[trigger] f@[y]@[x] >= 800,
{
    let mut f = flat_field(w, h);
    let count = rng.range(2, 5);
    let ghost mut peaks: Seq<(usize, usize, u32)> = Seq::empty();
    let mut k: u64 = 0;
    while k < count
        invariant
            0 < w <= crate::grid::MAX_SIDE,
            0 < h <= crate::grid::MAX_SIDE,
            2 <= count < 5,
            k <= count,
            peaks.len() == k,
            forall|i: int|
                0 <= i < peaks.len() ==> {
                    let p = #[trigger] peaks[i];
                    &&& w / 4 <= p.0 && (p.0 < 3 * w / 4 || p.0 == w / 4)
                    &&& h / 4 <= p.1 && (p.1 < 3 * h / 4 || p.1 == h / 4)
                    &&& 30 <= p.2 < 60
                },
            field_shaped(f@, w as nat, h as nat),
            field_bounded(f@),
            forall|x: int, y: int| 0 <= x < w && 0 <= y < h ==> #[trigger] f@[y]@[x] as int == volcanic_height(peaks, x, y),
        decreases count - k,
    {
        let px = rng.range_or_low((w / 4) as u64, (3 * w / 4) as u64) as usize;
        let py = rng.range_or_low((h / 4) as u64, (3 * h / 4) as u64) as usize;
        let radius = rng.range(30, 60) as u32;
        let ghost before = f@;
        add_peak(&mut f, w, h, px, py, radius);
        proof {
            let old_peaks = peaks;
            peaks = peaks.push((px, py, radius));
            assert(peaks.drop_last() =~= old_peaks);
            assert forall|x: int, y: int| 0 <= x < w && 0 <= y < h implies #[trigger] f@[y]@[x] as int == volcanic_height(peaks, x, y) by {
                assert(before[y]@[x] as int == volcanic_height(old_peaks, x, y));
            }
        }
        k = k + 1;
    }
    proof {
        assert(peaks_valid(peaks, w as int, h as int));
        lemma_peak_centre_high(peaks, 0);
        let x = peaks[0].0 as int;
        let y = peaks[0].1 as int;
        assert(f@[y]@[x] >= 800);
    }
    f
}

} // verus!
