use vstd::prelude::*;
use crate::random::{RandomSource, CHANCE_SCALE};
use crate::terrain::{Gear, TerrainData, TerrainType, TileView, UNIT, flat_view, climb_view, tile_valid};
use crate::elevation::{field_shaped, field_bounded};
use crate::grid::{grid_shaped, grid_valid, tile_at, MAX_SIDE};

verus! {

/// A named generation profile.
#[derive(Clone, Copy, Debug, PartialEq, Eq, Structural)]
pub enum Theme {
    Mountain,
    Coastal,
    Volcanic,
}

/// The class that the mountain theme gives a tile of height `e` in row `y`
/// of `h`: bands from the top down, with the low band split by the distance
/// from the northern coast.
pub open spec fn mountain_kind(e: int, y: int, h: int) -> TerrainType {
    if e > 800 {
        TerrainType::Snow
    } else if e > 600 {
        TerrainType::Rock
    } else if e > 400 {
        TerrainType::Grass
    } else if e > 200 {
        if 10 * y < 3 * h { TerrainType::Coast } else { TerrainType::Soil }
    } else {
        TerrainType::Coast
    }
}

/// The baseline stability of a class.
pub open spec fn baseline_stability(kind: TerrainType) -> nat {
    match kind {
        TerrainType::Rock => 900,
        TerrainType::Coast => 700,
        TerrainType::Soil => 800,
        TerrainType::Grass => 800,
        _ => 600,
    }
}

/// The baseline slope for height `e` and the roll `roll`: `0.8 e` plus up to
/// 0.3, capped at 1.
pub open spec fn baseline_slope(e: int, roll: int) -> nat {
    let v = e * 4 / 5 + roll * 3 / 10;
    (if v > UNIT { UNIT as int } else { v }) as nat
}

/// The tile that `theme` gives a tile of height `e` in row `y` of `h`, for
/// the roll `roll` in thousandths.
pub open spec fn classified(theme: Theme, e: int, y: int, h: int, roll: int) -> TileView {
    match theme {
        Theme::Mountain => {
            let kind = mountain_kind(e, y, h);
            flat_view(kind, baseline_slope(e, roll), baseline_stability(kind))
        },
        Theme::Coastal => {
            if e < 200 {
                flat_view(TerrainType::Coast, 50, 900)
            } else if e < 500 {
                climb_view(TerrainType::Rock, 400, 700, (3000 + roll * 3) as nat, seq![])
            } else {
                climb_view(
                    TerrainType::Snow,
                    600,
                    600,
                    (5000 + roll * 3) as nat,
                    seq![Gear::Rope, Gear::Pitons],
                )
            }
        },
        Theme::Volcanic => {
            if e < 200 {
                flat_view(TerrainType::Rock, 200, 800)
            } else if e < 600 {
                climb_view(TerrainType::Rock, 500, 600, (4000 + roll * 3) as nat, seq![])
            } else {
                climb_view(TerrainType::Snow, 700, 500, (6000 + roll * 3) as nat, seq![])
            }
        },
    }
}

/// The class of a mountain tile.
fn mountain_kind_of(e: u32, y: usize, h: usize) -> (r: TerrainType)
    requires
        y < h <= MAX_SIDE,
    ensures
        r == mountain_kind(e as int, y as int, h as int),
{
    if e > 800 {
        TerrainType::Snow
    } else if e > 600 {
        TerrainType::Rock
    } else if e > 400 {
        TerrainType::Grass
    } else if e > 200 {
        if (y as u64) * 10 < (h as u64) * 3 {
            TerrainType::Coast
        } else {
            TerrainType::Soil
        }
    } else {
        TerrainType::Coast
    }
}

/// The baseline stability of a class.
pub fn stability_of(kind: TerrainType) -> (r: u32)
    ensures
        r == baseline_stability(kind),
{
    match kind {
        TerrainType::Rock => 900,
        TerrainType::Coast => 700,
        TerrainType::Soil => 800,
        TerrainType::Grass => 800,
        _ => 600,
    }
}

/// The tile that `theme` gives a tile of height `e` in row `y` of `h`, for
/// the roll `roll`.
pub fn classify(theme: Theme, e: u32, y: usize, h: usize, roll: u32) -> (r: TerrainData)
    requires
        e <= UNIT,
        y < h <= MAX_SIDE,
        roll < CHANCE_SCALE,
    ensures
        r@ == classified(theme, e as int, y as int, h as int, roll as int),
        tile_valid(r@),
{
    match theme {
        Theme::Mountain => {
            let kind = mountain_kind_of(e, y, h);
            let v = e * 4 / 5 + roll * 3 / 10;
            let slope = if v > UNIT { UNIT } else { v };
            TerrainData::flat(kind, slope, stability_of(kind))
        },
        Theme::Coastal => {
            if e < 200 {
                TerrainData::flat(TerrainType::Coast, 50, 900)
            } else if e < 500 {
                TerrainData::climb(TerrainType::Rock, 400, 700, 3000 + roll * 3, Vec::new())
            } else {
                let r = TerrainData::climb(
                    TerrainType::Snow,
                    600,
                    600,
                    5000 + roll * 3,
                    vec![Gear::Rope, Gear::Pitons],
                );
                assert(r@.gear =~= seq![Gear::Rope, Gear::Pitons]);
                r
            }
        },
        Theme::Volcanic => {
            if e < 200 {
                TerrainData::flat(TerrainType::Rock, 200, 800)
            } else if e < 600 {
                TerrainData::climb(TerrainType::Rock, 500, 600, 4000 + roll * 3, Vec::new())
            } else {
                TerrainData::climb(TerrainType::Snow, 700, 500, 6000 + roll * 3, Vec::new())
            }
        },
    }
}

/// `t` is what `theme` gives a tile of height `e` in row `y` of `h` for some
/// roll.
pub open spec fn classified_possible(theme: Theme, e: int, y: int, h: int, t: TileView) -> bool {
    exists|roll: int| 0 <= roll < CHANCE_SCALE && t == classified(theme, e, y, h, roll)
}

/// The grid that `theme` makes of the height field `f`, with a fresh roll for
/// every tile.
pub fn classify_field(theme: Theme, f: &Vec<Vec<u32>>, w: usize, h: usize, rng: &mut RandomSource) -> (g:
    Vec<Vec<TerrainData>>)
    requires
        field_shaped(f@, w as nat, h as nat),
        field_bounded(f@),
        h <= MAX_SIDE,
    ensures
        grid_shaped(g@, w as nat, h as nat),
        grid_valid(g@),
        forall|y: int, x: int|
            0 <= y < h && 0 <= x < w ==> classified_possible(
                theme,
                f@[y]@[x] as int,
                y,
                h as int,
                #[trigger] tile_at(g@, x, y),
            ),
{
    let mut g: Vec<Vec<TerrainData>> = Vec::new();
    let mut y: usize = 0;
    while y < h
        invariant
            y <= h <= MAX_SIDE,
            field_shaped(f@, w as nat, h as nat),
            field_bounded(f@),
            grid_shaped(g@, w as nat, y as nat),
            grid_valid(g@),
            forall|j: int, x: int|
                0 <= j < y && 0 <= x < w ==> classified_possible(
                    theme,
                    f@[j]@[x] as int,
                    j,
                    h as int,
                    #[trigger] tile_at(g@, x, j),
                ),
        decreases h - y,
    {
        let mut row: Vec<TerrainData> = Vec::new();
        let mut x: usize = 0;
        while x < w
            invariant
                x <= w,
                y < h <= MAX_SIDE,
                field_shaped(f@, w as nat, h as nat),
                field_bounded(f@),
                row@.len() == x,
                forall|i: int| 0 <= i < x ==> tile_valid((#[trigger] row@[i])@),
                forall|i: int|
                    0 <= i < x ==> classified_possible(
                        theme,
                        f@[y as int]@[i] as int,
                        y as int,
                        h as int,
                        (#[trigger] row@[i])@,
                    ),
            decreases w - x,
        {
            let roll = rng.roll();
            let e = f[y][x];
            let t = classify(theme, e, y, h, roll);
            assert(classified_possible(theme, e as int, y as int, h as int, t@));
            row.push(t);
            x = x + 1;
        }
        let ghost before = g@;
        let ghost last = row@;
        g.push(row);
        assert forall|j: int, x: int| 0 <= j < g@.len() && 0 <= x < g@[j]@.len() implies tile_valid(
            (#[trigger] g@[j]@[x])@,
        ) by {
            if j < y {
                assert(g@[j] == before[j]);
            } else {
                assert(g@[j]@ == last);
            }
        }
        assert forall|j: int, x: int| 0 <= j < y + 1 && 0 <= x < w implies classified_possible(
            theme,
            f@[j]@[x] as int,
            j,
            h as int,
            #[trigger] tile_at(g@, x, j),
        ) by {
            if j < y {
                assert(g@[j] == before[j]);
                assert(tile_at(before, x, j) == tile_at(g@, x, j));
            } else {
                assert(g@[j]@ == last);
                assert(classified_possible(theme, f@[j]@[x] as int, j, h as int, last[x]@));
            }
        }
        y = y + 1;
    }
    g
}

} // verus!
