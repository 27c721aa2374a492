use vstd::prelude::*;
use vstd::string::StringExecFns;
use crate::random::RandomSource;
use crate::terrain::{TerrainData, TerrainType, TileView, UNIT};
use crate::random::CHANCE_SCALE;
use crate::elevation::{mountain_possible, coastal_possible, peaks_valid, volcanic_height};
use crate::features::in_region;
use crate::grid::{grid_shaped, grid_valid, tile_at, MAX_SIDE};
use crate::elevation::{generate_elevation_map, generate_coastal_elevation, generate_volcanic_elevation};
use crate::classify::{Theme, classify_field, classified_possible, classified};
use crate::passes::{Pass, passes_of, theme_passes, apply_pass, pass_mark, pass_result, glacier_core, lemma_mark_kind};
use crate::spawns::{
    generate_wildlife, generate_npcs, generate_items, theme_animal, theme_npc, theme_item, animal_count_ok,
    npc_count_ok, item_count_ok, herds_at, crews_at,
};
use crate::level::{LevelDefinition, LevelError, WeatherConditions, level_valid};

verus! {

/// `w` by `h` is a size that generation accepts.
pub open spec fn size_supported(w: int, h: int) -> bool {
    0 < w <= MAX_SIDE && 0 < h <= MAX_SIDE
}

/// `e` is a height that the theme's height field can give tile `(x, y)` of
/// a `w` by `h` map.
pub open spec fn height_possible(theme: Theme, x: int, y: int, w: int, h: int, e: int) -> bool {
    match theme {
        Theme::Mountain => mountain_possible(x, y, w, h, e),
        Theme::Coastal => coastal_possible(x, w, e),
        Theme::Volcanic => exists|peaks: Seq<(usize, usize, u32)>|
            #[trigger] peaks_valid(peaks, w, h) && e == volcanic_height(peaks, x, y),
    }
}

/// A tile that the theme can leave at `(x, y)` of a `w` by `h` map: the
/// classified tile of a height that the theme's field can give that place,
/// or a tile that one of the theme's passes writes.
pub open spec fn theme_tile(theme: Theme, x: int, y: int, w: int, h: int, t: TileView) -> bool {
    ||| exists|e: int| #[trigger] height_possible(theme, x, y, w, h, e) && classified_possible(theme, e, y, h, t)
    ||| exists|i: int| 0 <= i < theme_passes(theme).len() && pass_mark(#[trigger] theme_passes(theme)[i], t)
}

/// The glacier's core holds only glacier, lava or rock, and glacier lies
/// nowhere else.
pub open spec fn glacier_kept(g: Seq<Vec<TerrainData>>, w: int, h: int) -> bool {
    forall|x: int, y: int|
        0 <= x < w && 0 <= y < h ==> {
            let t = #[trigger] tile_at(g, x, y);
            &&& in_region(glacier_core(w, h), x, y) ==> t.kind == TerrainType::Glacier || t.kind
                == TerrainType::Lava || t.kind == TerrainType::Rock
            &&& t.kind == TerrainType::Glacier ==> in_region(glacier_core(w, h), x, y)
        }
}

/// The terrain of the theme: its height field, classified, then overlaid by
/// its passes in order.
pub fn generate_terrain(theme: Theme, w: usize, h: usize, rng: &mut RandomSource) -> (g: Vec<Vec<TerrainData>>)
    requires
        size_supported(w as int, h as int),
    ensures
        grid_shaped(g@, w as nat, h as nat),
        grid_valid(g@),
        forall|x: int, y: int|
            0 <= x < w && 0 <= y < h ==> theme_tile(theme, x, y, w as int, h as int, #[trigger] tile_at(g@, x, y)),
        theme == Theme::Mountain ==> glacier_kept(g@, w as int, h as int),
{
    let f = match theme {
        Theme::Mountain => generate_elevation_map(w, h, rng),
        Theme::Coastal => generate_coastal_elevation(w, h, rng),
        Theme::Volcanic => generate_volcanic_elevation(w, h, rng),
    };
    let mut g = classify_field(theme, &f, w, h, rng);
    assert forall|x: int, y: int| 0 <= x < w && 0 <= y < h implies theme_tile(
        theme,
        x,
        y,
        w as int,
        h as int,
        #[trigger] tile_at(g@, x, y),
    ) by {
        let e = f@[y]@[x] as int;
        assert(classified_possible(theme, e, y, h as int, tile_at(g@, x, y)));
        if theme == Theme::Volcanic {
            let peaks = choose|peaks: Seq<(usize, usize, u32)>|
                #[trigger] peaks_valid(peaks, w as int, h as int) && forall|i: int, j: int|
                    0 <= i < w && 0 <= j < h ==> #[trigger] f@[j]@[i] as int == volcanic_height(peaks, i, j);
            assert(e == volcanic_height(peaks, x, y));
        }
        assert(height_possible(theme, x, y, w as int, h as int, e));
    }
    assert forall|x: int, y: int| 0 <= x < w && 0 <= y < h && theme == Theme::Mountain implies (#[trigger] tile_at(
        g@,
        x,
        y,
    )).kind != TerrainType::Glacier by {
        let e = f@[y]@[x] as int;
        let t = tile_at(g@, x, y);
        assert(classified_possible(theme, e, y, h as int, t));
        let roll = choose|roll: int| 0 <= roll < CHANCE_SCALE && t == classified(theme, e, y, h as int, roll);
        assert(t == classified(theme, e, y, h as int, roll));
    }
    let passes = passes_of(theme);
    let mut k: usize = 0;
    while k < passes.len()
        invariant
            size_supported(w as int, h as int),
            passes@ == theme_passes(theme),
            k <= passes@.len(),
            grid_shaped(g@, w as nat, h as nat),
            grid_valid(g@),
            forall|x: int, y: int|
                0 <= x < w && 0 <= y < h ==> theme_tile(theme, x, y, w as int, h as int, #[trigger] tile_at(g@, x, y)),
            theme == Theme::Mountain && k == 0 ==> forall|x: int, y: int|
                0 <= x < w && 0 <= y < h ==> (#[trigger] tile_at(g@, x, y)).kind != TerrainType::Glacier,
            theme == Theme::Mountain && k >= 1 ==> glacier_kept(g@, w as int, h as int),
        decreases passes@.len() - k,
    {
        let p = passes[k];
        let ghost before = g@;
        apply_pass(&mut g, w, h, p, rng);
        assert forall|x: int, y: int| 0 <= x < w && 0 <= y < h implies theme_tile(
            theme,
            x,
            y,
            w as int,
            h as int,
            #[trigger] tile_at(g@, x, y),
        ) by {
            assert(pass_result(p, before, g@, w as nat, h as nat));
            assert(tile_at(g@, x, y) == tile_at(before, x, y) || pass_mark(p, tile_at(g@, x, y)));
            if tile_at(g@, x, y) != tile_at(before, x, y) {
                assert(theme_passes(theme)[k as int] == p);
            } else {
                assert(theme_tile(theme, x, y, w as int, h as int, tile_at(before, x, y)));
            }
        }
        if theme == Theme::Mountain {
            assert forall|x: int, y: int| 0 <= x < w && 0 <= y < h implies {
                let t = #[trigger] tile_at(g@, x, y);
                &&& in_region(glacier_core(w as int, h as int), x, y) ==> t.kind == TerrainType::Glacier || t.kind
                    == TerrainType::Lava || t.kind == TerrainType::Rock
                &&& t.kind == TerrainType::Glacier ==> in_region(glacier_core(w as int, h as int), x, y)
            } by {
                let t = tile_at(g@, x, y);
                let o = tile_at(before, x, y);
                if k == 0 {
                    assert(p == Pass::Glacier);
                    assert(o.kind != TerrainType::Glacier);
                } else {
                    assert(p != Pass::Glacier && p != Pass::LavaFlows && p != Pass::SeaCliffs && p
                        != Pass::VolcanicPeaks);
                    assert(t == o || pass_mark(p, t));
                    if t != o {
                        lemma_mark_kind(p, t);
                    } else {
                        assert(glacier_kept(before, w as int, h as int));
                        assert(o == tile_at(before, x, y));
                    }
                }
            }
        }
        k = k + 1;
    }
    g
}

/// Where the theme starts the player on a `w` by `h` map.
pub open spec fn theme_start(theme: Theme, w: int, h: int) -> (usize, usize) {
    match theme {
        Theme::Mountain => ((w / 8) as usize, (if h >= 20 { h - 20 } else { 0 }) as usize),
        Theme::Coastal => ((if w > 5 { 5 } else { w - 1 }) as usize, (if h >= 10 { h - 10 } else { 0 }) as usize),
        Theme::Volcanic => ((if w > 20 { 20 } else { w - 1 }) as usize, (if h >= 30 { h - 30 } else { 0 }) as usize),
    }
}

/// The goal that the theme sets on a `w` by `h` map.
pub open spec fn theme_goal(theme: Theme, w: int, h: int) -> (usize, usize) {
    match theme {
        Theme::Mountain => ((w * 3 / 4) as usize, (h / 6) as usize),
        Theme::Coastal => ((if w >= 10 { w - 10 } else { 0 }) as usize, (h / 4) as usize),
        Theme::Volcanic => ((w / 2) as usize, (if h > 30 { 30 } else { h - 1 }) as usize),
    }
}

fn start_of(theme: Theme, w: usize, h: usize) -> (r: (usize, usize))
    requires
        size_supported(w as int, h as int),
    ensures
        r == theme_start(theme, w as int, h as int),
{
    match theme {
        Theme::Mountain => (w / 8, h.saturating_sub(20)),
        Theme::Coastal => (if w > 5 { 5 } else { w - 1 }, h.saturating_sub(10)),
        Theme::Volcanic => (if w > 20 { 20 } else { w - 1 }, h.saturating_sub(30)),
    }
}

fn goal_of(theme: Theme, w: usize, h: usize) -> (r: (usize, usize))
    requires
        size_supported(w as int, h as int),
    ensures
        r == theme_goal(theme, w as int, h as int),
{
    match theme {
        Theme::Mountain => (w * 3 / 4, h / 6),
        Theme::Coastal => (w.saturating_sub(10), h / 4),
        Theme::Volcanic => (w / 2, if h > 30 { 30 } else { h - 1 }),
    }
}

/// The identifier, name and description of the theme's level.
pub open spec fn theme_labels(theme: Theme) -> (Seq<char>, Seq<char>, Seq<char>) {
    match theme {
        Theme::Mountain => (
            "large_mountain_01"@,
            "Great Mountain Range"@,
            "A vast mountainous region with glaciers, lava fields, coastal areas, and varied terrain for advanced climbing challenges."@,
        ),
        Theme::Coastal => (
            "coastal_cliffs_01"@,
            "Dramatic Coastal Cliffs"@,
            "Towering sea cliffs with challenging rock climbing routes and stunning coastal vistas."@,
        ),
        Theme::Volcanic => (
            "volcanic_peaks_01"@,
            "Ancient Volcanic Peaks"@,
            "Challenging volcanic landscape with active lava flows, ash fields, and treacherous volcanic summits."@,
        ),
    }
}

/// The temperature, wind speed and weather label of the theme's level.
pub open spec fn theme_weather(theme: Theme) -> (int, int, Seq<char>) {
    match theme {
        Theme::Mountain => (-5, 35, "harsh_wind"@),
        Theme::Coastal => (8, 25, "ocean_winds"@),
        Theme::Volcanic => (18, 12, "volcanic_ash"@),
    }
}

/// The level keeps every invariant and is what the theme makes of a `w` by
/// `h` map: its start and goal, tiles of the theme, and spawns of the theme
/// in the theme's numbers.
pub open spec fn theme_level(theme: Theme, w: int, h: int, l: LevelDefinition) -> bool {
    &&& level_valid(l)
    &&& (l.id@, l.name@, l.description@) == theme_labels(theme)
    &&& (l.weather_conditions.base_temperature as int, l.weather_conditions.wind_speed as int, l.weather_conditions.weather_type@)
        == theme_weather(theme)
    &&& l.width == w
    &&& l.height == h
    &&& l.start_position == theme_start(theme, w, h)
    &&& l.goal_positions@ == seq![theme_goal(theme, w, h)]
    &&& forall|x: int, y: int| 0 <= x < w && 0 <= y < h ==> theme_tile(theme, x, y, w, h, #[trigger] tile_at(l.terrain@, x, y))
    &&& theme == Theme::Mountain ==> glacier_kept(l.terrain@, w, h)
    &&& theme == Theme::Mountain ==> exists|a: int, b: int| #[trigger] herds_at(l.wildlife_spawns@, w, h, a, b)
    &&& theme == Theme::Mountain ==> exists|a: int| #[trigger] crews_at(l.npc_spawns@, w, h, a)
    &&& animal_count_ok(theme, l.wildlife_spawns@.len() as int)
    &&& forall|i: int| 0 <= i < l.wildlife_spawns@.len() ==> theme_animal(theme, w, h, #[trigger] l.wildlife_spawns@[i])
    &&& npc_count_ok(theme, l.npc_spawns@.len() as int)
    &&& forall|i: int| 0 <= i < l.npc_spawns@.len() ==> theme_npc(theme, w, h, #[trigger] l.npc_spawns@[i])
    &&& item_count_ok(theme, l.items@.len() as int)
    &&& forall|i: int| 0 <= i < l.items@.len() ==> theme_item(theme, w, h, #[trigger] l.items@[i])
}

/// A procedurally generated level of the theme on a `w` by `h` map; an
/// `InvalidDimensions` error for an empty or oversized map.
pub fn generate_level(theme: Theme, w: usize, h: usize, rng: &mut RandomSource) -> (r: Result<
    LevelDefinition,
    LevelError,
>)
    ensures
        r is Ok <==> size_supported(w as int, h as int),
        r is Err ==> r == Err::<LevelDefinition, LevelError>(LevelError::InvalidDimensions),
        r is Ok ==> theme_level(theme, w as int, h as int, r->Ok_0),
{
    if w == 0 || h == 0 || w > MAX_SIDE || h > MAX_SIDE {
        Err(LevelError::InvalidDimensions)
    } else {
        Ok(build_level(theme, w, h, rng))
    }
}

/// A procedurally generated level of the theme on a `w` by `h` map.
pub fn build_level(theme: Theme, w: usize, h: usize, rng: &mut RandomSource) -> (l: LevelDefinition)
    requires
        size_supported(w as int, h as int),
    ensures
        theme_level(theme, w as int, h as int, l),
{
    let terrain = generate_terrain(theme, w, h, rng);
    let wildlife_spawns = generate_wildlife(theme, w, h, rng);
    let npc_spawns = generate_npcs(theme, w, h, rng);
    let items = generate_items(theme, w, h, rng);
    let ghost ws = wildlife_spawns@;
    let ghost ns = npc_spawns@;
    let goals = vec![goal_of(theme, w, h)];
    assert(goals@ =~= seq![theme_goal(theme, w as int, h as int)]);
    let (id, name, description, weather) = match theme {
        Theme::Mountain => (
            "large_mountain_01",
            "Great Mountain Range",
            "A vast mountainous region with glaciers, lava fields, coastal areas, and varied terrain for advanced climbing challenges.",
            WeatherConditions {
                base_temperature: -5,
                wind_speed: 35,
                weather_type: String::from_str("harsh_wind"),
            },
        ),
        Theme::Coastal => (
            "coastal_cliffs_01",
            "Dramatic Coastal Cliffs",
            "Towering sea cliffs with challenging rock climbing routes and stunning coastal vistas.",
            WeatherConditions {
                base_temperature: 8,
                wind_speed: 25,
                weather_type: String::from_str("ocean_winds"),
            },
        ),
        Theme::Volcanic => (
            "volcanic_peaks_01",
            "Ancient Volcanic Peaks",
            "Challenging volcanic landscape with active lava flows, ash fields, and treacherous volcanic summits.",
            WeatherConditions {
                base_temperature: 18,
                wind_speed: 12,
                weather_type: String::from_str("volcanic_ash"),
            },
        ),
    };
    let l = LevelDefinition {
        id: String::from_str(id),
        name: String::from_str(name),
        description: String::from_str(description),
        width: w,
        height: h,
        terrain,
        start_position: start_of(theme, w, h),
        goal_positions: goals,
        weather_conditions: weather,
        wildlife_spawns,
        npc_spawns,
        items,
    };
    assert forall|i: int| 0 <= i < l.wildlife_spawns@.len() implies (#[trigger] l.wildlife_spawns@[i]).aggression <= UNIT by {
        assert(theme_animal(theme, w as int, h as int, l.wildlife_spawns@[i]));
    }
    assert forall|i: int| 0 <= i < l.items@.len() implies (#[trigger] l.items@[i]).quantity >= 1 by {
        assert(theme_item(theme, w as int, h as int, l.items@[i]));
    }
    if theme == Theme::Mountain {
        proof {
            let (a, b) = choose|a: int, b: int| #[trigger] herds_at(ws, w as int, h as int, a, b);
            assert(herds_at(l.wildlife_spawns@, w as int, h as int, a, b));
            let c = choose|c: int| #[trigger] crews_at(ns, w as int, h as int, c);
            assert(crews_at(l.npc_spawns@, w as int, h as int, c));
        }
    }
    l
}

/// The 200 by 150 mountain level, from a freshly seeded source.
pub fn create_large_mountain_level() -> (l: LevelDefinition)
    ensures
        theme_level(Theme::Mountain, 200, 150, l),
{
    let mut rng = RandomSource::from_entropy();
    build_level(Theme::Mountain, 200, 150, &mut rng)
}

/// The 180 by 120 coastal level, from a freshly seeded source.
pub fn create_coastal_cliffs_level() -> (l: LevelDefinition)
    ensures
        theme_level(Theme::Coastal, 180, 120, l),
{
    let mut rng = RandomSource::from_entropy();
    build_level(Theme::Coastal, 180, 120, &mut rng)
}

/// The 220 by 180 volcanic level, from a freshly seeded source.
pub fn create_volcanic_peaks_level() -> (l: LevelDefinition)
    ensures
        theme_level(Theme::Volcanic, 220, 180, l),
{
    let mut rng = RandomSource::from_entropy();
    build_level(Theme::Volcanic, 220, 180, &mut rng)
}

} // verus!
