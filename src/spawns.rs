use vstd::prelude::*;
use crate::random::RandomSource;
use crate::grid::MAX_SIDE;
use crate::classify::Theme;
use crate::population::{
    WildlifeSpawn, NPCSpawn, ItemSpawn, Area, in_area, titled, pooled, wildlife_fits, npc_fits, item_fits,
    scatter_wildlife, scatter_npcs, scatter_items,
};

verus! {

/// The side of a tile in world units, in which spawns are placed.
pub const TILE_SIZE: u64 = 32;

/// A band of rows of a `w` by `h` map, from `lo` to `hi` tenths of its height,
/// in world units.
pub open spec fn world_band(w: int, h: int, lo: int, hi: int) -> Area {
    Area { x_lo: 0, x_hi: (w * 32) as u64, y_lo: (h * 32 * lo / 10) as u64, y_hi: (h * 32 * hi / 10) as u64 }
}

/// The band of rows from `lo` to `hi` tenths of the height, in world units.
fn band(w: usize, h: usize, lo: u64, hi: u64) -> (a: Area)
    requires
        0 < w <= MAX_SIDE,
        0 < h <= MAX_SIDE,
        lo < hi <= 10,
        hi - lo >= 2,
    ensures
        a == world_band(w as int, h as int, lo as int, hi as int),
        a.x_lo < a.x_hi,
        a.y_lo < a.y_hi,
{
    let side = (h as u64) * TILE_SIZE;
    assert(side * hi <= side * 10) by (nonlinear_arith)
        requires
            hi <= 10,
    ;
    assert(side * lo <= side * 10) by (nonlinear_arith)
        requires
            lo <= 10,
    ;
    assert(side * lo / 10 < side * hi / 10) by (nonlinear_arith)
        requires
            side >= 32,
            hi - lo >= 2,
    ;
    Area { x_lo: 0, x_hi: (w as u64) * TILE_SIZE, y_lo: side * lo / 10, y_hi: side * hi / 10 }
}

/// The part of a `w` by `h` map that lies `m` tiles or more from its
/// edges, along each axis where that leaves any, and the whole axis
/// otherwise; in world units.
pub open spec fn inner_area(w: int, h: int, m: int) -> Area {
    let xl = if w > 2 * m { m } else { 0 };
    let yl = if h > 2 * m { m } else { 0 };
    Area {
        x_lo: (xl * 32) as u64,
        x_hi: ((w - xl) * 32) as u64,
        y_lo: (yl * 32) as u64,
        y_hi: ((h - yl) * 32) as u64,
    }
}

/// The tiles at least `m` from the edges, along each axis where that
/// leaves any.
fn inner(w: usize, h: usize, m: usize) -> (a: Area)
    requires
        0 < w <= MAX_SIDE,
        0 < h <= MAX_SIDE,
        m <= MAX_SIDE,
    ensures
        a == inner_area(w as int, h as int, m as int),
        a.x_lo < a.x_hi,
        a.y_lo < a.y_hi,
{
    let xl = (if w > 2 * m { m } else { 0 }) as u64;
    let yl = (if h > 2 * m { m } else { 0 }) as u64;
    Area {
        x_lo: xl * TILE_SIZE,
        x_hi: (w as u64 - xl) * TILE_SIZE,
        y_lo: yl * TILE_SIZE,
        y_hi: (h as u64 - yl) * TILE_SIZE,
    }
}

/// The first names of the mountain's vikings.
pub open spec fn viking_names() -> Seq<&'static str> {
    seq!["Björn", "Erik", "Leif", "Ragnar", "Thorvald", "Gunnar"]
}

/// The first names of the mountain's wise women and seers.
pub open spec fn seer_names() -> Seq<&'static str> {
    seq!["Freydis", "Gudrun", "Astrid", "Ingrid", "Sigrid", "Helga"]
}

/// The items found on the mountain.
pub open spec fn mountain_items() -> Seq<&'static str> {
    seq![
        "warm_cloak",
        "ice_axe",
        "crampons",
        "rope",
        "climbing_gear",
        "energy_bar",
        "dried_food",
        "wool_gloves",
        "hiking_boots",
    ]
}

/// The animals of the coast.
pub open spec fn coastal_species() -> Seq<&'static str> {
    seq!["seagull", "seal", "puffin", "crab"]
}

/// The trades of the coast's people, which are also their names.
pub open spec fn coastal_roles() -> Seq<&'static str> {
    seq!["lighthouse_keeper", "fisherman", "coastal_guide"]
}

/// The items found on the coast.
pub open spec fn coastal_items() -> Seq<&'static str> {
    seq![
        "rope",
        "climbing_harness",
        "helmet",
        "first_aid_kit",
        "compass",
        "binoculars",
        "waterproof_jacket",
        "flare_gun",
    ]
}

/// The animals of the volcano.
pub open spec fn volcanic_species() -> Seq<&'static str> {
    seq!["volcanic_lizard", "fire_salamander", "mountain_goat"]
}

/// The trades of the volcano's people, which are also their names.
pub open spec fn volcanic_roles() -> Seq<&'static str> {
    seq!["volcanologist", "rescue_worker", "mountain_guide"]
}

/// The items found on the volcano.
pub open spec fn volcanic_items() -> Seq<&'static str> {
    seq![
        "heat_resistant_suit",
        "gas_mask",
        "temperature_sensor",
        "ice_axe",
        "rope",
        "climbing_harness",
        "emergency_beacon",
        "cooling_pack",
    ]
}

/// An animal that the theme can place on a `w` by `h` map.
pub open spec fn theme_animal(theme: Theme, w: int, h: int, s: WildlifeSpawn) -> bool {
    match theme {
        Theme::Mountain => {
            ||| wildlife_fits(s, seq!["horse"], world_band(w, h, 6, 10), 0, 1)
            ||| wildlife_fits(s, seq!["sheep"], world_band(w, h, 4, 9), 100, 101)
            ||| wildlife_fits(s, seq!["wolf"], world_band(w, h, 0, 5), 300, 301)
        },
        Theme::Coastal => wildlife_fits(s, coastal_species(), inner_area(w, h, 0), 0, 500),
        Theme::Volcanic => wildlife_fits(s, volcanic_species(), inner_area(w, h, 0), 300, 1000),
    }
}

/// The number of animals that the theme places.
pub open spec fn animal_count_ok(theme: Theme, n: int) -> bool {
    match theme {
        Theme::Mountain => 25 <= n <= 42,
        Theme::Coastal => 8 <= n < 15,
        Theme::Volcanic => 6 <= n < 12,
    }
}

/// The mountain's animals, split at `a` and `b`: 8 to 14 horses in the
/// lowlands, then 15 to 24 sheep on the grass, then 2 to 4 wolves in the
/// remote north.
pub open spec fn herds_at(r: Seq<WildlifeSpawn>, w: int, h: int, a: int, b: int) -> bool {
    &&& 8 <= a <= 14
    &&& 15 <= b - a <= 24
    &&& 2 <= r.len() - b <= 4
    &&& forall|i: int| 0 <= i < a ==> wildlife_fits(#[trigger] r[i], seq!["horse"], world_band(w, h, 6, 10), 0, 1)
    &&& forall|i: int| a <= i < b ==> wildlife_fits(#[trigger] r[i], seq!["sheep"], world_band(w, h, 4, 9), 100, 101)
    &&& forall|i: int| b <= i < r.len() ==> wildlife_fits(#[trigger] r[i], seq!["wolf"], world_band(w, h, 0, 5), 300, 301)
}

/// The animals of the theme on a `w` by `h` map: on the mountain, herds of
/// horses in the lowlands, sheep on the grass and a few wolves in the remote
/// north; by the coast, seabirds, seals and crabs; on the volcano, lizards,
/// salamanders and goats, all of them aggressive.
pub fn generate_wildlife(theme: Theme, w: usize, h: usize, rng: &mut RandomSource) -> (r: Vec<WildlifeSpawn>)
    requires
        0 < w <= MAX_SIDE,
        0 < h <= MAX_SIDE,
    ensures
        animal_count_ok(theme, r@.len() as int),
        forall|i: int| 0 <= i < r@.len() ==> theme_animal(theme, w as int, h as int, #[trigger] r@[i]),
        theme == Theme::Mountain ==> exists|a: int, b: int| #[trigger] herds_at(r@, w as int, h as int, a, b),
{
    let mut r: Vec<WildlifeSpawn> = Vec::new();
    match theme {
        Theme::Mountain => {
            let horse = vec!["horse"];
            let sheep = vec!["sheep"];
            let wolf = vec!["wolf"];
            assert(horse@ =~= seq!["horse"]);
            assert(sheep@ =~= seq!["sheep"]);
            assert(wolf@ =~= seq!["wolf"]);
            scatter_wildlife(&mut r, &horse, 8, 15, band(w, h, 6, 10), 0, 1, rng);
            let ghost a = r@;
            scatter_wildlife(&mut r, &sheep, 15, 25, band(w, h, 4, 9), 100, 101, rng);
            let ghost b = r@;
            scatter_wildlife(&mut r, &wolf, 2, 5, band(w, h, 0, 5), 300, 301, rng);
            assert forall|i: int| 0 <= i < r@.len() implies theme_animal(
                theme,
                w as int,
                h as int,
                #[trigger] r@[i],
            ) by {
                if i < a.len() {
                    assert(r@[i] == b.subrange(0, a.len() as int)[i]);
                } else if i < b.len() {
                    assert(r@[i] == r@.subrange(0, b.len() as int)[i]);
                }
            }
            assert forall|i: int| 0 <= i < a.len() implies wildlife_fits(
                #[trigger] r@[i],
                seq!["horse"],
                world_band(w as int, h as int, 6, 10),
                0,
                1,
            ) by {
                assert(r@[i] == b.subrange(0, a.len() as int)[i]);
            }
            assert forall|i: int| a.len() <= i < b.len() implies wildlife_fits(
                #[trigger] r@[i],
                seq!["sheep"],
                world_band(w as int, h as int, 4, 9),
                100,
                101,
            ) by {
                assert(r@[i] == r@.subrange(0, b.len() as int)[i]);
            }
            assert(herds_at(r@, w as int, h as int, a.len() as int, b.len() as int));
        },
        Theme::Coastal => {
            let pool = vec!["seagull", "seal", "puffin", "crab"];
            assert(pool@ =~= coastal_species());
            scatter_wildlife(&mut r, &pool, 8, 15, inner(w, h, 0), 0, 500, rng);
        },
        Theme::Volcanic => {
            let pool = vec!["volcanic_lizard", "fire_salamander", "mountain_goat"];
            assert(pool@ =~= volcanic_species());
            scatter_wildlife(&mut r, &pool, 6, 12, inner(w, h, 0), 300, 1000, rng);
        },
    }
    r
}

/// A character that the theme can place on a `w` by `h` map.
pub open spec fn theme_npc(theme: Theme, w: int, h: int, s: NPCSpawn) -> bool {
    match theme {
        Theme::Mountain => {
            ||| npc_fits(
                s,
                viking_names(),
                " the Bold"@,
                seer_names(),
                " the Wise"@,
                seq!["viking"],
                world_band(w, h, 5, 10),
                "mountain_viking.ron"@,
            )
            ||| npc_fits(
                s,
                seer_names(),
                " the Seer"@,
                seer_names(),
                " the Seer"@,
                seq!["mage"],
                world_band(w, h, 0, 4),
                "mountain_mage.ron"@,
            )
        },
        Theme::Coastal => npc_fits(
            s,
            coastal_roles(),
            ""@,
            coastal_roles(),
            ""@,
            coastal_roles(),
            inner_area(w, h, 10),
            "coastal_character.ron"@,
        ),
        Theme::Volcanic => npc_fits(
            s,
            volcanic_roles(),
            ""@,
            volcanic_roles(),
            ""@,
            volcanic_roles(),
            inner_area(w, h, 30),
            "volcanic_character.ron"@,
        ),
    }
}

/// The mountain's characters, split at `a`: 4 to 7 vikings, each a bold
/// man or a wise woman, then 2 or 3 seers in the remote north.
pub open spec fn crews_at(r: Seq<NPCSpawn>, w: int, h: int, a: int) -> bool {
    &&& 4 <= a <= 7
    &&& 2 <= r.len() - a <= 3
    &&& forall|i: int|
        0 <= i < a ==> npc_fits(
            #[trigger] r[i],
            viking_names(),
            " the Bold"@,
            seer_names(),
            " the Wise"@,
            seq!["viking"],
            world_band(w, h, 5, 10),
            "mountain_viking.ron"@,
        )
    &&& forall|i: int|
        a <= i < r.len() ==> npc_fits(
            #[trigger] r[i],
            seer_names(),
            " the Seer"@,
            seer_names(),
            " the Seer"@,
            seq!["mage"],
            world_band(w, h, 0, 4),
            "mountain_mage.ron"@,
        )
}

/// The number of characters that the theme places.
pub open spec fn npc_count_ok(theme: Theme, n: int) -> bool {
    match theme {
        Theme::Mountain => 6 <= n <= 10,
        Theme::Coastal => 2 <= n < 5,
        Theme::Volcanic => 2 <= n < 4,
    }
}

/// The characters of the theme on a `w` by `h` map: on the mountain, bold
/// vikings and wise women in the south and seers in the remote north; by the
/// coast and on the volcano, locals of the theme's trades, away from the
/// edges.
pub fn generate_npcs(theme: Theme, w: usize, h: usize, rng: &mut RandomSource) -> (r: Vec<NPCSpawn>)
    requires
        0 < w <= MAX_SIDE,
        0 < h <= MAX_SIDE,
    ensures
        npc_count_ok(theme, r@.len() as int),
        forall|i: int| 0 <= i < r@.len() ==> theme_npc(theme, w as int, h as int, #[trigger] r@[i]),
        theme == Theme::Mountain ==> exists|a: int| #[trigger] crews_at(r@, w as int, h as int, a),
{
    let mut r: Vec<NPCSpawn> = Vec::new();
    match theme {
        Theme::Mountain => {
            let vikings = vec!["Björn", "Erik", "Leif", "Ragnar", "Thorvald", "Gunnar"];
            let seers = vec!["Freydis", "Gudrun", "Astrid", "Ingrid", "Sigrid", "Helga"];
            let viking = vec!["viking"];
            let mage = vec!["mage"];
            assert(vikings@ =~= viking_names());
            assert(seers@ =~= seer_names());
            assert(viking@ =~= seq!["viking"]);
            assert(mage@ =~= seq!["mage"]);
            scatter_npcs(
                &mut r,
                &vikings,
                " the Bold",
                &seers,
                " the Wise",
                300,
                &viking,
                4,
                8,
                band(w, h, 5, 10),
                "mountain_viking.ron",
                rng,
            );
            let ghost a = r@;
            scatter_npcs(
                &mut r,
                &seers,
                " the Seer",
                &seers,
                " the Seer",
                0,
                &mage,
                2,
                4,
                band(w, h, 0, 4),
                "mountain_mage.ron",
                rng,
            );
            assert forall|i: int| 0 <= i < r@.len() implies theme_npc(
                theme,
                w as int,
                h as int,
                #[trigger] r@[i],
            ) by {
                if i < a.len() {
                    assert(r@[i] == r@.subrange(0, a.len() as int)[i]);
                }
            }
            assert forall|i: int| 0 <= i < a.len() implies npc_fits(
                #[trigger] r@[i],
                viking_names(),
                " the Bold"@,
                seer_names(),
                " the Wise"@,
                seq!["viking"],
                world_band(w as int, h as int, 5, 10),
                "mountain_viking.ron"@,
            ) by {
                assert(r@[i] == r@.subrange(0, a.len() as int)[i]);
            }
            assert(crews_at(r@, w as int, h as int, a.len() as int));
        },
        Theme::Coastal => {
            let roles = vec!["lighthouse_keeper", "fisherman", "coastal_guide"];
            assert(roles@ =~= coastal_roles());
            scatter_npcs(&mut r, &roles, "", &roles, "", 0, &roles, 2, 5, inner(w, h, 10), "coastal_character.ron", rng);
        },
        Theme::Volcanic => {
            let roles = vec!["volcanologist", "rescue_worker", "mountain_guide"];
            assert(roles@ =~= volcanic_roles());
            scatter_npcs(&mut r, &roles, "", &roles, "", 0, &roles, 2, 4, inner(w, h, 30), "volcanic_character.ron", rng);
        },
    }
    r
}

/// An item that the theme can place on a `w` by `h` map.
pub open spec fn theme_item(theme: Theme, w: int, h: int, s: ItemSpawn) -> bool {
    match theme {
        Theme::Mountain => item_fits(s, mountain_items(), world_band(w, h, 0, 10), 1, 2),
        Theme::Coastal => item_fits(s, coastal_items(), inner_area(w, h, 0), 1, 4),
        Theme::Volcanic => item_fits(s, volcanic_items(), inner_area(w, h, 0), 1, 3),
    }
}

/// The number of items that the theme places.
pub open spec fn item_count_ok(theme: Theme, n: int) -> bool {
    match theme {
        Theme::Mountain => 15 <= n < 25,
        Theme::Coastal => 15 <= n < 25,
        Theme::Volcanic => 12 <= n < 20,
    }
}

/// The items of the theme on a `w` by `h` map, scattered over the whole map:
/// single pieces of climbing kit on the mountain, small stacks by the coast
/// and on the volcano.
pub fn generate_items(theme: Theme, w: usize, h: usize, rng: &mut RandomSource) -> (r: Vec<ItemSpawn>)
    requires
        0 < w <= MAX_SIDE,
        0 < h <= MAX_SIDE,
    ensures
        item_count_ok(theme, r@.len() as int),
        forall|i: int| 0 <= i < r@.len() ==> theme_item(theme, w as int, h as int, #[trigger] r@[i]),
{
    let mut r: Vec<ItemSpawn> = Vec::new();
    match theme {
        Theme::Mountain => {
            let pool = vec![
                "warm_cloak",
                "ice_axe",
                "crampons",
                "rope",
                "climbing_gear",
                "energy_bar",
                "dried_food",
                "wool_gloves",
                "hiking_boots",
            ];
            assert(pool@ =~= mountain_items());
            scatter_items(&mut r, &pool, 15, 25, band(w, h, 0, 10), 1, 2, rng);
        },
        Theme::Coastal => {
            let pool = vec![
                "rope",
                "climbing_harness",
                "helmet",
                "first_aid_kit",
                "compass",
                "binoculars",
                "waterproof_jacket",
                "flare_gun",
            ];
            assert(pool@ =~= coastal_items());
            scatter_items(&mut r, &pool, 15, 25, inner(w, h, 0), 1, 4, rng);
        },
        Theme::Volcanic => {
            let pool = vec![
                "heat_resistant_suit",
                "gas_mask",
                "temperature_sensor",
                "ice_axe",
                "rope",
                "climbing_harness",
                "emergency_beacon",
                "cooling_pack",
            ];
            assert(pool@ =~= volcanic_items());
            scatter_items(&mut r, &pool, 12, 20, inner(w, h, 0), 1, 3, rng);
        },
    }
    r
}

} // verus!
