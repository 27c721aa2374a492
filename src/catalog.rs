use vstd::prelude::*;
use vstd::string::StringExecFns;
use crate::terrain::{Gear, TerrainData, TerrainType, TileView, flat_view, climb_view, tile_valid};
use crate::grid::{tile_at, filled_grid};
use crate::level::{LevelDefinition, WeatherConditions, level_valid, paint_rect};
use crate::population::{WildlifeSpawn, NPCSpawn, ItemSpawn};

verus! {

/// The tile at `(x, y)` of the tutorial level: a block of rock to climb in a
/// field of soil, crossed by a band of ice.
pub open spec fn tutorial_tile(x: int, y: int) -> TileView {
    if y == 10 && 10 <= x < 14 {
        climb_view(TerrainType::Ice, 800, 600, 2000, seq![Gear::IceAxe])
    } else if 5 <= y < 12 && 8 <= x < 12 {
        climb_view(TerrainType::Rock, 600, 800, 1000, seq![])
    } else {
        flat_view(TerrainType::Soil, 0, 1000)
    }
}

/// The tile at `(x, y)` of the glacier level: an ice sheet in a field of
/// snow, split by a line of crevasses.
pub open spec fn glacier_tile(x: int, y: int) -> TileView {
    if y == 15 && 12 <= x < 18 {
        climb_view(TerrainType::Ice, 1000, 100, 5000, seq![Gear::Rope, Gear::Harness])
    } else if 10 <= y < 20 && 5 <= x < 25 {
        climb_view(TerrainType::Ice, 900, 500, 4000, seq![Gear::IceAxe, Gear::Crampons])
    } else {
        flat_view(TerrainType::Snow, 200, 700)
    }
}

/// The hand-built level that introduces climbing.
pub fn create_tutorial_level() -> (l: LevelDefinition)
    ensures
        level_valid(l),
        l.width == 20,
        l.height == 15,
        forall|x: int, y: int| 0 <= x < 20 && 0 <= y < 15 ==> #[trigger] tile_at(l.terrain@, x, y) == tutorial_tile(x, y),
        l.start_position == (2usize, 2usize),
        l.goal_positions@ == seq![(15usize, 12usize)],
        l.id@ == "tutorial_01"@,
        l.name@ == "First Steps"@,
        l.description@ == "A gentle introduction to mountain climbing"@,
        l.weather_conditions.base_temperature == 10,
        l.weather_conditions.wind_speed == 5,
        l.weather_conditions.weather_type@ == "clear"@,
        l.wildlife_spawns@.len() == 1,
        l.wildlife_spawns@[0].species@ == "sheep"@,
        l.wildlife_spawns@[0].position == (100u64, 150u64),
        l.wildlife_spawns@[0].aggression == 0,
        l.npc_spawns@.len() == 1,
        l.npc_spawns@[0].name@ == "Erik the Guide"@,
        l.npc_spawns@[0].npc_type@ == "guide"@,
        l.npc_spawns@[0].position == (150u64, 100u64),
        l.npc_spawns@[0].dialogue_file@ == "erik_guide.ron"@,
        l.items@.len() == 1,
        l.items@[0].item_id@ == "rope"@,
        l.items@[0].position == (200u64, 80u64),
        l.items@[0].quantity == 1,
{
    let width: usize = 20;
    let height: usize = 15;
    let soil = TerrainData::flat(TerrainType::Soil, 0, 1000);
    let mut terrain = filled_grid(width, height, &soil);
    let rock = TerrainData::climb(TerrainType::Rock, 600, 800, 1000, Vec::new());
    paint_rect(&mut terrain, width, height, 8, 12, 5, 12, &rock);
    let ice = TerrainData::climb(TerrainType::Ice, 800, 600, 2000, vec![Gear::IceAxe]);
    assert(ice@.gear =~= seq![Gear::IceAxe]);
    paint_rect(&mut terrain, width, height, 10, 14, 10, 11, &ice);
    assert(rock@.gear =~= seq![]);
    assert forall|y: int, x: int|
        0 <= y < terrain@.len() && 0 <= x < terrain@[y]@.len() implies tile_valid((#[trigger] terrain@[y]@[x])@) by {
        assert(tile_at(terrain@, x, y) == tutorial_tile(x, y));
    }
    let goals = vec![(15usize, 12usize)];
    assert(goals@ =~= seq![(15usize, 12usize)]);
    let l = LevelDefinition {
        id: String::from_str("tutorial_01"),
        name: String::from_str("First Steps"),
        description: String::from_str("A gentle introduction to mountain climbing"),
        width,
        height,
        terrain,
        start_position: (2, 2),
        goal_positions: goals,
        weather_conditions: WeatherConditions {
            base_temperature: 10,
            wind_speed: 5,
            weather_type: String::from_str("clear"),
        },
        wildlife_spawns: vec![
            WildlifeSpawn { species: String::from_str("sheep"), position: (100, 150), aggression: 0 },
        ],
        npc_spawns: vec![
            NPCSpawn {
                name: String::from_str("Erik the Guide"),
                npc_type: String::from_str("guide"),
                position: (150, 100),
                dialogue_file: String::from_str("erik_guide.ron"),
            },
        ],
        items: vec![ItemSpawn { item_id: String::from_str("rope"), position: (200, 80), quantity: 1 }],
    };
    l
}

/// The hand-built glacier level.
pub fn create_iceland_glacier_level() -> (l: LevelDefinition)
    ensures
        level_valid(l),
        l.width == 30,
        l.height == 25,
        forall|x: int, y: int| 0 <= x < 30 && 0 <= y < 25 ==> #[trigger] tile_at(l.terrain@, x, y) == glacier_tile(x, y),
        l.start_position == (2usize, 5usize),
        l.goal_positions@ == seq![(25usize, 22usize)],
        l.id@ == "iceland_glacier_01"@,
        l.name@ == "Vatnajökull Challenge"@,
        l.description@ == "Scale the mighty Icelandic glacier with proper gear and Viking courage"@,
        l.weather_conditions.base_temperature == -15,
        l.weather_conditions.wind_speed == 25,
        l.weather_conditions.weather_type@ == "blizzard"@,
        l.wildlife_spawns@.len() == 2,
        l.wildlife_spawns@[0].species@ == "wolf"@,
        l.wildlife_spawns@[0].position == (300u64, 200u64),
        l.wildlife_spawns@[0].aggression == 700,
        l.wildlife_spawns@[1].species@ == "horse"@,
        l.wildlife_spawns@[1].position == (100u64, 100u64),
        l.wildlife_spawns@[1].aggression == 0,
        l.npc_spawns@.len() == 2,
        l.npc_spawns@[0].name@ == "Björn the Viking"@,
        l.npc_spawns@[0].npc_type@ == "viking"@,
        l.npc_spawns@[0].position == (400u64, 150u64),
        l.npc_spawns@[0].dialogue_file@ == "bjorn_viking.ron"@,
        l.npc_spawns@[1].name@ == "Freydis the Mage"@,
        l.npc_spawns@[1].npc_type@ == "mage"@,
        l.npc_spawns@[1].position == (500u64, 300u64),
        l.npc_spawns@[1].dialogue_file@ == "freydis_mage.ron"@,
        l.items@.len() == 2,
        l.items@[0].item_id@ == "warm_cloak"@,
        l.items@[0].position == (250u64, 180u64),
        l.items@[0].quantity == 1,
        l.items@[1].item_id@ == "rune_stone"@,
        l.items@[1].position == (450u64, 250u64),
        l.items@[1].quantity == 1,
{
    let width: usize = 30;
    let height: usize = 25;
    let snow = TerrainData::flat(TerrainType::Snow, 200, 700);
    let mut terrain = filled_grid(width, height, &snow);
    let sheet = TerrainData::climb(TerrainType::Ice, 900, 500, 4000, vec![Gear::IceAxe, Gear::Crampons]);
    assert(sheet@.gear =~= seq![Gear::IceAxe, Gear::Crampons]);
    paint_rect(&mut terrain, width, height, 5, 25, 10, 20, &sheet);
    let crevasse = TerrainData::climb(TerrainType::Ice, 1000, 100, 5000, vec![Gear::Rope, Gear::Harness]);
    assert(crevasse@.gear =~= seq![Gear::Rope, Gear::Harness]);
    paint_rect(&mut terrain, width, height, 12, 18, 15, 16, &crevasse);
    assert forall|y: int, x: int|
        0 <= y < terrain@.len() && 0 <= x < terrain@[y]@.len() implies tile_valid((#[trigger] terrain@[y]@[x])@) by {
        assert(tile_at(terrain@, x, y) == glacier_tile(x, y));
    }
    let goals = vec![(25usize, 22usize)];
    assert(goals@ =~= seq![(25usize, 22usize)]);
    let l = LevelDefinition {
        id: String::from_str("iceland_glacier_01"),
        name: String::from_str("Vatnajökull Challenge"),
        description: String::from_str(
            "Scale the mighty Icelandic glacier with proper gear and Viking courage",
        ),
        width,
        height,
        terrain,
        start_position: (2, 5),
        goal_positions: goals,
        weather_conditions: WeatherConditions {
            base_temperature: -15,
            wind_speed: 25,
            weather_type: String::from_str("blizzard"),
        },
        wildlife_spawns: vec![
            WildlifeSpawn { species: String::from_str("wolf"), position: (300, 200), aggression: 700 },
            WildlifeSpawn { species: String::from_str("horse"), position: (100, 100), aggression: 0 },
        ],
        npc_spawns: vec![
            NPCSpawn {
                name: String::from_str("Björn the Viking"),
                npc_type: String::from_str("viking"),
                position: (400, 150),
                dialogue_file: String::from_str("bjorn_viking.ron"),
            },
            NPCSpawn {
                name: String::from_str("Freydis the Mage"),
                npc_type: String::from_str("mage"),
                position: (500, 300),
                dialogue_file: String::from_str("freydis_mage.ron"),
            },
        ],
        items: vec![
            ItemSpawn { item_id: String::from_str("warm_cloak"), position: (250, 180), quantity: 1 },
            ItemSpawn { item_id: String::from_str("rune_stone"), position: (450, 250), quantity: 1 },
        ],
    };
    l
}

} // verus!
