use climb_levels::catalog::{create_iceland_glacier_level, create_tutorial_level};
use climb_levels::level::{LevelDefinition, LevelError};
use climb_levels::terrain::{Gear, TerrainData, TerrainType};

fn tile(l: &LevelDefinition, x: usize, y: usize) -> &TerrainData {
    &l.terrain[y][x]
}

#[test]
fn tutorial_has_fixed_grid() {
    let l = create_tutorial_level();
    assert_eq!(l.id, "tutorial_01");
    assert_eq!(l.name, "First Steps");
    assert_eq!(l.width, 20);
    assert_eq!(l.height, 15);
    assert_eq!(l.terrain.len(), 15);
    assert!(l.terrain.iter().all(|row| row.len() == 20));
    assert_eq!(l.start_position, (2, 2));
    assert_eq!(l.goal_positions, vec![(15, 12)]);
    assert_eq!(l.validate(), Ok(()));
}

#[test]
fn tutorial_tiles_match_layout() {
    let l = create_tutorial_level();
    let soil = tile(&l, 0, 0);
    assert_eq!(soil.terrain_type, TerrainType::Soil);
    assert_eq!(soil.slope, 0);
    assert_eq!(soil.stability, 1000);
    assert!(!soil.climbable);
    assert_eq!(soil.climbing_difficulty, None);
    let rock = tile(&l, 8, 5);
    assert_eq!(rock.terrain_type, TerrainType::Rock);
    assert_eq!(rock.slope, 600);
    assert_eq!(rock.climbing_difficulty, Some(1000));
    assert!(rock.required_gear.is_empty());
    let ice = tile(&l, 13, 10);
    assert_eq!(ice.terrain_type, TerrainType::Ice);
    assert_eq!(ice.climbing_difficulty, Some(2000));
    assert_eq!(ice.required_gear, vec![Gear::IceAxe]);
    assert_eq!(tile(&l, 10, 10).terrain_type, TerrainType::Ice);
    assert_eq!(tile(&l, 11, 11).terrain_type, TerrainType::Rock);
    assert_eq!(tile(&l, 12, 11).terrain_type, TerrainType::Soil);
    assert_eq!(tile(&l, 14, 10).terrain_type, TerrainType::Soil);
}

#[test]
fn tutorial_spawns() {
    let l = create_tutorial_level();
    assert_eq!(l.wildlife_spawns.len(), 1);
    assert_eq!(l.wildlife_spawns[0].species, "sheep");
    assert_eq!(l.wildlife_spawns[0].position, (100, 150));
    assert_eq!(l.npc_spawns[0].name, "Erik the Guide");
    assert_eq!(l.npc_spawns[0].dialogue_file, "erik_guide.ron");
    assert_eq!(l.items[0].item_id, "rope");
    assert_eq!(l.items[0].quantity, 1);
    assert_eq!(l.weather_conditions.weather_type, "clear");
    assert_eq!(l.weather_conditions.base_temperature, 10);
}

#[test]
fn glacier_level_layout() {
    let l = create_iceland_glacier_level();
    assert_eq!((l.width, l.height), (30, 25));
    assert_eq!(l.validate(), Ok(()));
    assert_eq!(tile(&l, 0, 0).terrain_type, TerrainType::Snow);
    let sheet = tile(&l, 5, 10);
    assert_eq!(sheet.terrain_type, TerrainType::Ice);
    assert_eq!(sheet.climbing_difficulty, Some(4000));
    assert_eq!(sheet.required_gear, vec![Gear::IceAxe, Gear::Crampons]);
    let crevasse = tile(&l, 12, 15);
    assert_eq!(crevasse.stability, 100);
    assert_eq!(crevasse.required_gear, vec![Gear::Rope, Gear::Harness]);
    assert_eq!(tile(&l, 18, 15).stability, 500);
    assert_eq!(tile(&l, 25, 19).terrain_type, TerrainType::Snow);
    assert_eq!(l.weather_conditions.base_temperature, -15);
    assert_eq!(l.npc_spawns[0].name, "Björn the Viking");
    assert_eq!(l.items[1].item_id, "rune_stone");
}

#[test]
fn validate_rejects_short_row() {
    let mut l = create_tutorial_level();
    l.terrain[3].pop();
    assert_eq!(l.validate(), Err(LevelError::InvalidDimensions));
    let mut l = create_tutorial_level();
    l.terrain.pop();
    assert_eq!(l.checked().err(), Some(LevelError::InvalidDimensions));
    let mut l = create_tutorial_level();
    l.width = 0;
    assert_eq!(l.validate(), Err(LevelError::InvalidDimensions));
}

#[test]
fn validate_rejects_bad_content() {
    let mut l = create_tutorial_level();
    l.terrain[0][0].slope = 1001;
    assert_eq!(l.validate(), Err(LevelError::Parse));
    let mut l = create_tutorial_level();
    l.terrain[0][0].climbing_difficulty = Some(1000);
    assert_eq!(l.validate(), Err(LevelError::Parse));
    let mut l = create_tutorial_level();
    l.terrain[1][1].required_gear.push(Gear::Rope);
    assert_eq!(l.validate(), Err(LevelError::Parse));
    let mut l = create_tutorial_level();
    l.goal_positions.push((20, 0));
    assert_eq!(l.validate(), Err(LevelError::Parse));
    let mut l = create_tutorial_level();
    l.goal_positions.clear();
    assert_eq!(l.validate(), Err(LevelError::Parse));
    let mut l = create_tutorial_level();
    l.start_position = (0, 15);
    assert_eq!(l.validate(), Err(LevelError::Parse));
    let mut l = create_tutorial_level();
    l.wildlife_spawns[0].aggression = 1001;
    assert_eq!(l.validate(), Err(LevelError::Parse));
    let mut l = create_tutorial_level();
    l.items[0].quantity = 0;
    assert_eq!(l.validate(), Err(LevelError::Parse));
}

#[test]
fn checked_keeps_valid_level() {
    let l = create_iceland_glacier_level().checked().unwrap();
    assert_eq!(l.id, "iceland_glacier_01");
}
