use climb_levels::classify::Theme;
use climb_levels::generate::{generate_level, generate_terrain};
use climb_levels::level::{LevelDefinition, LevelError};
use climb_levels::random::RandomSource;
use climb_levels::terrain::{TerrainType, MAX_DIFFICULTY, UNIT};

fn level(theme: Theme, w: usize, h: usize, seed: u64) -> LevelDefinition {
    let mut rng = RandomSource::seeded(seed);
    generate_level(theme, w, h, &mut rng).unwrap()
}

fn has_kind(l: &LevelDefinition, kind: TerrainType) -> bool {
    l.terrain.iter().any(|row| row.iter().any(|t| t.terrain_type == kind))
}

fn assert_well_formed(l: &LevelDefinition) {
    assert_eq!(l.terrain.len(), l.height);
    for row in &l.terrain {
        assert_eq!(row.len(), l.width);
        for t in row {
            assert!(t.slope <= UNIT);
            assert!(t.stability <= UNIT);
            if t.climbable {
                assert!(t.climbing_difficulty.unwrap() <= MAX_DIFFICULTY);
            } else {
                assert_eq!(t.climbing_difficulty, None);
                assert!(t.required_gear.is_empty());
            }
        }
    }
    assert!(l.wildlife_spawns.iter().all(|s| s.aggression <= UNIT));
    assert!(l.items.iter().all(|s| s.quantity >= 1));
    assert_eq!(l.validate(), Ok(()));
}

#[test]
fn mountain_scenario_has_all_classes() {
    let l = level(Theme::Mountain, 200, 150, 7);
    assert_eq!((l.width, l.height), (200, 150));
    for kind in [TerrainType::Soil, TerrainType::Rock, TerrainType::Snow, TerrainType::Glacier, TerrainType::Lava] {
        assert!(has_kind(&l, kind), "missing {:?}", kind);
    }
    assert_eq!(l.start_position, (25, 130));
    assert!(l.start_position.1 >= 150 * 2 / 3);
    assert_eq!(l.goal_positions, vec![(150, 25)]);
    assert!(l.goal_positions[0].1 < 150 / 4);
    assert_eq!(l.id, "large_mountain_01");
    assert_eq!(l.weather_conditions.wind_speed, 35);
}

#[test]
fn mountain_scenario_other_seeds() {
    for seed in [1u64, 2, 3] {
        let l = level(Theme::Mountain, 200, 150, seed);
        assert_well_formed(&l);
        assert!(has_kind(&l, TerrainType::Glacier));
        assert!(has_kind(&l, TerrainType::Lava));
    }
}

#[test]
fn mountain_population_ranges() {
    let l = level(Theme::Mountain, 200, 150, 11);
    let n = l.wildlife_spawns.len();
    assert!((25..=42).contains(&n));
    for s in &l.wildlife_spawns {
        assert!(s.position.0 < 200 * 32);
        match s.species.as_str() {
            "horse" => {
                assert_eq!(s.aggression, 0);
                assert!(s.position.1 >= 150 * 32 * 6 / 10 && s.position.1 < 150 * 32);
            }
            "sheep" => assert_eq!(s.aggression, 100),
            "wolf" => {
                assert_eq!(s.aggression, 300);
                assert!(s.position.1 < 150 * 32 / 2);
            }
            other => panic!("unexpected species {}", other),
        }
    }
    assert!((6..=10).contains(&l.npc_spawns.len()));
    for s in &l.npc_spawns {
        let ok = (s.npc_type == "viking" && (s.name.ends_with(" the Bold") || s.name.ends_with(" the Wise")))
            || (s.npc_type == "mage" && s.name.ends_with(" the Seer"));
        assert!(ok, "{:?}", s);
    }
    assert!((15..25).contains(&l.items.len()));
    assert!(l.items.iter().all(|i| i.quantity == 1));
}

#[test]
fn coastal_and_volcanic_levels() {
    let c = level(Theme::Coastal, 180, 120, 5);
    assert_well_formed(&c);
    assert_eq!(c.start_position, (5, 110));
    assert_eq!(c.goal_positions, vec![(170, 30)]);
    assert!((8..15).contains(&c.wildlife_spawns.len()));
    assert!(c.wildlife_spawns.iter().all(|s| s.aggression < 500));
    assert!(c.npc_spawns.iter().all(|s| s.position.0 >= 10 * 32 && s.position.0 < 170 * 32));
    assert!(c.wildlife_spawns.iter().all(|s| s.position.0 < 180 * 32 && s.position.1 < 120 * 32));
    assert!(c.items.iter().all(|s| (1..4).contains(&s.quantity)));
    let v = level(Theme::Volcanic, 220, 180, 5);
    assert_well_formed(&v);
    assert!(has_kind(&v, TerrainType::Lava));
    assert_eq!(v.start_position, (20, 150));
    assert_eq!(v.goal_positions, vec![(110, 30)]);
    assert!(v.wildlife_spawns.iter().all(|s| s.aggression >= 300 && s.aggression < 1000));
    assert!((2..4).contains(&v.npc_spawns.len()));
    assert!(v.npc_spawns.iter().all(|s| s.position.0 >= 30 * 32 && s.position.1 < 150 * 32));
}

#[test]
fn tiny_grids_are_safe() {
    for theme in [Theme::Mountain, Theme::Coastal, Theme::Volcanic] {
        for (w, h) in [(1usize, 1usize), (1, 40), (40, 1), (2, 3)] {
            let l = level(theme, w, h, 9);
            assert_well_formed(&l);
            assert!(l.start_position.0 < w && l.start_position.1 < h);
            assert!(l.goal_positions.iter().all(|g| g.0 < w && g.1 < h));
        }
    }
}

#[test]
fn largest_theme_size_is_safe() {
    let l = level(Theme::Volcanic, 220, 180, 13);
    assert_well_formed(&l);
}

#[test]
fn empty_or_oversized_grid_is_refused() {
    let mut rng = RandomSource::seeded(1);
    assert_eq!(generate_level(Theme::Mountain, 0, 10, &mut rng).err(), Some(LevelError::InvalidDimensions));
    assert_eq!(generate_level(Theme::Coastal, 10, 0, &mut rng).err(), Some(LevelError::InvalidDimensions));
    assert_eq!(generate_level(Theme::Volcanic, 4097, 10, &mut rng).err(), Some(LevelError::InvalidDimensions));
}

#[test]
fn same_seed_same_terrain() {
    let a = generate_terrain(Theme::Coastal, 60, 50, &mut RandomSource::seeded(42));
    let b = generate_terrain(Theme::Coastal, 60, 50, &mut RandomSource::seeded(42));
    let c = generate_terrain(Theme::Coastal, 60, 50, &mut RandomSource::seeded(43));
    let key = |g: &Vec<Vec<climb_levels::terrain::TerrainData>>| {
        g.iter()
            .flat_map(|r| r.iter().map(|t| (t.terrain_type, t.slope, t.stability, t.climbing_difficulty)))
            .collect::<Vec<_>>()
    };
    assert_eq!(key(&a), key(&b));
    assert_ne!(key(&a), key(&c));
}

#[test]
fn mountain_spawns_come_in_order() {
    let l = level(Theme::Mountain, 120, 90, 21);
    let kinds: Vec<&str> = l.wildlife_spawns.iter().map(|s| s.species.as_str()).collect();
    let horses = kinds.iter().take_while(|k| **k == "horse").count();
    let sheep = kinds[horses..].iter().take_while(|k| **k == "sheep").count();
    let wolves = kinds.len() - horses - sheep;
    assert!((8..=14).contains(&horses));
    assert!((15..=24).contains(&sheep));
    assert!((2..=4).contains(&wolves));
    assert!(kinds[horses + sheep..].iter().all(|k| *k == "wolf"));
    let types: Vec<&str> = l.npc_spawns.iter().map(|s| s.npc_type.as_str()).collect();
    let vikings = types.iter().take_while(|k| **k == "viking").count();
    assert!((4..=7).contains(&vikings));
    assert!((2..=3).contains(&(types.len() - vikings)));
    assert!(types[vikings..].iter().all(|k| *k == "mage"));
}

#[test]
fn mountain_glacier_core_holds() {
    let l = level(Theme::Mountain, 200, 150, 8);
    let (cx, cy, r) = (150i64, 25i64, 18i64);
    for (y, row) in l.terrain.iter().enumerate() {
        for (x, t) in row.iter().enumerate() {
            let d2 = (x as i64 - cx).pow(2) + (y as i64 - cy).pow(2);
            let in_core = d2 * 25 < r * r * 9;
            if in_core {
                assert!(matches!(t.terrain_type, TerrainType::Glacier | TerrainType::Lava | TerrainType::Rock));
            }
            if t.terrain_type == TerrainType::Glacier {
                assert!(in_core);
            }
        }
    }
}
