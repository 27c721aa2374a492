use climb_levels::classify::{classify, stability_of, Theme};
use climb_levels::elevation::{
    add_peak, coastal_elevation_at, flat_field, generate_coastal_elevation, generate_elevation_map,
    generate_volcanic_elevation, isqrt, mountain_elevation_at,
};
use climb_levels::features::{feature_tile, region_bounds, region_contains, stamp, Feature, Region};
use climb_levels::grid::{clamped_span, filled_grid, set_tile};
use climb_levels::passes::{apply_pass, passes_of, Pass};
use climb_levels::population::{scatter_items, scatter_npcs, scatter_wildlife, Area};
use climb_levels::random::RandomSource;
use climb_levels::terrain::{copy_gear, Gear, TerrainData, TerrainType};

#[test]
fn integer_square_root() {
    assert_eq!(isqrt(0), 0);
    assert_eq!(isqrt(1), 1);
    assert_eq!(isqrt(15), 3);
    assert_eq!(isqrt(16), 4);
    assert_eq!(isqrt(1244776), 1115);
    assert_eq!(isqrt(0xFFFF_FFFF), 65535);
}

#[test]
fn mountain_height_formula() {
    assert_eq!(mountain_elevation_at(150, 25, 200, 150, 100), 1000);
    assert_eq!(mountain_elevation_at(0, 149, 200, 150, 0), 198);
    assert_eq!(mountain_elevation_at(0, 0, 1, 1, 100), 1000);
    assert_eq!(mountain_elevation_at(0, 0, 1, 1, 0), 900);
}

#[test]
fn coastal_height_formula() {
    assert_eq!(coastal_elevation_at(100, 200, 0), 200);
    assert_eq!(coastal_elevation_at(0, 200, 299), 299);
    assert_eq!(coastal_elevation_at(199, 200, 299), 1000);
}

#[test]
fn height_fields_are_bounded() {
    let mut rng = RandomSource::seeded(3);
    for f in [
        generate_elevation_map(30, 20, &mut rng),
        generate_coastal_elevation(30, 20, &mut rng),
        generate_volcanic_elevation(30, 20, &mut rng),
    ] {
        assert_eq!(f.len(), 20);
        assert!(f.iter().all(|r| r.len() == 30 && r.iter().all(|e| *e <= 1000)));
    }
}

#[test]
fn peak_raises_field() {
    let mut f = flat_field(10, 10);
    add_peak(&mut f, 10, 10, 5, 5, 4);
    assert_eq!(f[5][5], 800);
    assert_eq!(f[5][7], 400);
    assert_eq!(f[5][9], 0);
    add_peak(&mut f, 10, 10, 5, 5, 4);
    assert_eq!(f[5][5], 1000);
}

#[test]
fn classification_bands() {
    let snow = classify(Theme::Mountain, 900, 0, 100, 999);
    assert_eq!(snow.terrain_type, TerrainType::Snow);
    assert_eq!(snow.slope, 1000);
    assert_eq!(snow.stability, 600);
    let rock = classify(Theme::Mountain, 700, 0, 100, 0);
    assert_eq!((rock.terrain_type, rock.slope, rock.stability), (TerrainType::Rock, 560, 900));
    assert_eq!(classify(Theme::Mountain, 500, 0, 100, 0).terrain_type, TerrainType::Grass);
    assert_eq!(classify(Theme::Mountain, 300, 10, 100, 0).terrain_type, TerrainType::Coast);
    assert_eq!(classify(Theme::Mountain, 300, 50, 100, 0).terrain_type, TerrainType::Soil);
    assert_eq!(classify(Theme::Mountain, 100, 50, 100, 0).terrain_type, TerrainType::Coast);
    let cliff = classify(Theme::Coastal, 600, 0, 1, 10);
    assert_eq!(cliff.terrain_type, TerrainType::Snow);
    assert_eq!(cliff.climbing_difficulty, Some(5030));
    assert_eq!(cliff.required_gear, vec![Gear::Rope, Gear::Pitons]);
    let beach = classify(Theme::Coastal, 100, 0, 1, 10);
    assert_eq!((beach.terrain_type, beach.climbable), (TerrainType::Coast, false));
    let flank = classify(Theme::Volcanic, 300, 0, 1, 500);
    assert_eq!(flank.climbing_difficulty, Some(5500));
    assert_eq!(stability_of(TerrainType::Soil), 800);
    assert_eq!(stability_of(TerrainType::Lava), 600);
}

#[test]
fn feature_tiles() {
    let base = TerrainData::flat(TerrainType::Grass, 100, 800);
    let core = feature_tile(Feature::GlacierCore, &base, 0, 0);
    assert_eq!(core.terrain_type, TerrainType::Glacier);
    assert_eq!(core.climbing_difficulty, Some(4500));
    assert_eq!(core.required_gear, vec![Gear::IceAxe, Gear::Crampons]);
    let ring = feature_tile(Feature::IceRing, &base, 0, 0);
    assert_eq!(ring.required_gear, vec![Gear::IceAxe]);
    let lava = feature_tile(Feature::LavaField, &base, 5, 5);
    assert_eq!(lava.terrain_type, TerrainType::Lava);
    assert!(!lava.climbable);
    assert!(lava.required_gear.is_empty());
    let crag = feature_tile(Feature::RockFormation, &base, 999, 500);
    assert_eq!((crag.slope, crag.climbing_difficulty), (899, Some(3000)));
    let snow = classify(Theme::Coastal, 600, 0, 1, 0);
    let sea = feature_tile(Feature::SeaCliff, &snow, 100, 0);
    assert_eq!(sea.climbing_difficulty, Some(6300));
    assert_eq!(sea.required_gear, vec![Gear::Rope, Gear::Pitons]);
    let peak = feature_tile(Feature::VolcanicPeak, &base, 999, 0);
    assert_eq!(peak.climbing_difficulty, Some(9997));
    assert_eq!(feature_tile(Feature::LavaFlow, &base, 0, 0).stability, 300);
    assert_eq!(feature_tile(Feature::CoastalCliff, &base, 0, 0).required_gear, vec![Gear::ClimbingGear]);
}

#[test]
fn regions_clamp_to_grid() {
    assert_eq!(clamped_span(0, 5, 3), (0, 3));
    assert_eq!(clamped_span(10, 2, 20), (8, 13));
    assert_eq!(clamped_span(100, 2, 20), (98, 20));
    let disc = Region::Disc { cx: 0, cy: 0, radius: 5, num: 1, den: 1 };
    assert_eq!(region_bounds(disc, 3, 3), (0, 3, 0, 3));
    let far = Region::Disc { cx: 100, cy: 100, radius: 5, num: 1, den: 1 };
    let b = region_bounds(far, 3, 3);
    assert!(b.0 == b.1 || b.2 == b.3);
    let rect = Region::Rect { x0: 2, y0: 1, rw: 10, rh: 1 };
    assert_eq!(region_bounds(rect, 5, 5), (2, 5, 1, 2));
    assert!(region_contains(disc, 4, 0));
    assert!(!region_contains(disc, 5, 0));
    assert!(!region_contains(disc, 4, 3));
    let core = Region::Disc { cx: 0, cy: 0, radius: 5, num: 9, den: 25 };
    assert!(region_contains(core, 2, 0));
    assert!(!region_contains(core, 3, 0));
}

#[test]
fn certain_stamp_fills_region_only() {
    let base = TerrainData::flat(TerrainType::Grass, 100, 800);
    let mut g = filled_grid(6, 4, &base);
    let mut rng = RandomSource::seeded(1);
    stamp(&mut g, 6, 4, Region::Rect { x0: 4, y0: 2, rw: 9, rh: 9 }, Feature::LavaFlow, 1000, &mut rng);
    for (y, row) in g.iter().enumerate() {
        for (x, t) in row.iter().enumerate() {
            let want = if x >= 4 && y >= 2 { TerrainType::Lava } else { TerrainType::Grass };
            assert_eq!(t.terrain_type, want);
        }
    }
    stamp(&mut g, 6, 4, Region::Rect { x0: 0, y0: 0, rw: 6, rh: 4 }, Feature::IceRing, 0, &mut rng);
    assert_eq!(g[0][0].terrain_type, TerrainType::Grass);
}

#[test]
fn grid_updates() {
    let base = TerrainData::flat(TerrainType::Soil, 0, 1000);
    let mut g = filled_grid(3, 2, &base);
    set_tile(&mut g, 2, 1, TerrainData::climb(TerrainType::Rock, 5, 6, 7, vec![Gear::Rope]));
    assert_eq!(g[1][2].terrain_type, TerrainType::Rock);
    assert_eq!(g[1][1].terrain_type, TerrainType::Soil);
    assert_eq!(copy_gear(&vec![Gear::Harness, Gear::Pitons]), vec![Gear::Harness, Gear::Pitons]);
    assert_eq!(base.duplicate().stability, 1000);
    assert!(base.is_valid());
    assert_eq!(Gear::IceAxe.identifier(), "ice_axe");
    assert_eq!(Gear::ClimbingGear.identifier(), "climbing_gear");
}

#[test]
fn theme_pass_order() {
    assert_eq!(
        passes_of(Theme::Mountain),
        vec![Pass::Glacier, Pass::LavaFields, Pass::CoastalCliffs, Pass::RockFormations]
    );
    assert_eq!(passes_of(Theme::Coastal), vec![Pass::SeaCliffs, Pass::RockFormations]);
    assert_eq!(passes_of(Theme::Volcanic), vec![Pass::VolcanicPeaks, Pass::LavaFlows]);
}

#[test]
fn glacier_pass_places_core_at_summit() {
    let base = TerrainData::flat(TerrainType::Grass, 100, 800);
    let mut g = filled_grid(80, 80, &base);
    let mut rng = RandomSource::seeded(2);
    apply_pass(&mut g, 80, 80, Pass::Glacier, &mut rng);
    assert_eq!(g[80 / 6][80 * 3 / 4].terrain_type, TerrainType::Glacier);
    assert_eq!(g[79][0].terrain_type, TerrainType::Grass);
    for (y, row) in g.iter().enumerate() {
        for (x, t) in row.iter().enumerate() {
            let d2 = (x as i64 - 60).pow(2) + (y as i64 - 13).pow(2);
            if d2 * 25 < 100 * 9 {
                assert_eq!(t.terrain_type, TerrainType::Glacier);
            } else if d2 >= 100 {
                assert_eq!(t.terrain_type, TerrainType::Grass);
            } else {
                assert!(matches!(t.terrain_type, TerrainType::Grass | TerrainType::Ice));
            }
        }
    }
}

#[test]
fn coastal_cliff_pass_keeps_northern_rows() {
    let base = TerrainData::flat(TerrainType::Grass, 100, 800);
    let mut g = filled_grid(30, 20, &base);
    let mut rng = RandomSource::seeded(5);
    apply_pass(&mut g, 30, 20, Pass::CoastalCliffs, &mut rng);
    assert!(g[..16].iter().all(|row| row.iter().all(|t| t.terrain_type == TerrainType::Grass)));
    assert!(g[16..].iter().any(|row| row.iter().any(|t| t.terrain_type == TerrainType::Rock)));
    let mut g = filled_grid(30, 20, &base);
    apply_pass(&mut g, 30, 20, Pass::RockFormations, &mut rng);
    assert!(g.len() == 20);
}

#[test]
fn volcanic_field_has_high_peak() {
    for seed in [1u64, 2, 3, 4] {
        let mut rng = RandomSource::seeded(seed);
        let f = generate_volcanic_elevation(40, 30, &mut rng);
        assert!(f.iter().any(|r| r.iter().any(|e| *e >= 800)));
        let g = generate_volcanic_elevation(1, 1, &mut rng);
        assert!(g[0][0] >= 800);
    }
}

#[test]
fn gear_identifiers_round_trip() {
    for g in [Gear::IceAxe, Gear::Crampons, Gear::Rope, Gear::Harness, Gear::ClimbingGear, Gear::Pitons] {
        assert_eq!(Gear::from_identifier(g.identifier()), Some(g));
    }
    assert_eq!(Gear::from_identifier("pitons"), Some(Gear::Pitons));
    assert_eq!(Gear::from_identifier("heat_protection"), None);
    assert_eq!(Gear::from_identifier(""), None);
}

#[test]
fn random_source_draws_in_range() {
    let mut rng = RandomSource::seeded(99);
    let draws: Vec<u64> = (0..200).map(|_| rng.range(5, 10)).collect();
    assert!(draws.iter().all(|d| (5..10).contains(d)));
    assert!(draws.iter().any(|d| *d != 5));
    assert!(draws.iter().any(|d| *d == 9));
    assert_eq!(rng.range_or_low(7, 7), 7);
    assert!(rng.roll() < 1000);
    assert!(!rng.chance(0));
    assert!(rng.chance(1000));
    let mut e = RandomSource::from_entropy();
    assert!(e.range(0, 3) < 3);
}

#[test]
fn scatter_helpers() {
    let mut rng = RandomSource::seeded(4);
    let area = Area { x_lo: 10, x_hi: 20, y_lo: 0, y_hi: 5 };
    let mut w = Vec::new();
    scatter_wildlife(&mut w, &vec!["seal", "crab"], 3, 6, area, 100, 200, &mut rng);
    assert!((3..6).contains(&w.len()));
    assert!(w.iter().all(|s| (s.species == "seal" || s.species == "crab")
        && (10..20).contains(&s.position.0)
        && (100..200).contains(&s.aggression)));
    let mut n = Vec::new();
    scatter_npcs(&mut n, &vec!["Leif"], " the Bold", &vec!["Helga"], " the Wise", 0, &vec!["viking"], 2, 3, area, "x.ron", &mut rng);
    assert_eq!(n.len(), 2);
    assert!(n.iter().all(|s| s.name == "Leif the Bold" && s.npc_type == "viking" && s.dialogue_file == "x.ron"));
    let mut i = Vec::new();
    scatter_items(&mut i, &vec!["rope"], 1, 2, area, 2, 3, &mut rng);
    assert_eq!(i.len(), 1);
    assert_eq!(i[0].quantity, 2);
}
