use vstd::prelude::*;
use vstd::string::StringExecFns;

verus! {

/// The largest value of a quantity kept in thousandths of the unit interval.
pub const UNIT: u32 = 1000;

/// The largest climbing difficulty, in thousandths (`10.0`).
pub const MAX_DIFFICULTY: u32 = 10000;

/// The class of a tile.
#[derive(Clone, Copy, Debug, PartialEq, Eq, Structural)]
pub enum TerrainType {
    Soil,
    Ice,
    Rock,
    Grass,
    Snow,
    Glacier,
    Lava,
    Coast,
}

/// A piece of equipment that a climbable tile can ask for.
#[derive(Clone, Copy, Debug, PartialEq, Eq, Structural)]
pub enum Gear {
    IceAxe,
    Crampons,
    Rope,
    Harness,
    ClimbingGear,
    Pitons,
}

/// The identifier of a piece of gear in level files.
pub open spec fn gear_identifier(g: Gear) -> Seq<char> {
    match g {
        Gear::IceAxe => "ice_axe"@,
        Gear::Crampons => "crampons"@,
        Gear::Rope => "rope"@,
        Gear::Harness => "harness"@,
        Gear::ClimbingGear => "climbing_gear"@,
        Gear::Pitons => "pitons"@,
    }
}

impl Gear {
    /// The gear whose identifier in level files is `s`, if there is one.
    pub fn from_identifier(s: &str) -> (r: Option<Gear>)
        ensures
            r matches Some(g) ==> gear_identifier(g) == s@,
            r is None ==> forall|g: Gear| gear_identifier(g) != s@,
    {
        let key = String::from_str(s);
        if key == String::from_str("ice_axe") {
            Some(Gear::IceAxe)
        } else if key == String::from_str("crampons") {
            Some(Gear::Crampons)
        } else if key == String::from_str("rope") {
            Some(Gear::Rope)
        } else if key == String::from_str("harness") {
            Some(Gear::Harness)
        } else if key == String::from_str("climbing_gear") {
            Some(Gear::ClimbingGear)
        } else if key == String::from_str("pitons") {
            Some(Gear::Pitons)
        } else {
            assert forall|g: Gear| gear_identifier(g) != s@ by {
                match g {
                    Gear::IceAxe => {},
                    Gear::Crampons => {},
                    Gear::Rope => {},
                    Gear::Harness => {},
                    Gear::ClimbingGear => {},
                    Gear::Pitons => {},
                }
            }
            None
        }
    }

    /// The identifier of the gear in level files.
    pub fn identifier(&self) -> (r: &'static str)
        ensures
            r@ == gear_identifier(*self),
    {
        match self {
            Gear::IceAxe => "ice_axe",
            Gear::Crampons => "crampons",
            Gear::Rope => "rope",
            Gear::Harness => "harness",
            Gear::ClimbingGear => "climbing_gear",
            Gear::Pitons => "pitons",
        }
    }
}

/// One tile of a level's grid. `slope` and `stability` are in thousandths of
/// the unit interval; `climbing_difficulty` is in thousandths.
#[derive(Debug)]
pub struct TerrainData {
    pub terrain_type: TerrainType,
    pub slope: u32,
    pub stability: u32,
    pub climbable: bool,
    pub climbing_difficulty: Option<u32>,
    pub required_gear: Vec<Gear>,
}

/// What a tile holds, as mathematical values.
pub struct TileView {
    pub kind: TerrainType,
    pub slope: nat,
    pub stability: nat,
    pub climbable: bool,
    pub difficulty: Option<nat>,
    pub gear: Seq<Gear>,
}

impl View for TerrainData {
    type V = TileView;

    open spec fn view(&self) -> TileView {
        TileView {
            kind: self.terrain_type,
            slope: self.slope as nat,
            stability: self.stability as nat,
            climbable: self.climbable,
            difficulty: match self.climbing_difficulty {
                Some(d) => Some(d as nat),
                None => None,
            },
            gear: self.required_gear@,
        }
    }
}

/// A tile whose attributes lie in their ranges and whose climbing gate is
/// consistent: a difficulty exactly when climbable, gear only when climbable.
pub open spec fn tile_valid(t: TileView) -> bool {
    &&& t.slope <= UNIT
    &&& t.stability <= UNIT
    &&& t.climbable <==> t.difficulty is Some
    &&& t.climbable ==> t.difficulty->0 <= MAX_DIFFICULTY
    &&& !t.climbable ==> t.gear.len() == 0
}

/// A tile that cannot be climbed.
pub open spec fn flat_view(kind: TerrainType, slope: nat, stability: nat) -> TileView {
    TileView { kind, slope, stability, climbable: false, difficulty: None, gear: seq![] }
}

/// A tile that can be climbed at the given difficulty with the given gear.
pub open spec fn climb_view(
    kind: TerrainType,
    slope: nat,
    stability: nat,
    difficulty: nat,
    gear: Seq<Gear>,
) -> TileView {
    TileView { kind, slope, stability, climbable: true, difficulty: Some(difficulty), gear }
}

impl TerrainData {
    /// A tile that cannot be climbed.
    pub fn flat(kind: TerrainType, slope: u32, stability: u32) -> (r: TerrainData)
        ensures
            r@ == flat_view(kind, slope as nat, stability as nat),
    {
        let r = TerrainData {
            terrain_type: kind,
            slope,
            stability,
            climbable: false,
            climbing_difficulty: None,
            required_gear: Vec::new(),
        };
        assert(r@.gear =~= seq![]);
        r
    }

    /// A tile that can be climbed at `difficulty` with `gear`.
    pub fn climb(kind: TerrainType, slope: u32, stability: u32, difficulty: u32, gear: Vec<Gear>) -> (r:
        TerrainData)
        ensures
            r@ == climb_view(kind, slope as nat, stability as nat, difficulty as nat, gear@),
    {
        TerrainData {
            terrain_type: kind,
            slope,
            stability,
            climbable: true,
            climbing_difficulty: Some(difficulty),
            required_gear: gear,
        }
    }

    /// A copy of the tile.
    pub fn duplicate(&self) -> (r: TerrainData)
        ensures
            r@ == self@,
    {
        TerrainData {
            terrain_type: self.terrain_type,
            slope: self.slope,
            stability: self.stability,
            climbable: self.climbable,
            climbing_difficulty: self.climbing_difficulty,
            required_gear: copy_gear(&self.required_gear),
        }
    }

    /// Whether the tile's attributes are in range and its climbing gate is
    /// consistent.
    pub fn is_valid(&self) -> (r: bool)
        ensures
            r == tile_valid(self@),
    {
        let gate = match self.climbing_difficulty {
            Some(d) => self.climbable && d <= MAX_DIFFICULTY,
            None => !self.climbable && self.required_gear.len() == 0,
        };
        self.slope <= UNIT && self.stability <= UNIT && gate
    }
}

/// A copy of a gear list.
pub fn copy_gear(gear: &Vec<Gear>) -> (r: Vec<Gear>)
    ensures
        r@ == gear@,
{
    let mut r: Vec<Gear> = Vec::new();
    let mut i: usize = 0;
    while i < gear.len()
        invariant
            i <= gear@.len(),
            r@ == gear@.subrange(0, i as int),
        decreases gear@.len() - i,
    {
        r.push(gear[i]);
        i = i + 1;
        assert(r@ =~= gear@.subrange(0, i as int));
    }
    assert(gear@.subrange(0, gear@.len() as int) =~= gear@);
    r
}

} // verus!
