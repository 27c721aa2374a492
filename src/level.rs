use vstd::prelude::*;
use crate::terrain::{TerrainData, UNIT, tile_valid};
use crate::grid::{grid_shaped, grid_valid, tile_at, set_tile};
use crate::population::{WildlifeSpawn, NPCSpawn, ItemSpawn};

verus! {

/// The weather a level starts with. `base_temperature` is in degrees
/// Celsius.
#[derive(Debug)]
pub struct WeatherConditions {
    pub base_temperature: i32,
    pub wind_speed: u32,
    pub weather_type: String,
}

/// A complete playable map.
#[derive(Debug)]
pub struct LevelDefinition {
    pub id: String,
    pub name: String,
    pub description: String,
    pub width: usize,
    pub height: usize,
    pub terrain: Vec<Vec<TerrainData>>,
    pub start_position: (usize, usize),
    pub goal_positions: Vec<(usize, usize)>,
    pub weather_conditions: WeatherConditions,
    pub wildlife_spawns: Vec<WildlifeSpawn>,
    pub npc_spawns: Vec<NPCSpawn>,
    pub items: Vec<ItemSpawn>,
}

/// Why a level could not be had.
#[derive(Clone, Copy, Debug, PartialEq, Eq, Structural)]
pub enum LevelError {
    /// The level file is not there.
    NotFound,
    /// The level file could not be read or written.
    Io,
    /// The level file does not hold a well-formed level.
    Parse,
    /// The grid's rows and columns do not match the level's sides.
    InvalidDimensions,
}

/// The point lies on a `w` by `h` grid.
pub open spec fn on_grid(p: (usize, usize), w: nat, h: nat) -> bool {
    p.0 < w && p.1 < h
}

/// The grid has the level's sides, and the sides are positive.
pub open spec fn dimensions_ok(l: LevelDefinition) -> bool {
    &&& l.width > 0
    &&& l.height > 0
    &&& grid_shaped(l.terrain@, l.width as nat, l.height as nat)
}

/// Everything in the level other than its dimensions is well formed: tiles,
/// start and goals on the grid, at least one goal, aggressions in range and
/// quantities positive.
pub open spec fn content_ok(l: LevelDefinition) -> bool {
    &&& grid_valid(l.terrain@)
    &&& on_grid(l.start_position, l.width as nat, l.height as nat)
    &&& l.goal_positions@.len() > 0
    &&& forall|i: int|
        0 <= i < l.goal_positions@.len() ==> on_grid(
            #[trigger] l.goal_positions@[i],
            l.width as nat,
            l.height as nat,
        )
    &&& forall|i: int| 0 <= i < l.wildlife_spawns@.len() ==> (#[trigger] l.wildlife_spawns@[i]).aggression <= UNIT
    &&& forall|i: int| 0 <= i < l.items@.len() ==> (#[trigger] l.items@[i]).quantity >= 1
}

/// The level keeps every invariant of a level definition.
pub open spec fn level_valid(l: LevelDefinition) -> bool {
    dimensions_ok(l) && content_ok(l)
}

impl LevelDefinition {
    /// Checks the level's invariants: `InvalidDimensions` where the grid does
    /// not match the sides, `Parse` where anything else is malformed.
    pub fn validate(&self) -> (r: Result<(), LevelError>)
        ensures
            r is Ok <==> level_valid(*self),
            r == Err::<(), LevelError>(LevelError::InvalidDimensions) <==> !dimensions_ok(*self),
            r == Err::<(), LevelError>(LevelError::Parse) <==> dimensions_ok(*self) && !content_ok(*self),
    {
        if self.width == 0 || self.height == 0 || self.terrain.len() != self.height {
            return Err(LevelError::InvalidDimensions);
        }
        let mut y: usize = 0;
        while y < self.height
            invariant
                y <= self.height == self.terrain@.len(),
                forall|j: int| 0 <= j < y ==> (#[trigger] self.terrain@[j])@.len() == self.width,
            decreases self.height - y,
        {
            if self.terrain[y].len() != self.width {
                return Err(LevelError::InvalidDimensions);
            }
            y = y + 1;
        }
        let mut y: usize = 0;
        while y < self.height
            invariant
                y <= self.height == self.terrain@.len(),
                dimensions_ok(*self),
                forall|j: int, x: int|
                    0 <= j < y && 0 <= x < self.width ==> tile_valid((#[trigger] self.terrain@[j]@[x])@),
            decreases self.height - y,
        {
            let mut x: usize = 0;
            while x < self.width
                invariant
                    x <= self.width,
                    y < self.height == self.terrain@.len(),
                    dimensions_ok(*self),
                    forall|j: int, i: int|
                        0 <= j < y && 0 <= i < self.width ==> tile_valid((#[trigger] self.terrain@[j]@[i])@),
                    forall|i: int| 0 <= i < x ==> tile_valid((#[trigger] self.terrain@[y as int]@[i])@),
                decreases self.width - x,
            {
                if !self.terrain[y][x].is_valid() {
                    return Err(LevelError::Parse);
                }
                x = x + 1;
            }
            y = y + 1;
        }
        assert(grid_valid(self.terrain@));
        if self.start_position.0 >= self.width || self.start_position.1 >= self.height
            || self.goal_positions.len() == 0 {
            return Err(LevelError::Parse);
        }
        let mut i: usize = 0;
        while i < self.goal_positions.len()
            invariant
                i <= self.goal_positions@.len(),
                dimensions_ok(*self),
                grid_valid(self.terrain@),
                on_grid(self.start_position, self.width as nat, self.height as nat),
                self.goal_positions@.len() > 0,
                forall|k: int|
                    0 <= k < i ==> on_grid(
                        #[trigger] self.goal_positions@[k],
                        self.width as nat,
                        self.height as nat,
                    ),
            decreases self.goal_positions@.len() - i,
        {
            let g = self.goal_positions[i];
            if g.0 >= self.width || g.1 >= self.height {
                return Err(LevelError::Parse);
            }
            i = i + 1;
        }
        let mut i: usize = 0;
        while i < self.wildlife_spawns.len()
            invariant
                i <= self.wildlife_spawns@.len(),
                dimensions_ok(*self),
                grid_valid(self.terrain@),
                on_grid(self.start_position, self.width as nat, self.height as nat),
                self.goal_positions@.len() > 0,
                forall|k: int|
                    0 <= k < self.goal_positions@.len() ==> on_grid(
                        #[trigger] self.goal_positions@[k],
                        self.width as nat,
                        self.height as nat,
                    ),
                forall|k: int| 0 <= k < i ==> (#[trigger] self.wildlife_spawns@[k]).aggression <= UNIT,
            decreases self.wildlife_spawns@.len() - i,
        {
            if self.wildlife_spawns[i].aggression > UNIT {
                return Err(LevelError::Parse);
            }
            i = i + 1;
        }
        let mut i: usize = 0;
        while i < self.items.len()
            invariant
                i <= self.items@.len(),
                dimensions_ok(*self),
                grid_valid(self.terrain@),
                on_grid(self.start_position, self.width as nat, self.height as nat),
                self.goal_positions@.len() > 0,
                forall|k: int|
                    0 <= k < self.goal_positions@.len() ==> on_grid(
                        #[trigger] self.goal_positions@[k],
                        self.width as nat,
                        self.height as nat,
                    ),
                forall|k: int| 0 <= k < self.wildlife_spawns@.len() ==> (#[trigger] self.wildlife_spawns@[k]).aggression <= UNIT,
                forall|k: int| 0 <= k < i ==> (#[trigger] self.items@[k]).quantity >= 1,
            decreases self.items@.len() - i,
        {
            if self.items[i].quantity == 0 {
                return Err(LevelError::Parse);
            }
            i = i + 1;
        }
        Ok(())
    }

    /// The level, if it keeps every invariant of a level definition; the
    /// error that `validate` gives otherwise.
    pub fn checked(self) -> (r: Result<LevelDefinition, LevelError>)
        ensures
            r is Ok <==> level_valid(self),
            r is Ok ==> r->Ok_0 == self,
            r == Err::<LevelDefinition, LevelError>(LevelError::InvalidDimensions) <==> !dimensions_ok(self),
            r == Err::<LevelDefinition, LevelError>(LevelError::Parse) <==> dimensions_ok(self) && !content_ok(
                self,
            ),
    {
        match self.validate() {
            Ok(()) => Ok(self),
            Err(e) => Err(e),
        }
    }
}

/// Paints the rectangle of columns `[x0, x1)` and rows `[y0, y1)` with copies
/// of `t`.
pub fn paint_rect(
    g: &mut Vec<Vec<TerrainData>>,
    w: usize,
    h: usize,
    x0: usize,
    x1: usize,
    y0: usize,
    y1: usize,
    t: &TerrainData,
)
    requires
        grid_shaped(old(g)@, w as nat, h as nat),
        x0 <= x1 <= w,
        y0 <= y1 <= h,
    ensures
        grid_shaped(final(g)@, w as nat, h as nat),
        forall|x: int, y: int|
            0 <= x < w && 0 <= y < h ==> #[trigger] tile_at(final(g)@, x, y) == if x0 <= x < x1 && y0 <= y < y1 {
                t@
            } else {
                tile_at(old(g)@, x, y)
            },
{
    let ghost start = g@;
    let mut y: usize = y0;
    while y < y1
        invariant
            y0 <= y <= y1 <= h,
            x0 <= x1 <= w,
            grid_shaped(g@, w as nat, h as nat),
            forall|i: int, j: int|
                0 <= i < w && 0 <= j < h ==> #[trigger] tile_at(g@, i, j) == if x0 <= i < x1 && y0 <= j < y {
                    t@
                } else {
                    tile_at(start, i, j)
                },
        decreases y1 - y,
    {
        let mut x: usize = x0;
        while x < x1
            invariant
                y0 <= y < y1 <= h,
                x0 <= x <= x1 <= w,
                grid_shaped(g@, w as nat, h as nat),
                forall|i: int, j: int|
                    0 <= i < w && 0 <= j < h ==> #[trigger] tile_at(g@, i, j) == if (x0 <= i < x1 && y0 <= j < y)
                        || (j == y && x0 <= i < x) {
                        t@
                    } else {
                        tile_at(start, i, j)
                    },
            decreases x1 - x,
        {
            let ghost mid = g@;
            set_tile(g, x, y, t.duplicate());
            assert forall|i: int, j: int| 0 <= i < w && 0 <= j < h && !(i == x && j == y) implies #[trigger] tile_at(
                g@,
                i,
                j,
            ) == tile_at(mid, i, j) by {
                assert(g@[j]@[i] == mid[j]@[i]);
            }
            x = x + 1;
        }
        y = y + 1;
    }
}

} // verus!
