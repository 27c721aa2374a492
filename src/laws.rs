use vstd::prelude::*;
use crate::terrain::{UNIT, MAX_DIFFICULTY, tile_valid};
use crate::grid::tile_at;
use crate::elevation::{mountain_elevation, coastal_elevation, raised};
use crate::classify::Theme;
use crate::level::{LevelDefinition, level_valid};
use crate::generate::theme_level;

verus! {

/// Every generated grid has `height` rows of `width` tiles each.
pub proof fn lemma_generated_grid_shape(theme: Theme, w: int, h: int, l: LevelDefinition)
    requires
        theme_level(theme, w, h, l),
    ensures
        l.terrain@.len() == l.height == h,
        forall|y: int| 0 <= y < h ==> (#[trigger] l.terrain@[y])@.len() == l.width == w,
{
}

/// Heights, and everything derived from them, stay in their ranges: every
/// height of the three height fields lies in `[0, 1]`; in a valid level every
/// tile's slope and stability lie in `[0, 1]`, every difficulty in `[0, 10]`,
/// and every animal's aggression in `[0, 1]`.
pub proof fn lemma_attributes_in_range(l: LevelDefinition)
    requires
        level_valid(l),
    ensures
        forall|x: int, y: int, w: int, h: int, n: int|
            0 <= #[trigger] mountain_elevation(x, y, w, h, n) <= UNIT,
        forall|x: int, w: int, n: int|
            0 <= n ==> 0 <= #[trigger] coastal_elevation(x, w, n) <= UNIT,
        forall|e: int, i: int| 0 <= e <= UNIT && 0 <= i <= UNIT ==> 0 <= #[trigger] raised(e, i) <= UNIT,
        forall|x: int, y: int|
            0 <= x < l.width && 0 <= y < l.height ==> {
                let t = #[trigger] tile_at(l.terrain@, x, y);
                &&& t.slope <= UNIT
                &&& t.stability <= UNIT
                &&& t.difficulty is Some ==> t.difficulty->0 <= MAX_DIFFICULTY
            },
        forall|i: int| 0 <= i < l.wildlife_spawns@.len() ==> (#[trigger] l.wildlife_spawns@[i]).aggression <= UNIT,
{
    assert forall|x: int, w: int, n: int| 0 <= n implies 0 <= #[trigger] coastal_elevation(x, w, n) <= UNIT by {
        let p = x * 1000 / w;
        assert(p * p >= 0) by (nonlinear_arith);
    }
    assert forall|x: int, y: int| 0 <= x < l.width && 0 <= y < l.height implies {
        let t = #[trigger] tile_at(l.terrain@, x, y);
        &&& t.slope <= UNIT
        &&& t.stability <= UNIT
        &&& t.difficulty is Some ==> t.difficulty->0 <= MAX_DIFFICULTY
    } by {
        assert(tile_valid(l.terrain@[y]@[x]@));
    }
}

/// In a valid level, a climbable tile has a difficulty; a tile that cannot
/// be climbed has neither difficulty nor required gear.
pub proof fn lemma_climbing_gate(l: LevelDefinition)
    requires
        level_valid(l),
    ensures
        forall|x: int, y: int|
            0 <= x < l.width && 0 <= y < l.height ==> {
                let t = #[trigger] tile_at(l.terrain@, x, y);
                &&& t.climbable ==> t.difficulty is Some && t.difficulty->0 >= 0
                &&& !t.climbable ==> t.difficulty is None && t.gear.len() == 0
            },
{
    assert forall|x: int, y: int| 0 <= x < l.width && 0 <= y < l.height implies {
        let t = #[trigger] tile_at(l.terrain@, x, y);
        &&& t.climbable ==> t.difficulty is Some && t.difficulty->0 >= 0
        &&& !t.climbable ==> t.difficulty is None && t.gear.len() == 0
    } by {
        assert(tile_valid(l.terrain@[y]@[x]@));
    }
}

} // verus!
