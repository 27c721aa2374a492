use vstd::prelude::*;
use vstd::string::StringExecFns;
use crate::random::RandomSource;
use crate::terrain::UNIT;

verus! {

/// An animal placed in the world. `aggression` is in thousandths.
#[derive(Debug)]
pub struct WildlifeSpawn {
    pub species: String,
    pub position: (u64, u64),
    pub aggression: u32,
}

/// A non-player character placed in the world.
#[derive(Debug)]
pub struct NPCSpawn {
    pub name: String,
    pub npc_type: String,
    pub position: (u64, u64),
    pub dialogue_file: String,
}

/// An item placed in the world.
#[derive(Debug)]
pub struct ItemSpawn {
    pub item_id: String,
    pub position: (u64, u64),
    pub quantity: u32,
}

/// A half-open box `[x_lo, x_hi) x [y_lo, y_hi)` of world positions.
#[derive(Clone, Copy, Debug, PartialEq, Eq, Structural)]
pub struct Area {
    pub x_lo: u64,
    pub x_hi: u64,
    pub y_lo: u64,
    pub y_hi: u64,
}

/// The position lies in the area.
pub open spec fn in_area(a: Area, p: (u64, u64)) -> bool {
    a.x_lo <= p.0 < a.x_hi && a.y_lo <= p.1 < a.y_hi
}

/// The area holds at least one position.
pub open spec fn area_nonempty(a: Area) -> bool {
    a.x_lo < a.x_hi && a.y_lo < a.y_hi
}

/// `s` is one of the names of `pool`.
pub open spec fn pooled(pool: Seq<&str>, s: Seq<char>) -> bool {
    exists|i: int| 0 <= i < pool.len() && pool[i]@ == s
}

/// `s` is one of the names of `pool` followed by `title`.
pub open spec fn titled(pool: Seq<&str>, title: Seq<char>, s: Seq<char>) -> bool {
    exists|i: int| 0 <= i < pool.len() && pool[i]@ + title == s
}

/// A position drawn uniformly from the area.
pub fn draw_position(a: Area, rng: &mut RandomSource) -> (p: (u64, u64))
    requires
        area_nonempty(a),
    ensures
        in_area(a, p),
{
    let x = rng.range(a.x_lo, a.x_hi);
    let y = rng.range(a.y_lo, a.y_hi);
    (x, y)
}

/// A name drawn uniformly from the pool.
pub fn draw_name(pool: &Vec<&str>, rng: &mut RandomSource) -> (s: String)
    requires
        pool@.len() > 0,
    ensures
        pooled(pool@, s@),
{
    let i = rng.range(0, pool.len() as u64) as usize;
    let s = String::from_str(pool[i]);
    assert(pool@[i as int]@ == s@);
    s
}

/// The animal is of a species of `pool`, in `area`, with an aggression in
/// `[ag_lo, ag_hi)`.
pub open spec fn wildlife_fits(s: WildlifeSpawn, pool: Seq<&str>, area: Area, ag_lo: int, ag_hi: int) -> bool {
    &&& pooled(pool, s.species@)
    &&& in_area(area, s.position)
    &&& ag_lo <= s.aggression < ag_hi
}

/// Appends between `lo` and `hi - 1` animals, each of a species drawn from
/// `pool`, placed in `area`, with an aggression drawn from `[ag_lo, ag_hi)`.
pub fn scatter_wildlife(
    out: &mut Vec<WildlifeSpawn>,
    pool: &Vec<&str>,
    lo: u64,
    hi: u64,
    area: Area,
    ag_lo: u32,
    ag_hi: u32,
    rng: &mut RandomSource,
)
    requires
        lo < hi,
        pool@.len() > 0,
        area_nonempty(area),
        ag_lo < ag_hi <= UNIT + 1,
    ensures
        old(out)@.len() + lo <= final(out)@.len() < old(out)@.len() + hi,
        final(out)@.subrange(0, old(out)@.len() as int) == old(out)@,
        forall|i: int|
            old(out)@.len() <= i < final(out)@.len() ==> wildlife_fits(
                #[trigger] final(out)@[i],
                pool@,
                area,
                ag_lo as int,
                ag_hi as int,
            ),
{
    let ghost start = out@;
    let count = rng.range(lo, hi);
    let mut k: u64 = 0;
    while k < count
        invariant
            k <= count < hi,
            lo <= count,
            pool@.len() > 0,
            area_nonempty(area),
            ag_lo < ag_hi <= UNIT + 1,
            out@.len() == start.len() + k,
            out@.subrange(0, start.len() as int) == start,
            forall|i: int|
                start.len() <= i < out@.len() ==> wildlife_fits(
                    #[trigger] out@[i],
                    pool@,
                    area,
                    ag_lo as int,
                    ag_hi as int,
                ),
        decreases count - k,
    {
        let species = draw_name(pool, rng);
        let position = draw_position(area, rng);
        let aggression = rng.range(ag_lo as u64, ag_hi as u64) as u32;
        out.push(WildlifeSpawn { species, position, aggression });
        assert(out@.subrange(0, start.len() as int) =~= start);
        k = k + 1;
    }
}

/// The character bears a name of `pool_a` followed by `title_a`, or of
/// `pool_b` followed by `title_b`; its kind is one of `kinds`; it stands in
/// `area` and speaks from `dialogue`.
pub open spec fn npc_fits(
    s: NPCSpawn,
    pool_a: Seq<&str>,
    title_a: Seq<char>,
    pool_b: Seq<&str>,
    title_b: Seq<char>,
    kinds: Seq<&str>,
    area: Area,
    dialogue: Seq<char>,
) -> bool {
    &&& titled(pool_a, title_a, s.name@) || titled(pool_b, title_b, s.name@)
    &&& pooled(kinds, s.npc_type@)
    &&& in_area(area, s.position)
    &&& s.dialogue_file@ == dialogue
}

/// A name drawn from the pool, followed by the title.
fn draw_titled(pool: &Vec<&str>, title: &str, rng: &mut RandomSource) -> (s: String)
    requires
        pool@.len() > 0,
    ensures
        titled(pool@, title@, s@),
{
    let i = rng.range(0, pool.len() as u64) as usize;
    let mut s = String::from_str(pool[i]);
    s.append(title);
    assert(pool@[i as int]@ + title@ == s@);
    s
}

/// Appends between `lo` and `hi - 1` characters. Each takes, with chance
/// `b_chance` in thousandths, a name of `pool_b` followed by `title_b`, and
/// otherwise a name of `pool_a` followed by `title_a`; a kind drawn from
/// `kinds`; a place in `area`; and the dialogue `dialogue`.
pub fn scatter_npcs(
    out: &mut Vec<NPCSpawn>,
    pool_a: &Vec<&str>,
    title_a: &str,
    pool_b: &Vec<&str>,
    title_b: &str,
    b_chance: u64,
    kinds: &Vec<&str>,
    lo: u64,
    hi: u64,
    area: Area,
    dialogue: &str,
    rng: &mut RandomSource,
)
    requires
        lo < hi,
        pool_a@.len() > 0,
        pool_b@.len() > 0,
        kinds@.len() > 0,
        area_nonempty(area),
    ensures
        old(out)@.len() + lo <= final(out)@.len() < old(out)@.len() + hi,
        final(out)@.subrange(0, old(out)@.len() as int) == old(out)@,
        forall|i: int|
            old(out)@.len() <= i < final(out)@.len() ==> npc_fits(
                #[trigger] final(out)@[i],
                pool_a@,
                title_a@,
                pool_b@,
                title_b@,
                kinds@,
                area,
                dialogue@,
            ),
        b_chance == 0 ==> forall|i: int|
            old(out)@.len() <= i < final(out)@.len() ==> titled(pool_a@, title_a@, (#[trigger] final(out)@[i]).name@),
{
    let ghost start = out@;
    let count = rng.range(lo, hi);
    let mut k: u64 = 0;
    while k < count
        invariant
            k <= count < hi,
            lo <= count,
            pool_a@.len() > 0,
            pool_b@.len() > 0,
            kinds@.len() > 0,
            area_nonempty(area),
            out@.len() == start.len() + k,
            out@.subrange(0, start.len() as int) == start,
            forall|i: int|
                start.len() <= i < out@.len() ==> npc_fits(
                    #[trigger] out@[i],
                    pool_a@,
                    title_a@,
                    pool_b@,
                    title_b@,
                    kinds@,
                    area,
                    dialogue@,
                ),
            b_chance == 0 ==> forall|i: int|
                start.len() <= i < out@.len() ==> titled(pool_a@, title_a@, (#[trigger] out@[i]).name@),
        decreases count - k,
    {
        let name = if rng.chance(b_chance) {
            draw_titled(pool_b, title_b, rng)
        } else {
            draw_titled(pool_a, title_a, rng)
        };
        let npc_type = draw_name(kinds, rng);
        let position = draw_position(area, rng);
        let dialogue_file = String::from_str(dialogue);
        out.push(NPCSpawn { name, npc_type, position, dialogue_file });
        assert(out@.subrange(0, start.len() as int) =~= start);
        k = k + 1;
    }
}

/// The item is one of `pool`, in `area`, with a quantity in `[q_lo, q_hi)`.
pub open spec fn item_fits(s: ItemSpawn, pool: Seq<&str>, area: Area, q_lo: int, q_hi: int) -> bool {
    &&& pooled(pool, s.item_id@)
    &&& in_area(area, s.position)
    &&& q_lo <= s.quantity < q_hi
}

/// Appends between `lo` and `hi - 1` items, each drawn from `pool`, placed in
/// `area`, with a quantity drawn from `[q_lo, q_hi)`.
pub fn scatter_items(
    out: &mut Vec<ItemSpawn>,
    pool: &Vec<&str>,
    lo: u64,
    hi: u64,
    area: Area,
    q_lo: u32,
    q_hi: u32,
    rng: &mut RandomSource,
)
    requires
        lo < hi,
        pool@.len() > 0,
        area_nonempty(area),
        q_lo < q_hi,
    ensures
        old(out)@.len() + lo <= final(out)@.len() < old(out)@.len() + hi,
        final(out)@.subrange(0, old(out)@.len() as int) == old(out)@,
        forall|i: int|
            old(out)@.len() <= i < final(out)@.len() ==> item_fits(
                #[trigger] final(out)@[i],
                pool@,
                area,
                q_lo as int,
                q_hi as int,
            ),
{
    let ghost start = out@;
    let count = rng.range(lo, hi);
    let mut k: u64 = 0;
    while k < count
        invariant
            k <= count < hi,
            lo <= count,
            pool@.len() > 0,
            area_nonempty(area),
            q_lo < q_hi,
            out@.len() == start.len() + k,
            out@.subrange(0, start.len() as int) == start,
            forall|i: int|
                start.len() <= i < out@.len() ==> item_fits(
                    #[trigger] out@[i],
                    pool@,
                    area,
                    q_lo as int,
                    q_hi as int,
                ),
        decreases count - k,
    {
        let item_id = draw_name(pool, rng);
        let position = draw_position(area, rng);
        let quantity = rng.range(q_lo as u64, q_hi as u64) as u32;
        out.push(ItemSpawn { item_id, position, quantity });
        assert(out@.subrange(0, start.len() as int) =~= start);
        k = k + 1;
    }
}

} // verus!
