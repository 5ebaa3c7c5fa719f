use vstd::prelude::*;

use crate::factory::{
    column_fits, monster_record, monster_spec, slab_record, slab_spec, spawn_all, tile_record,
    tile_spec, winning_zone_record, winning_zone_spec, with_ids,
};
use crate::floor::{add_colliders, is_floor_of, maximal_run, FloorSegment};
use crate::terrain::{
    add_enemies, create_world, enemy_columns_ok, height_at, is_profile_of, lemma_height_bounds,
    rolls_in_range, WORLD_WIDTH,
};
use crate::world::{Arena, EntityRecord};

verus! {

broadcast use vstd::seq_lib::group_seq_properties;

/// The drawn columns of a profile, left to right.
pub open spec fn tiles_of(h: Seq<usize>) -> Seq<EntityRecord> {
    Seq::new(h.len(), |x: int| tile_spec(x as usize, h[x]))
}

/// The slabs of the floor segments, in order.
pub open spec fn slabs_of(segs: Seq<FloorSegment>) -> Seq<EntityRecord> {
    segs.map_values(|s: FloorSegment| slab_spec(s))
}

/// The monsters of the chosen columns, each standing one unit above its column.
pub open spec fn monsters_of(h: Seq<usize>, cols: Seq<usize>) -> Seq<EntityRecord> {
    cols.map_values(|x: usize| monster_spec(x, (h[x as int] + 1) as usize))
}

/// Every entity of a level: the drawn columns, the floor slabs, the
/// monsters, then the winning zone just past the last column.
pub open spec fn level_records(h: Seq<usize>, segs: Seq<FloorSegment>, cols: Seq<usize>) -> Seq<
    EntityRecord,
> {
    tiles_of(h) + slabs_of(segs) + monsters_of(h, cols) + seq![winning_zone_spec(h.len() as usize)]
}

/// The positions of a profile fit the fixed-point range: its width, and
/// each column's height with the monster standing on it.
pub open spec fn level_fits(h: Seq<usize>) -> bool {
    &&& column_fits(h.len() as int)
    &&& forall|x: int| 0 <= x < h.len() ==> #[trigger] h[x] < usize::MAX && column_fits(h[x] + 1)
}

/// The arena after spawning `recs`: spawned under fresh handles, or left
/// as it was where the handles would run out.
pub open spec fn spawned(before: Arena, after: Arena, recs: Seq<EntityRecord>) -> bool {
    if before.next_id + recs.len() <= u64::MAX {
        &&& after.entities@ == before.entities@ + with_ids(recs, before.next_id as int)
        &&& after.next_id == before.next_id + recs.len()
    } else {
        &&& after.entities@ == before.entities@
        &&& after.next_id == before.next_id
    }
}

/// The records of the level of a profile, its floor and its monsters.
pub fn build_level(heights: &Vec<usize>, segs: &Vec<FloorSegment>, cols: &Vec<usize>) -> (r: Vec<
    EntityRecord,
>)
    requires
        level_fits(heights@),
        is_floor_of(heights@, segs@),
        enemy_columns_ok(heights@.len() as int, cols@),
    ensures
        r@ == level_records(heights@, segs@, cols@),
{
    let mut r: Vec<EntityRecord> = Vec::new();
    let mut x: usize = 0;
    while x < heights.len()
        invariant
            level_fits(heights@),
            x <= heights.len(),
            r@ == tiles_of(heights@).take(x as int),
        decreases heights.len() - x,
    {
        r.push(tile_record(x, heights[x]));
        x = x + 1;
        assert(r@ =~= tiles_of(heights@).take(x as int));
    }
    assert(tiles_of(heights@).take(x as int) =~= tiles_of(heights@));
    let ghost tiles = r@;
    let mut k: usize = 0;
    while k < segs.len()
        invariant
            level_fits(heights@),
            is_floor_of(heights@, segs@),
            tiles == tiles_of(heights@),
            k <= segs.len(),
            r@ == tiles + slabs_of(segs@).take(k as int),
        decreases segs.len() - k,
    {
        assert(maximal_run(heights@, segs@[k as int]));
        assert(heights@[segs@[k as int].start as int] >= segs@[k as int].level);
        r.push(slab_record(&segs[k]));
        k = k + 1;
        assert(r@ =~= tiles + slabs_of(segs@).take(k as int));
    }
    assert(slabs_of(segs@).take(k as int) =~= slabs_of(segs@));
    let ghost floor = r@;
    let mut m: usize = 0;
    while m < cols.len()
        invariant
            level_fits(heights@),
            enemy_columns_ok(heights@.len() as int, cols@),
            floor == tiles_of(heights@) + slabs_of(segs@),
            m <= cols.len(),
            r@ == floor + monsters_of(heights@, cols@).take(m as int),
        decreases cols.len() - m,
    {
        let x = cols[m];
        r.push(monster_record(x, heights[x] + 1));
        m = m + 1;
        assert(r@ =~= floor + monsters_of(heights@, cols@).take(m as int));
    }
    assert(monsters_of(heights@, cols@).take(m as int) =~= monsters_of(heights@, cols@));
    r.push(winning_zone_record(heights.len()));
    r
}

/// Generates a level and spawns it: a drawn profile of the world width,
/// its floor, monsters on drawn columns and the winning zone. Returns the
/// profile.
pub fn spawn_floor(arena: &mut Arena) -> (heights: Vec<usize>)
    requires
        old(arena).wf(),
    ensures
        final(arena).wf(),
        heights@.len() == WORLD_WIDTH,
        exists|rolls: Seq<u32>| rolls_in_range(rolls) && #[trigger] is_profile_of(heights@, rolls),
        exists|segs: Seq<FloorSegment>, cols: Seq<usize>|
            is_floor_of(heights@, segs) && enemy_columns_ok(WORLD_WIDTH as int, cols) && spawned(
                *old(arena),
                *final(arena),
                #[trigger] level_records(heights@, segs, cols),
            ),
{
    let heights = create_world(WORLD_WIDTH);
    proof {
        let rolls = choose|rolls: Seq<u32>| rolls_in_range(rolls) && #[trigger] is_profile_of(heights@, rolls);
        assert forall|x: int| 0 <= x < heights@.len() implies #[trigger] heights@[x] < usize::MAX
            && column_fits(heights@[x] + 1) by {
            lemma_height_bounds(rolls, x as nat);
        }
    }
    let segs = add_colliders(&heights);
    let cols = add_enemies(&heights);
    let recs = build_level(&heights, &segs, &cols);
    if arena.next_id as u128 + recs.len() as u128 <= u64::MAX as u128 {
        spawn_all(arena, &recs);
    }
    assert(spawned(*old(arena), *arena, level_records(heights@, segs@, cols@)));
    heights
}

} // verus!
