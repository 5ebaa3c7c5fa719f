use vstd::prelude::*;

use crate::components::{Monster, Point};
use crate::events::MonsterWalkedIntoWallEvent;
use crate::random::random_below;
use crate::terrain::ROLL_RANGE;
use crate::world::{lemma_same_ids_keep_wf, Arena, EntityRecord};

verus! {

broadcast use vstd::seq_lib::group_seq_properties;

/// Chance, in percent, that a monster jumps when the jump timer fires.
pub const JUMP_CHANCE_PERCENT: u32 = 10;

/// Seconds between two firings of the monster jump timer.
pub const JUMP_PERIOD_SECONDS: u32 = 2;

/// A monster walks at its speed the way it faces, whatever pushed it.
pub open spec fn walking(e: EntityRecord) -> EntityRecord {
    match e.monster {
        Some(m) => EntityRecord {
            velocity: Point {
                x: (m.facing_direction.sign() * m.speed) as i64,
                y: e.velocity.y,
            },
            ..e
        },
        None => e,
    }
}

/// The wall bump names the entity `id`.
pub open spec fn names(id: u64) -> spec_fn(MonsterWalkedIntoWallEvent) -> bool {
    |w: MonsterWalkedIntoWallEvent| w.entity == id
}

/// A monster after the wall bumps of a tick: each bump that names it turns
/// it round once.
pub open spec fn after_walls(walls: Seq<MonsterWalkedIntoWallEvent>, e: EntityRecord) -> EntityRecord {
    match e.monster {
        Some(m) => if walls.filter(names(e.id)).len() % 2 == 1 {
            EntityRecord {
                monster: Some(Monster { facing_direction: m.facing_direction.flipped(), ..m }),
                ..e
            }
        } else {
            e
        },
        None => e,
    }
}

/// A monster that jumps: it leaps straight up with its impulse.
pub open spec fn jumped(e: EntityRecord) -> EntityRecord {
    match (e.monster, e.jumper) {
        (Some(_), Some(j)) => EntityRecord { velocity: Point { x: 0, y: j.jump_impulse }, ..e },
        _ => e,
    }
}

/// Sets the horizontal speed of every monster from its facing.
pub fn monster_walking_system(arena: &mut Arena)
    requires
        old(arena).wf(),
    ensures
        final(arena).wf(),
        final(arena).next_id == old(arena).next_id,
        final(arena).entities@ == old(arena).entities@.map_values(|e: EntityRecord| walking(e)),
{
    let ghost ents = arena.entities@;
    let mut updated: Vec<EntityRecord> = Vec::new();
    let mut i: usize = 0;
    while i < arena.entities.len()
        invariant
            ents == arena.entities@,
            i <= ents.len(),
            updated@ == ents.take(i as int).map_values(|e: EntityRecord| walking(e)),
        decreases ents.len() - i,
    {
        let mut e = arena.entities[i];
        if let Some(m) = e.monster {
            e.velocity = Point { x: m.facing_direction.signed(m.speed), y: e.velocity.y };
        }
        updated.push(e);
        i = i + 1;
        assert(ents.take(i as int).map_values(|e: EntityRecord| walking(e)) =~= ents.take(
            i - 1,
        ).map_values(|e: EntityRecord| walking(e)).push(walking(ents[i - 1])));
    }
    assert(ents.take(i as int) =~= ents);
    proof {
        lemma_same_ids_keep_wf(ents, updated@, arena.next_id);
    }
    arena.entities = updated;
}

/// Whether an odd number of the bumps name `id`.
fn odd_bumps(walls: &Vec<MonsterWalkedIntoWallEvent>, id: u64) -> (r: bool)
    ensures
        r == (walls@.filter(names(id)).len() % 2 == 1),
{
    let mut odd = false;
    let mut i: usize = 0;
    while i < walls.len()
        invariant
            i <= walls.len(),
            odd == (walls@.take(i as int).filter(names(id)).len() % 2 == 1),
        decreases walls.len() - i,
    {
        proof {
            assert(walls@.take(i + 1) =~= walls@.take(i as int).push(walls@[i as int]));
            walls@.take(i as int).lemma_filter_push(walls@[i as int], names(id));
        }
        if walls[i].entity == id {
            odd = !odd;
        }
        i = i + 1;
    }
    assert(walls@.take(i as int) =~= walls@);
    odd
}

/// Turns every monster round once per wall bump that names it. A bump for
/// an entity that is gone, or is no monster, changes nothing.
pub fn monster_change_direction_on_contact(
    walls: &Vec<MonsterWalkedIntoWallEvent>,
    arena: &mut Arena,
)
    requires
        old(arena).wf(),
    ensures
        final(arena).wf(),
        final(arena).next_id == old(arena).next_id,
        final(arena).entities@ == old(arena).entities@.map_values(
            |e: EntityRecord| after_walls(walls@, e),
        ),
{
    let ghost ents = arena.entities@;
    let mut updated: Vec<EntityRecord> = Vec::new();
    let mut i: usize = 0;
    while i < arena.entities.len()
        invariant
            ents == arena.entities@,
            i <= ents.len(),
            updated@ == ents.take(i as int).map_values(|e: EntityRecord| after_walls(walls@, e)),
        decreases ents.len() - i,
    {
        let mut e = arena.entities[i];
        if let Some(m) = e.monster {
            if odd_bumps(walls, e.id) {
                e.monster = Some(Monster { facing_direction: m.facing_direction.flip(), ..m });
            }
        }
        updated.push(e);
        i = i + 1;
        assert(ents.take(i as int).map_values(|e: EntityRecord| after_walls(walls@, e))
            =~= ents.take(i - 1).map_values(|e: EntityRecord| after_walls(walls@, e)).push(
            after_walls(walls@, ents[i - 1]),
        ));
    }
    assert(ents.take(i as int) =~= ents);
    proof {
        lemma_same_ids_keep_wf(ents, updated@, arena.next_id);
    }
    arena.entities = updated;
}

/// Whether a roll in `0..100` makes a monster jump.
pub fn should_jump_for_roll(roll: u32) -> (r: bool)
    ensures
        r == (roll < JUMP_CHANCE_PERCENT),
{
    roll < JUMP_CHANCE_PERCENT
}

/// Draws whether a monster jumps: a roll in `0..100` below the jump chance.
pub fn should_jump() -> bool {
    let roll = random_below(ROLL_RANGE);
    should_jump_for_roll(roll)
}

/// The monster `e` after the jump timer, given whether it jumps.
pub fn monster_jump(e: EntityRecord, jumps: bool) -> (r: EntityRecord)
    ensures
        jumps ==> r == jumped(e),
        !jumps ==> r == e,
{
    if jumps {
        if let (Some(_), Some(j)) = (e.monster, e.jumper) {
            return EntityRecord { velocity: Point { x: 0, y: j.jump_impulse }, ..e };
        }
    }
    e
}

/// When the jump timer fires: every monster that can jump draws whether it
/// does, independently of the others and of the ground.
pub fn monster_jumps(arena: &mut Arena)
    requires
        old(arena).wf(),
    ensures
        final(arena).wf(),
        final(arena).next_id == old(arena).next_id,
        final(arena).entities@.len() == old(arena).entities@.len(),
        forall|i: int|
            0 <= i < old(arena).entities@.len() ==> #[trigger] final(arena).entities@[i]
                == old(arena).entities@[i] || final(arena).entities@[i] == jumped(
                old(arena).entities@[i],
            ),
{
    let ghost ents = arena.entities@;
    let mut updated: Vec<EntityRecord> = Vec::new();
    let mut i: usize = 0;
    while i < arena.entities.len()
        invariant
            ents == arena.entities@,
            i <= ents.len(),
            updated@.len() == i,
            forall|j: int|
                0 <= j < i ==> #[trigger] updated@[j] == ents[j] || updated@[j] == jumped(ents[j]),
        decreases ents.len() - i,
    {
        let e = arena.entities[i];
        let mut r = e;
        if e.monster.is_some() && e.jumper.is_some() {
            r = monster_jump(e, should_jump());
        }
        updated.push(r);
        i = i + 1;
    }
    proof {
        lemma_same_ids_keep_wf(ents, updated@, arena.next_id);
    }
    arena.entities = updated;
}

} // verus!
