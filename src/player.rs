use vstd::prelude::*;

use crate::components::{GameDirection, Jumper, Player, Point};
use crate::events::BulletFiredEvent;
use crate::world::{lemma_same_ids_keep_wf, with_facet, Arena, EntityRecord, Facet};

verus! {

broadcast use vstd::seq_lib::group_seq_properties;

/// The keys of one tick: held keys, and keys pressed on this very tick.
#[derive(Clone, Copy, Debug, PartialEq, Eq, Structural)]
pub struct InputState {
    pub left_pressed: bool,
    pub right_pressed: bool,
    pub jump_just_pressed: bool,
    pub fire_just_pressed: bool,
    pub escape_just_pressed: bool,
}

/// A player after the movement keys: a held key sets the horizontal speed
/// and the facing, right winning over left; with no key both stay.
pub open spec fn after_controls(e: EntityRecord, input: InputState) -> EntityRecord {
    match e.player {
        Some(p) => if input.right_pressed {
            EntityRecord {
                velocity: Point { x: p.speed as i64, y: e.velocity.y },
                player: Some(Player { facing_direction: GameDirection::Right, ..p }),
                ..e
            }
        } else if input.left_pressed {
            EntityRecord {
                velocity: Point { x: (-(p.speed as int)) as i64, y: e.velocity.y },
                player: Some(Player { facing_direction: GameDirection::Left, ..p }),
                ..e
            }
        } else {
            e
        },
        None => e,
    }
}

/// A jumping player after the jump key: on the tick the key goes down, a
/// player that is not yet jumping leaps with its impulse.
pub open spec fn after_jump_key(e: EntityRecord, input: InputState) -> EntityRecord {
    match (e.player, e.jumper) {
        (Some(_), Some(j)) => if input.jump_just_pressed && !j.is_jumping {
            EntityRecord {
                velocity: Point { x: 0, y: j.jump_impulse },
                jumper: Some(Jumper { is_jumping: true, ..j }),
                ..e
            }
        } else {
            e
        },
        _ => e,
    }
}

/// The shot of a player: from where it stands, the way it faces.
pub open spec fn shot_of() -> spec_fn(EntityRecord) -> BulletFiredEvent {
    |e: EntityRecord|
        BulletFiredEvent {
            position: e.position,
            direction: match e.player {
                Some(p) => p.facing_direction,
                None => GameDirection::Right,
            },
        }
}

/// Applies the movement keys to every player.
pub fn player_controller(arena: &mut Arena, input: InputState)
    requires
        old(arena).wf(),
    ensures
        final(arena).wf(),
        final(arena).next_id == old(arena).next_id,
        final(arena).entities@ == old(arena).entities@.map_values(
            |e: EntityRecord| after_controls(e, input),
        ),
{
    let ghost ents = arena.entities@;
    let mut updated: Vec<EntityRecord> = Vec::new();
    let mut i: usize = 0;
    while i < arena.entities.len()
        invariant
            ents == arena.entities@,
            i <= ents.len(),
            updated@ == ents.take(i as int).map_values(|e: EntityRecord| after_controls(e, input)),
        decreases ents.len() - i,
    {
        let mut e = arena.entities[i];
        if let Some(p) = e.player {
            if input.left_pressed {
                e.velocity = Point { x: -(p.speed as i64), y: e.velocity.y };
                e.player = Some(Player { facing_direction: GameDirection::Left, ..p });
            }
            if input.right_pressed {
                e.velocity = Point { x: p.speed as i64, y: e.velocity.y };
                e.player = Some(Player { facing_direction: GameDirection::Right, ..p });
            }
        }
        updated.push(e);
        i = i + 1;
        assert(ents.take(i as int).map_values(|e: EntityRecord| after_controls(e, input))
            =~= ents.take(i - 1).map_values(|e: EntityRecord| after_controls(e, input)).push(
            after_controls(ents[i - 1], input),
        ));
    }
    assert(ents.take(i as int) =~= ents);
    proof {
        lemma_same_ids_keep_wf(ents, updated@, arena.next_id);
    }
    arena.entities = updated;
}

/// Applies the jump key to every player that can jump.
pub fn player_jumps(arena: &mut Arena, input: InputState)
    requires
        old(arena).wf(),
    ensures
        final(arena).wf(),
        final(arena).next_id == old(arena).next_id,
        final(arena).entities@ == old(arena).entities@.map_values(
            |e: EntityRecord| after_jump_key(e, input),
        ),
{
    let ghost ents = arena.entities@;
    let mut updated: Vec<EntityRecord> = Vec::new();
    let mut i: usize = 0;
    while i < arena.entities.len()
        invariant
            ents == arena.entities@,
            i <= ents.len(),
            updated@ == ents.take(i as int).map_values(|e: EntityRecord| after_jump_key(e, input)),
        decreases ents.len() - i,
    {
        let mut e = arena.entities[i];
        if let (Some(_), Some(j)) = (e.player, e.jumper) {
            if input.jump_just_pressed && !j.is_jumping {
                e.velocity = Point { x: 0, y: j.jump_impulse };
                e.jumper = Some(Jumper { is_jumping: true, ..j });
            }
        }
        updated.push(e);
        i = i + 1;
        assert(ents.take(i as int).map_values(|e: EntityRecord| after_jump_key(e, input))
            =~= ents.take(i - 1).map_values(|e: EntityRecord| after_jump_key(e, input)).push(
            after_jump_key(ents[i - 1], input),
        ));
    }
    assert(ents.take(i as int) =~= ents);
    proof {
        lemma_same_ids_keep_wf(ents, updated@, arena.next_id);
    }
    arena.entities = updated;
}

/// On the tick the fire key goes down, every player fires a bullet.
pub fn fire_controller(arena: &Arena, input: InputState, fired: &mut Vec<BulletFiredEvent>)
    ensures
        input.fire_just_pressed ==> final(fired)@ == old(fired)@ + arena.entities@.filter(
            with_facet(Facet::Player),
        ).map_values(shot_of()),
        !input.fire_just_pressed ==> final(fired)@ == old(fired)@,
{
    if !input.fire_just_pressed {
        return;
    }
    let ghost ents = arena.entities@;
    let ghost p = with_facet(Facet::Player);
    let ghost start = fired@;
    let mut i: usize = 0;
    while i < arena.entities.len()
        invariant
            ents == arena.entities@,
            p == with_facet(Facet::Player),
            i <= ents.len(),
            fired@ == start + ents.take(i as int).filter(p).map_values(shot_of()),
        decreases ents.len() - i,
    {
        let e = arena.entities[i];
        proof {
            assert(ents.take(i + 1) =~= ents.take(i as int).push(e));
            ents.take(i as int).lemma_filter_push(e, p);
            assert(ents.take(i as int).filter(p).push(e).map_values(shot_of()) =~= ents.take(
                i as int,
            ).filter(p).map_values(shot_of()).push(shot_of()(e)));
        }
        if let Some(pl) = e.player {
            fired.push(BulletFiredEvent { position: e.position, direction: pl.facing_direction });
        }
        i = i + 1;
    }
    assert(ents.take(i as int) =~= ents);
}

/// Where the camera goes: onto the last player, if there is one.
pub fn camera_follow_player(arena: &Arena) -> (r: Option<Point>)
    ensures
        arena.entities@.filter(with_facet(Facet::Player)).len() > 0 ==> r == Some(
            arena.entities@.filter(with_facet(Facet::Player)).last().position,
        ),
        arena.entities@.filter(with_facet(Facet::Player)).len() == 0 ==> r is None,
{
    let ghost ents = arena.entities@;
    let ghost p = with_facet(Facet::Player);
    let mut r: Option<Point> = None;
    let mut i: usize = 0;
    while i < arena.entities.len()
        invariant
            ents == arena.entities@,
            p == with_facet(Facet::Player),
            i <= ents.len(),
            ents.take(i as int).filter(p).len() > 0 ==> r == Some(
                ents.take(i as int).filter(p).last().position,
            ),
            ents.take(i as int).filter(p).len() == 0 ==> r is None,
        decreases ents.len() - i,
    {
        let e = arena.entities[i];
        proof {
            assert(ents.take(i + 1) =~= ents.take(i as int).push(e));
            ents.take(i as int).lemma_filter_push(e, p);
        }
        if e.player.is_some() {
            r = Some(e.position);
        }
        i = i + 1;
    }
    assert(ents.take(i as int) =~= ents);
    r
}

} // verus!
