use vstd::prelude::*;

use crate::events::{LivingBeingDeathEvent, LivingBeingHitEvent};
use crate::state::{after_request, AppState, StateMachine};
use crate::world::{id_not_in, lemma_filter_congruent, single_spec, Arena, EntityRecord, Facet};

verus! {

broadcast use vstd::seq_lib::group_seq_properties;

/// A living being whose height is below this many steps dies.
pub const DEATH_HEIGHT: i64 = -1000;

/// The handles that death events name, in order.
pub open spec fn death_ids(deaths: Seq<LivingBeingDeathEvent>) -> Seq<u64> {
    deaths.map_values(|d: LivingBeingDeathEvent| d.entity)
}

/// A living being that fell below the death height.
pub open spec fn has_fallen() -> spec_fn(EntityRecord) -> bool {
    |e: EntityRecord| e.living_being is Some && e.position.y < DEATH_HEIGHT
}

/// The death event of an entity.
pub open spec fn death_of() -> spec_fn(EntityRecord) -> LivingBeingDeathEvent {
    |e: EntityRecord| LivingBeingDeathEvent { entity: e.id }
}

/// Turns every hit into a death, in order.
pub fn on_living_being_hit(hits: &Vec<LivingBeingHitEvent>, deaths: &mut Vec<LivingBeingDeathEvent>)
    ensures
        final(deaths)@ == old(deaths)@ + hits@.map_values(
            |h: LivingBeingHitEvent| LivingBeingDeathEvent { entity: h.entity },
        ),
{
    let ghost start = deaths@;
    let mut i: usize = 0;
    while i < hits.len()
        invariant
            i <= hits.len(),
            deaths@ == start + hits@.take(i as int).map_values(
                |h: LivingBeingHitEvent| LivingBeingDeathEvent { entity: h.entity },
            ),
        decreases hits.len() - i,
    {
        deaths.push(LivingBeingDeathEvent { entity: hits[i].entity });
        i = i + 1;
        assert(hits@.take(i as int).map_values(
            |h: LivingBeingHitEvent| LivingBeingDeathEvent { entity: h.entity },
        ) =~= hits@.take(i - 1).map_values(
            |h: LivingBeingHitEvent| LivingBeingDeathEvent { entity: h.entity },
        ).push(LivingBeingDeathEvent { entity: hits@[i - 1].entity }));
    }
    assert(hits@.take(i as int) =~= hits@);
}

/// Removes every entity that a death event names; an entity named twice, or
/// already gone, is passed over. Where the unique player dies, the game is
/// over at the end of the tick.
pub fn on_living_being_dead(
    deaths: &Vec<LivingBeingDeathEvent>,
    arena: &mut Arena,
    machine: &mut StateMachine,
)
    requires
        old(arena).wf(),
    ensures
        final(arena).wf(),
        final(arena).next_id == old(arena).next_id,
        final(arena).entities@ == old(arena).entities@.filter(id_not_in(death_ids(deaths@))),
        (single_spec(old(arena).entities@, Facet::Player) matches Some(p) && death_ids(
            deaths@,
        ).contains(p)) ==> *final(machine) == after_request(*old(machine), AppState::GameOver),
        !(single_spec(old(arena).entities@, Facet::Player) matches Some(p) && death_ids(
            deaths@,
        ).contains(p)) ==> *final(machine) == *old(machine),
{
    let player = arena.single(Facet::Player);
    let mut ids: Vec<u64> = Vec::new();
    let mut i: usize = 0;
    while i < deaths.len()
        invariant
            i <= deaths.len(),
            ids@ == death_ids(deaths@.take(i as int)),
        decreases deaths.len() - i,
    {
        ids.push(deaths[i].entity);
        i = i + 1;
        assert(death_ids(deaths@.take(i as int)) =~= death_ids(deaths@.take(i - 1)).push(
            deaths@[i - 1].entity,
        ));
    }
    assert(deaths@.take(i as int) =~= deaths@);
    arena.despawn_all(&ids);
    if let Some(p) = player {
        if crate::world::contains_id(&ids, p) {
            machine.request(AppState::GameOver);
        }
    }
}

/// Sends a death event for every living being below the death height.
pub fn death_by_height(arena: &Arena, deaths: &mut Vec<LivingBeingDeathEvent>)
    ensures
        final(deaths)@ == old(deaths)@ + arena.entities@.filter(has_fallen()).map_values(
            death_of(),
        ),
{
    let ghost ents = arena.entities@;
    let ghost start = deaths@;
    let mut i: usize = 0;
    while i < arena.entities.len()
        invariant
            ents == arena.entities@,
            i <= ents.len(),
            deaths@ == start + ents.take(i as int).filter(has_fallen()).map_values(death_of()),
        decreases ents.len() - i,
    {
        let e = arena.entities[i];
        proof {
            assert(ents.take(i + 1) =~= ents.take(i as int).push(e));
            ents.take(i as int).lemma_filter_push(e, has_fallen());
            assert(ents.take(i as int).filter(has_fallen()).push(e).map_values(death_of())
                =~= ents.take(i as int).filter(has_fallen()).map_values(death_of()).push(
                death_of()(e),
            ));
        }
        if e.living_being.is_some() && e.position.y < DEATH_HEIGHT {
            deaths.push(LivingBeingDeathEvent { entity: e.id });
        }
        i = i + 1;
    }
    assert(ents.take(i as int) =~= ents);
}

/// Filtering again by the same handles removes nothing more.
proof fn lemma_filter_twice(s: Seq<EntityRecord>, ids: Seq<u64>)
    ensures
        s.filter(id_not_in(ids)).filter(id_not_in(ids)) == s.filter(id_not_in(ids)),
    decreases s.len(),
{
    reveal(Seq::filter);
    if s.len() > 0 {
        lemma_filter_twice(s.drop_last(), ids);
        let f = s.drop_last().filter(id_not_in(ids));
        if id_not_in(ids)(s.last()) {
            f.lemma_filter_push(s.last(), id_not_in(ids));
        }
    }
}

/// Despawning is idempotent: a second death event for an entity that an
/// earlier event of the tick already names removes nothing more, and
/// handling the same deaths twice leaves the arena as handling them once.
pub proof fn lemma_repeated_death_is_no_op(
    ents: Seq<EntityRecord>,
    deaths: Seq<LivingBeingDeathEvent>,
    again: LivingBeingDeathEvent,
)
    requires
        death_ids(deaths).contains(again.entity),
    ensures
        ents.filter(id_not_in(death_ids(deaths.push(again)))) == ents.filter(
            id_not_in(death_ids(deaths)),
        ),
        ents.filter(id_not_in(death_ids(deaths))).filter(id_not_in(death_ids(deaths)))
            == ents.filter(id_not_in(death_ids(deaths))),
{
    let a = death_ids(deaths);
    let b = death_ids(deaths.push(again));
    assert(b =~= a.push(again.entity));
    assert forall|i: int| 0 <= i < ents.len() implies #[trigger] id_not_in(b)(ents[i]) == id_not_in(
        a,
    )(ents[i]) by {
        let x = ents[i].id;
        if b.contains(x) && !a.contains(x) {
            let k = choose|k: int| 0 <= k < b.len() && b[k] == x;
            if k < a.len() {
                assert(a[k] == x);
            }
        }
        if a.contains(x) {
            let k = choose|k: int| 0 <= k < a.len() && a[k] == x;
            assert(b[k] == x);
        }
    }
    lemma_filter_congruent(ents, id_not_in(b), id_not_in(a));
    lemma_filter_twice(ents, a);
}

} // verus!
