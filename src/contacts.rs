use vstd::prelude::*;

use crate::components::Jumper;
use crate::events::{
    started_pair, started_pair_of, ContactEvent, LivingBeingHitEvent, MonsterWalkedIntoWallEvent,
};
use crate::state::{after_request, AppState, StateMachine};
use crate::world::{id_not_in, is_a, lemma_filter_congruent, single_spec, Arena, EntityRecord, Facet};

verus! {

broadcast use vstd::seq_lib::group_seq_properties;

/// The messages that a list of contact events gives, event by event, where
/// `f` gives those of one event.
pub open spec fn collect<T>(cs: Seq<ContactEvent>, f: spec_fn(ContactEvent) -> Seq<T>) -> Seq<T>
    decreases cs.len(),
{
    if cs.len() == 0 {
        Seq::empty()
    } else {
        collect(cs.drop_last(), f) + f(cs.last())
    }
}

proof fn lemma_collect_step<T>(cs: Seq<ContactEvent>, f: spec_fn(ContactEvent) -> Seq<T>, i: int)
    requires
        0 <= i < cs.len(),
    ensures
        collect(cs.take(i + 1), f) == collect(cs.take(i), f) + f(cs[i]),
{
    assert(cs.take(i + 1).drop_last() =~= cs.take(i));
}

/// `x` alone where `cond` holds, nothing otherwise.
pub open spec fn one_if<T>(cond: bool, x: T) -> Seq<T> {
    if cond {
        seq![x]
    } else {
        Seq::empty()
    }
}

/// Hits of the pair `(a, b)`: the living being that a bullet touched.
pub open spec fn pair_bullet_hits(ents: Seq<EntityRecord>, a: u64, b: u64) -> Seq<
    LivingBeingHitEvent,
> {
    one_if(
        is_a(ents, a, Facet::Bullet) && is_a(ents, b, Facet::LivingBeing),
        LivingBeingHitEvent { entity: b },
    ) + one_if(
        a != b && is_a(ents, b, Facet::Bullet) && is_a(ents, a, Facet::LivingBeing),
        LivingBeingHitEvent { entity: a },
    )
}

/// Hits that one contact event gives by bullet.
pub open spec fn bullet_hits(ents: Seq<EntityRecord>) -> spec_fn(ContactEvent) -> Seq<
    LivingBeingHitEvent,
> {
    |c: ContactEvent|
        match started_pair(c) {
            Some((a, b)) => pair_bullet_hits(ents, a, b),
            None => Seq::empty(),
        }
}

/// Hits of the pair `(a, b)`: the player that an enemy touched.
pub open spec fn pair_enemy_hits(ents: Seq<EntityRecord>, a: u64, b: u64) -> Seq<
    LivingBeingHitEvent,
> {
    one_if(
        is_a(ents, a, Facet::Player) && is_a(ents, b, Facet::Enemy),
        LivingBeingHitEvent { entity: a },
    ) + one_if(
        a != b && is_a(ents, b, Facet::Player) && is_a(ents, a, Facet::Enemy),
        LivingBeingHitEvent { entity: b },
    )
}

/// Hits that one contact event gives by enemy.
pub open spec fn enemy_hits(ents: Seq<EntityRecord>) -> spec_fn(ContactEvent) -> Seq<
    LivingBeingHitEvent,
> {
    |c: ContactEvent|
        match started_pair(c) {
            Some((a, b)) => pair_enemy_hits(ents, a, b),
            None => Seq::empty(),
        }
}

/// Wall bumps of the pair `(a, b)`: each monster in it ran into something.
pub open spec fn pair_walls(ents: Seq<EntityRecord>, a: u64, b: u64) -> Seq<
    MonsterWalkedIntoWallEvent,
> {
    one_if(is_a(ents, a, Facet::Monster), MonsterWalkedIntoWallEvent { entity: a }) + one_if(
        a != b && is_a(ents, b, Facet::Monster),
        MonsterWalkedIntoWallEvent { entity: b },
    )
}

/// Wall bumps that one contact event gives.
pub open spec fn wall_bumps(ents: Seq<EntityRecord>) -> spec_fn(ContactEvent) -> Seq<
    MonsterWalkedIntoWallEvent,
> {
    |c: ContactEvent|
        match started_pair(c) {
            Some((a, b)) => pair_walls(ents, a, b),
            None => Seq::empty(),
        }
}

/// Some contact-begin event of `cs` names `id`.
pub open spec fn touched(cs: Seq<ContactEvent>, id: u64) -> bool {
    exists|k: int|
        0 <= k < cs.len() && (#[trigger] started_pair(cs[k]) matches Some((a, b)) && (a == id || b
            == id))
}

/// Some contact-begin event of `cs` pairs `id` with a floor slab.
pub open spec fn touched_floor(ents: Seq<EntityRecord>, cs: Seq<ContactEvent>, id: u64) -> bool {
    exists|k: int|
        0 <= k < cs.len() && (#[trigger] started_pair(cs[k]) matches Some((a, b)) && ((a == id
            && is_a(ents, b, Facet::Floor)) || (b == id && is_a(ents, a, Facet::Floor))))
}

/// The contact event pairs the unique player with the unique winning zone.
pub open spec fn is_win_contact(ents: Seq<EntityRecord>, c: ContactEvent) -> bool {
    &&& single_spec(ents, Facet::Player) matches Some(p)
    &&& single_spec(ents, Facet::WinningZone) matches Some(w)
    &&& started_pair(c) matches Some((a, b))
    &&& ((a == p && b == w) || (a == w && b == p))
}

/// A bullet that touched anything is gone; every other entity stays.
pub open spec fn survives_contacts(cs: Seq<ContactEvent>) -> spec_fn(EntityRecord) -> bool {
    |e: EntityRecord| !(e.bullet is Some && touched(cs, e.id))
}

/// The entity after the floor contacts of a tick: a jump ends when a
/// contact-begin event pairs it with a floor slab.
pub open spec fn after_jump_reset(
    ents: Seq<EntityRecord>,
    cs: Seq<ContactEvent>,
    e: EntityRecord,
) -> EntityRecord {
    match e.jumper {
        Some(j) => if touched_floor(ents, cs, e.id) {
            EntityRecord { jumper: Some(Jumper { is_jumping: false, ..j }), ..e }
        } else {
            e
        },
        None => e,
    }
}

/// Sends a hit for every living being that a bullet touched.
pub fn kill_on_contact(
    arena: &Arena,
    contacts: &Vec<ContactEvent>,
    hits: &mut Vec<LivingBeingHitEvent>,
)
    requires
        arena.wf(),
    ensures
        final(hits)@ == old(hits)@ + collect(contacts@, bullet_hits(arena.entities@)),
{
    let ghost ents = arena.entities@;
    let ghost start = hits@;
    let mut i: usize = 0;
    while i < contacts.len()
        invariant
            arena.wf(),
            ents == arena.entities@,
            i <= contacts.len(),
            hits@ == start + collect(contacts@.take(i as int), bullet_hits(ents)),
        decreases contacts.len() - i,
    {
        proof {
            lemma_collect_step(contacts@, bullet_hits(ents), i as int);
        }
        let ghost before = hits@;
        if let Some((a, b)) = started_pair_of(contacts[i]) {
            if arena.is_a(a, Facet::Bullet) && arena.is_a(b, Facet::LivingBeing) {
                hits.push(LivingBeingHitEvent { entity: b });
            }
            if a != b && arena.is_a(b, Facet::Bullet) && arena.is_a(a, Facet::LivingBeing) {
                hits.push(LivingBeingHitEvent { entity: a });
            }
            assert(hits@ =~= before + pair_bullet_hits(ents, a, b));
        } else {
            assert(hits@ =~= before + bullet_hits(ents)(contacts@[i as int]));
        }
        i = i + 1;
    }
    assert(contacts@.take(i as int) =~= contacts@);
}

/// Sends a hit for the player whenever an enemy touched it.
pub fn death_by_enemy(
    arena: &Arena,
    contacts: &Vec<ContactEvent>,
    hits: &mut Vec<LivingBeingHitEvent>,
)
    requires
        arena.wf(),
    ensures
        final(hits)@ == old(hits)@ + collect(contacts@, enemy_hits(arena.entities@)),
{
    let ghost ents = arena.entities@;
    let ghost start = hits@;
    let mut i: usize = 0;
    while i < contacts.len()
        invariant
            arena.wf(),
            ents == arena.entities@,
            i <= contacts.len(),
            hits@ == start + collect(contacts@.take(i as int), enemy_hits(ents)),
        decreases contacts.len() - i,
    {
        proof {
            lemma_collect_step(contacts@, enemy_hits(ents), i as int);
        }
        let ghost before = hits@;
        if let Some((a, b)) = started_pair_of(contacts[i]) {
            if arena.is_a(a, Facet::Player) && arena.is_a(b, Facet::Enemy) {
                hits.push(LivingBeingHitEvent { entity: a });
            }
            if a != b && arena.is_a(b, Facet::Player) && arena.is_a(a, Facet::Enemy) {
                hits.push(LivingBeingHitEvent { entity: b });
            }
            assert(hits@ =~= before + pair_enemy_hits(ents, a, b));
        } else {
            assert(hits@ =~= before + enemy_hits(ents)(contacts@[i as int]));
        }
        i = i + 1;
    }
    assert(contacts@.take(i as int) =~= contacts@);
}

/// Sends a wall bump for every monster named by a contact-begin event.
pub fn monster_wall_contact_detection(
    arena: &Arena,
    contacts: &Vec<ContactEvent>,
    walls: &mut Vec<MonsterWalkedIntoWallEvent>,
)
    requires
        arena.wf(),
    ensures
        final(walls)@ == old(walls)@ + collect(contacts@, wall_bumps(arena.entities@)),
{
    let ghost ents = arena.entities@;
    let ghost start = walls@;
    let mut i: usize = 0;
    while i < contacts.len()
        invariant
            arena.wf(),
            ents == arena.entities@,
            i <= contacts.len(),
            walls@ == start + collect(contacts@.take(i as int), wall_bumps(ents)),
        decreases contacts.len() - i,
    {
        proof {
            lemma_collect_step(contacts@, wall_bumps(ents), i as int);
        }
        let ghost before = walls@;
        if let Some((a, b)) = started_pair_of(contacts[i]) {
            if arena.is_a(a, Facet::Monster) {
                walls.push(MonsterWalkedIntoWallEvent { entity: a });
            }
            if a != b && arena.is_a(b, Facet::Monster) {
                walls.push(MonsterWalkedIntoWallEvent { entity: b });
            }
            assert(walls@ =~= before + pair_walls(ents, a, b));
        } else {
            assert(walls@ =~= before + wall_bumps(ents)(contacts@[i as int]));
        }
        i = i + 1;
    }
    assert(contacts@.take(i as int) =~= contacts@);
}

/// Whether some contact-begin event of `contacts` names `id`.
pub fn is_touched(contacts: &Vec<ContactEvent>, id: u64) -> (r: bool)
    ensures
        r == touched(contacts@, id),
{
    let mut i: usize = 0;
    while i < contacts.len()
        invariant
            i <= contacts.len(),
            forall|k: int|
                0 <= k < i ==> !(#[trigger] started_pair(contacts@[k]) matches Some((a, b)) && (a
                    == id || b == id)),
        decreases contacts.len() - i,
    {
        if let Some((a, b)) = started_pair_of(contacts[i]) {
            if a == id || b == id {
                return true;
            }
        }
        i = i + 1;
    }
    false
}

/// Whether some contact-begin event of `contacts` pairs `id` with a floor slab.
pub fn is_touching_floor(arena: &Arena, contacts: &Vec<ContactEvent>, id: u64) -> (r: bool)
    requires
        arena.wf(),
    ensures
        r == touched_floor(arena.entities@, contacts@, id),
{
    let mut i: usize = 0;
    while i < contacts.len()
        invariant
            arena.wf(),
            i <= contacts.len(),
            forall|k: int|
                0 <= k < i ==> !(#[trigger] started_pair(contacts@[k]) matches Some((a, b)) && ((a
                    == id && is_a(arena.entities@, b, Facet::Floor)) || (b == id && is_a(
                    arena.entities@,
                    a,
                    Facet::Floor,
                )))),
        decreases contacts.len() - i,
    {
        if let Some((a, b)) = started_pair_of(contacts[i]) {
            if (a == id && arena.is_a(b, Facet::Floor)) || (b == id && arena.is_a(a, Facet::Floor)) {
                return true;
            }
        }
        i = i + 1;
    }
    false
}


/// Removes every bullet that a contact-begin event names, whatever it touched.
pub fn destroy_bullet_on_contact(arena: &mut Arena, contacts: &Vec<ContactEvent>)
    requires
        old(arena).wf(),
    ensures
        final(arena).wf(),
        final(arena).next_id == old(arena).next_id,
        final(arena).entities@ == old(arena).entities@.filter(survives_contacts(contacts@)),
{
    let ghost ents = arena.entities@;
    let mut doomed: Vec<u64> = Vec::new();
    let mut i: usize = 0;
    while i < arena.entities.len()
        invariant
            arena.wf(),
            ents == arena.entities@,
            i <= ents.len(),
            forall|j: int|
                0 <= j < i ==> (doomed@.contains(#[trigger] ents[j].id) <==> (ents[j].bullet is Some
                    && touched(contacts@, ents[j].id))),
            forall|j: int|
                i <= j < ents.len() ==> !doomed@.contains(#[trigger] ents[j].id),
        decreases ents.len() - i,
    {
        let e = arena.entities[i];
        if e.bullet.is_some() && is_touched(contacts, e.id) {
            proof {
                assert forall|j: int| 0 <= j < ents.len() && j != i implies #[trigger] ents[j].id
                    != e.id by {}
                assert forall|y: u64| doomed@.push(e.id).contains(y) <==> (doomed@.contains(y) || y
                    == e.id) by {
                    if doomed@.push(e.id).contains(y) {
                        let k = choose|k: int|
                            0 <= k < doomed@.len() + 1 && doomed@.push(e.id)[k] == y;
                        if k < doomed@.len() {
                            assert(doomed@[k] == y);
                        }
                    }
                    if doomed@.contains(y) {
                        let k = choose|k: int| 0 <= k < doomed@.len() && doomed@[k] == y;
                        assert(doomed@.push(e.id)[k] == y);
                    }
                    if y == e.id {
                        assert(doomed@.push(e.id)[doomed@.len() as int] == y);
                    }
                }
            }
            doomed.push(e.id);
        }
        i = i + 1;
    }
    proof {
        assert forall|j: int| 0 <= j < ents.len() implies (#[trigger] id_not_in(doomed@)(ents[j]))
            == survives_contacts(contacts@)(ents[j]) by {}
        lemma_filter_congruent(ents, id_not_in(doomed@), survives_contacts(contacts@));
    }
    arena.despawn_all(&doomed);
}

/// Ends the jump of one entity when a contact-begin event pairs it with a
/// floor slab.
pub fn set_jumping_false_if_touching_floor(
    arena: &Arena,
    contacts: &Vec<ContactEvent>,
    e: EntityRecord,
) -> (r: EntityRecord)
    requires
        arena.wf(),
    ensures
        r == after_jump_reset(arena.entities@, contacts@, e),
{
    match e.jumper {
        Some(j) => if is_touching_floor(arena, contacts, e.id) {
            EntityRecord { jumper: Some(Jumper { is_jumping: false, ..j }), ..e }
        } else {
            e
        },
        None => e,
    }
}

/// Ends the jump of every entity that a contact-begin event pairs with a
/// floor slab; every other jump goes on.
pub fn jump_reset(arena: &mut Arena, contacts: &Vec<ContactEvent>)
    requires
        old(arena).wf(),
    ensures
        final(arena).wf(),
        final(arena).next_id == old(arena).next_id,
        final(arena).entities@.len() == old(arena).entities@.len(),
        forall|i: int|
            0 <= i < old(arena).entities@.len() ==> #[trigger] final(arena).entities@[i]
                == after_jump_reset(old(arena).entities@, contacts@, old(arena).entities@[i]),
{
    let ghost ents = arena.entities@;
    let mut updated: Vec<EntityRecord> = Vec::new();
    let mut i: usize = 0;
    while i < arena.entities.len()
        invariant
            arena.wf(),
            ents == arena.entities@,
            i <= ents.len(),
            updated@.len() == i,
            forall|j: int|
                0 <= j < i ==> #[trigger] updated@[j] == after_jump_reset(ents, contacts@, ents[j]),
        decreases ents.len() - i,
    {
        let r = set_jumping_false_if_touching_floor(arena, contacts, arena.entities[i]);
        updated.push(r);
        i = i + 1;
    }
    arena.entities = updated;
    assert forall|i: int, j: int|
        0 <= i < arena.entities@.len() && 0 <= j < arena.entities@.len() && i != j implies #[trigger] arena.entities@[i].id
        != #[trigger] arena.entities@[j].id by {
        assert(arena.entities@[i].id == ents[i].id && arena.entities@[j].id == ents[j].id);
    }
    assert forall|i: int| 0 <= i < arena.entities@.len() implies #[trigger] arena.entities@[i].id
        < arena.next_id by {
        assert(arena.entities@[i].id == ents[i].id);
    }
}

/// Asks for the level-success screen when the unique player touches the
/// unique winning zone. Where either is missing or not unique nothing
/// happens; several such contacts in a batch ask only once.
pub fn on_level_success(arena: &Arena, contacts: &Vec<ContactEvent>, machine: &mut StateMachine)
    ensures
        (exists|k: int| 0 <= k < contacts@.len() && is_win_contact(arena.entities@, #[trigger] contacts@[k]))
            ==> *final(machine) == after_request(*old(machine), AppState::BetweenLevels),
        !(exists|k: int| 0 <= k < contacts@.len() && is_win_contact(arena.entities@, #[trigger] contacts@[k]))
            ==> *final(machine) == *old(machine),
{
    let player = arena.single(Facet::Player);
    let zone = arena.single(Facet::WinningZone);
    let ghost start = *machine;
    let mut i: usize = 0;
    while i < contacts.len()
        invariant
            player == single_spec(arena.entities@, Facet::Player),
            zone == single_spec(arena.entities@, Facet::WinningZone),
            i <= contacts.len(),
            (exists|k: int| 0 <= k < i && is_win_contact(arena.entities@, #[trigger] contacts@[k]))
                ==> *machine == after_request(start, AppState::BetweenLevels),
            !(exists|k: int| 0 <= k < i && is_win_contact(arena.entities@, #[trigger] contacts@[k]))
                ==> *machine == start,
        decreases contacts.len() - i,
    {
        if let (Some(p), Some(w)) = (player, zone) {
            if let Some((a, b)) = started_pair_of(contacts[i]) {
                if (a == p && b == w) || (a == w && b == p) {
                    machine.request(AppState::BetweenLevels);
                    assert(is_win_contact(arena.entities@, contacts@[i as int]));
                }
            }
        }
        i = i + 1;
    }
}

/// The same contact reported the other way round.
pub open spec fn swapped(c: ContactEvent) -> ContactEvent {
    match c {
        ContactEvent::Started(a, b) => ContactEvent::Started(b, a),
        ContactEvent::Stopped(a, b) => ContactEvent::Stopped(b, a),
    }
}

proof fn lemma_collect_congruent<T>(
    cs: Seq<ContactEvent>,
    ds: Seq<ContactEvent>,
    f: spec_fn(ContactEvent) -> Seq<T>,
)
    requires
        cs.len() == ds.len(),
        forall|i: int| 0 <= i < cs.len() ==> f(#[trigger] cs[i]) == f(ds[i]),
    ensures
        collect(cs, f) == collect(ds, f),
    decreases cs.len(),
{
    if cs.len() > 0 {
        let c2 = cs.drop_last();
        let d2 = ds.drop_last();
        assert forall|i: int| 0 <= i < c2.len() implies f(#[trigger] c2[i]) == f(d2[i]) by {
            assert(c2[i] == cs[i] && d2[i] == ds[i]);
        }
        lemma_collect_congruent(c2, d2, f);
    }
}

/// Contacts are symmetric: reporting any contact of a batch as `(b, a)`
/// rather than `(a, b)` changes no hit, no wall bump, no bullet removal,
/// no jump reset and no win.
pub proof fn lemma_contact_symmetry(ents: Seq<EntityRecord>, cs: Seq<ContactEvent>, k: int)
    requires
        0 <= k < cs.len(),
    ensures
        ({
            let ds = cs.update(k, swapped(cs[k]));
            &&& collect(ds, bullet_hits(ents)) == collect(cs, bullet_hits(ents))
            &&& collect(ds, enemy_hits(ents)) == collect(cs, enemy_hits(ents))
            &&& collect(ds, wall_bumps(ents)) == collect(cs, wall_bumps(ents))
            &&& forall|id: u64| touched(ds, id) == touched(cs, id)
            &&& forall|id: u64| touched_floor(ents, ds, id) == touched_floor(ents, cs, id)
            &&& forall|i: int| 0 <= i < cs.len() ==> is_win_contact(ents, #[trigger] ds[i]) == is_win_contact(ents, cs[i])
        }),
{
    let ds = cs.update(k, swapped(cs[k]));
    assert forall|i: int| 0 <= i < cs.len() implies started_pair(#[trigger] ds[i]) == started_pair(cs[i]) by {}
    lemma_collect_congruent(ds, cs, bullet_hits(ents));
    lemma_collect_congruent(ds, cs, enemy_hits(ents));
    lemma_collect_congruent(ds, cs, wall_bumps(ents));
    assert forall|id: u64| touched(ds, id) == touched(cs, id) by {
        if touched(ds, id) {
            let j = choose|j: int| 0 <= j < ds.len() && (#[trigger] started_pair(ds[j]) matches Some((a, b)) && (a == id || b == id));
            assert(started_pair(cs[j]) == started_pair(ds[j]));
        }
        if touched(cs, id) {
            let j = choose|j: int| 0 <= j < cs.len() && (#[trigger] started_pair(cs[j]) matches Some((a, b)) && (a == id || b == id));
            assert(started_pair(cs[j]) == started_pair(ds[j]));
        }
    }
    assert forall|id: u64| touched_floor(ents, ds, id) == touched_floor(ents, cs, id) by {
        if touched_floor(ents, ds, id) {
            let j = choose|j: int| 0 <= j < ds.len() && (#[trigger] started_pair(ds[j]) matches Some((a, b)) && ((a == id
                && is_a(ents, b, Facet::Floor)) || (b == id && is_a(ents, a, Facet::Floor))));
            assert(started_pair(cs[j]) == started_pair(ds[j]));
        }
        if touched_floor(ents, cs, id) {
            let j = choose|j: int| 0 <= j < cs.len() && (#[trigger] started_pair(cs[j]) matches Some((a, b)) && ((a == id
                && is_a(ents, b, Facet::Floor)) || (b == id && is_a(ents, a, Facet::Floor))));
            assert(started_pair(cs[j]) == started_pair(ds[j]));
        }
    }
}

/// A jump ends on the tick a contact-begin event pairs the jumper with a
/// floor slab, and goes on otherwise.
pub proof fn lemma_jump_reset(ents: Seq<EntityRecord>, cs: Seq<ContactEvent>, e: EntityRecord)
    requires
        e.jumper matches Some(j) && j.is_jumping,
    ensures
        after_jump_reset(ents, cs, e).jumper matches Some(j) && j.is_jumping == !touched_floor(
            ents,
            cs,
            e.id,
        ),
        after_jump_reset(ents, cs, e).id == e.id,
        after_jump_reset(ents, cs, e).position == e.position,
        after_jump_reset(ents, cs, e).velocity == e.velocity,
{
}

} // verus!
