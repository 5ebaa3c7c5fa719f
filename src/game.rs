use vstd::prelude::*;

use crate::contacts::{
    after_jump_reset, bullet_hits, collect, death_by_enemy, destroy_bullet_on_contact, enemy_hits,
    is_win_contact, jump_reset, kill_on_contact, monster_wall_contact_detection, on_level_success,
    survives_contacts, wall_bumps,
};
use crate::events::{ContactEvent, Events, LivingBeingHitEvent, LivingBeingDeathEvent};
use crate::factory::{bullet_spec, can_fire_from, on_bullet_fired, player_spec, spawn_player, with_ids};
use crate::floor::{is_floor_of, FloorSegment};
use crate::level::{level_records, spawn_floor, spawned};
use crate::living_beings::{
    death_by_height, death_ids, death_of, has_fallen, on_living_being_dead, on_living_being_hit,
};
use crate::monster_ai::{after_walls, monster_change_direction_on_contact, monster_walking_system, walking};
use crate::player::{
    after_controls, after_jump_key, fire_controller, player_controller, player_jumps, shot_of,
    InputState,
};
use crate::state::{after_request, back_to_main_menu_controls, AppState, StateMachine};
use crate::terrain::{enemy_columns_ok, is_profile_of, rolls_in_range, WORLD_WIDTH};
use crate::world::{id_not_in, single_spec, with_facet, Arena, EntityRecord, Facet};

verus! {

broadcast use vstd::seq_lib::group_seq_properties;

/// The whole game: the entity arena, the messages of the current tick and
/// the application state.
pub struct GameWorld {
    pub arena: Arena,
    pub events: Events,
    pub machine: StateMachine,
}

impl GameWorld {
    /// A game between ticks: a well-formed arena and no pending message.
    pub open spec fn wf(&self) -> bool {
        &&& self.arena.wf()
        &&& self.events.is_empty()
    }

    /// The game at start-up: on the main menu, with nothing spawned.
    pub fn new() -> (r: GameWorld)
        ensures
            r.wf(),
            r.arena.entities@.len() == 0,
            r.machine.current == AppState::MainMenu,
            r.machine.queued is None,
    {
        GameWorld { arena: Arena::new(), events: Events::new(), machine: StateMachine::new() }
    }
}

/// The entities after the movement and jump keys.
pub open spec fn controlled(ents: Seq<EntityRecord>, input: InputState) -> Seq<EntityRecord> {
    ents.map_values(|e: EntityRecord| after_jump_key(after_controls(e, input), input))
}

/// The shots of a tick: every player fires where the fire key went down.
pub open spec fn shots(ents: Seq<EntityRecord>, input: InputState) -> Seq<crate::events::BulletFiredEvent> {
    if input.fire_just_pressed {
        controlled(ents, input).filter(with_facet(Facet::Player)).map_values(shot_of())
    } else {
        Seq::empty()
    }
}

/// Every player stands where it can fire from.
pub open spec fn players_can_fire(ents: Seq<EntityRecord>) -> bool {
    forall|i: int| 0 <= i < ents.len() && (#[trigger] ents[i]).player is Some ==> can_fire_from(ents[i].position)
}

/// The input half of a tick, while in game: the escape key, the movement,
/// jump and fire keys, the bullets fired, then the monsters' walk.
pub fn pre_physics(world: &mut GameWorld, input: InputState)
    requires
        old(world).wf(),
        old(world).arena.next_id + old(world).arena.entities@.len() <= u64::MAX,
        players_can_fire(old(world).arena.entities@),
    ensures
        final(world).arena.wf(),
        old(world).machine.current != AppState::InGame ==> *final(world) == *old(world),
        old(world).machine.current == AppState::InGame ==> {
            let ents = old(world).arena.entities@;
            let fired = shots(ents, input);
            &&& input.escape_just_pressed ==> final(world).machine == after_request(old(world).machine, AppState::MainMenu)
            &&& !input.escape_just_pressed ==> final(world).machine == old(world).machine
            &&& final(world).events.bullet_fired@ == fired
            &&& final(world).events.hits@.len() == 0
            &&& final(world).events.deaths@.len() == 0
            &&& final(world).events.walls@.len() == 0
            &&& final(world).arena.next_id == old(world).arena.next_id + fired.len()
            &&& final(world).arena.entities@ == (controlled(ents, input) + with_ids(
                fired.map_values(|ev: crate::events::BulletFiredEvent| bullet_spec(ev)),
                old(world).arena.next_id as int,
            )).map_values(|e: EntityRecord| walking(e))
        },
{
    if world.machine.current != AppState::InGame {
        return;
    }
    let ghost ents = world.arena.entities@;
    back_to_main_menu_controls(&mut world.machine, input.escape_just_pressed);
    player_controller(&mut world.arena, input);
    player_jumps(&mut world.arena, input);
    assert(world.arena.entities@ =~= controlled(ents, input));
    fire_controller(&world.arena, input, &mut world.events.bullet_fired);
    assert(world.events.bullet_fired@ =~= shots(ents, input));
    proof {
        let c = controlled(ents, input);
        let p = with_facet(Facet::Player);
        let fired = world.events.bullet_fired@;
        assert forall|k: int| 0 <= k < fired.len() implies can_fire_from(#[trigger] fired[k].position) by {
            let e = c.filter(p)[k];
            c.lemma_filter_pred(p, k);
            assert(c.filter(p).contains(e));
            c.lemma_filter_contains_rev(p, e);
            let i = choose|i: int| 0 <= i < c.len() && c[i] == e;
            assert(ents[i].player is Some);
        }
        c.lemma_filter_len(p);
    }
    on_bullet_fired(&mut world.arena, &world.events.bullet_fired);
    monster_walking_system(&mut world.arena);
}

/// Hits of a tick: by bullets, then by enemies.
pub open spec fn tick_hits(ents: Seq<EntityRecord>, cs: Seq<ContactEvent>) -> Seq<LivingBeingHitEvent> {
    collect(cs, bullet_hits(ents)) + collect(cs, enemy_hits(ents))
}

/// The entities after the floor contacts and after the bullets that touched
/// anything are gone.
pub open spec fn after_contacts(ents: Seq<EntityRecord>, cs: Seq<ContactEvent>) -> Seq<EntityRecord> {
    ents.map_values(|e: EntityRecord| after_jump_reset(ents, cs, e)).filter(survives_contacts(cs))
}

/// Deaths of a tick: by height, then by hits.
pub open spec fn tick_deaths(ents: Seq<EntityRecord>, cs: Seq<ContactEvent>) -> Seq<LivingBeingDeathEvent> {
    after_contacts(ents, cs).filter(has_fallen()).map_values(death_of()) + tick_hits(ents, cs).map_values(
        |h: LivingBeingHitEvent| LivingBeingDeathEvent { entity: h.entity },
    )
}

/// The state machine after the win check and the deaths of a tick.
pub open spec fn machine_after_contacts(
    m: StateMachine,
    ents: Seq<EntityRecord>,
    cs: Seq<ContactEvent>,
) -> StateMachine {
    let won = exists|k: int| 0 <= k < cs.len() && is_win_contact(ents, #[trigger] cs[k]);
    let m1 = if won { after_request(m, AppState::BetweenLevels) } else { m };
    let rest = after_contacts(ents, cs);
    if single_spec(rest, Facet::Player) matches Some(p) && death_ids(tick_deaths(ents, cs)).contains(p) {
        after_request(m1, AppState::GameOver)
    } else {
        m1
    }
}

/// The contact half of a tick, while in game, in a fixed order: hits,
/// wall bumps and the win check from the contacts; jumps that end on a
/// floor; bullets that touched anything removed; deaths by height and by
/// hit, with the dead removed and the game over where the player died;
/// monsters turned round by their bumps.
pub fn route_contacts(world: &mut GameWorld, contacts: &Vec<ContactEvent>)
    requires
        old(world).arena.wf(),
        old(world).events.no_contact_messages(),
    ensures
        final(world).arena.wf(),
        final(world).arena.next_id == old(world).arena.next_id,
        final(world).events.bullet_fired@ == old(world).events.bullet_fired@,
        old(world).machine.current != AppState::InGame ==> *final(world) == *old(world),
        old(world).machine.current == AppState::InGame ==> {
            let ents = old(world).arena.entities@;
            let cs = contacts@;
            let walls = collect(cs, wall_bumps(ents));
            let deaths = tick_deaths(ents, cs);
            &&& final(world).events.hits@ == tick_hits(ents, cs)
            &&& final(world).events.walls@ == walls
            &&& final(world).events.deaths@ == deaths
            &&& final(world).machine == machine_after_contacts(old(world).machine, ents, cs)
            &&& final(world).arena.entities@ == after_contacts(ents, cs).filter(
                id_not_in(death_ids(deaths)),
            ).map_values(|e: EntityRecord| after_walls(walls, e))
        },
{
    if world.machine.current != AppState::InGame {
        return;
    }
    let ghost ents = world.arena.entities@;
    kill_on_contact(&world.arena, contacts, &mut world.events.hits);
    death_by_enemy(&world.arena, contacts, &mut world.events.hits);
    assert(world.events.hits@ =~= tick_hits(ents, contacts@));
    monster_wall_contact_detection(&world.arena, contacts, &mut world.events.walls);
    assert(world.events.walls@ =~= collect(contacts@, wall_bumps(ents)));
    on_level_success(&world.arena, contacts, &mut world.machine);
    jump_reset(&mut world.arena, contacts);
    assert(world.arena.entities@ =~= ents.map_values(|e: EntityRecord| after_jump_reset(ents, contacts@, e)));
    destroy_bullet_on_contact(&mut world.arena, contacts);
    death_by_height(&world.arena, &mut world.events.deaths);
    on_living_being_hit(&world.events.hits, &mut world.events.deaths);
    assert(world.events.deaths@ =~= tick_deaths(ents, contacts@));
    on_living_being_dead(&world.events.deaths, &mut world.arena, &mut world.machine);
    monster_change_direction_on_contact(&world.events.walls, &mut world.arena);
}

/// The level and the player of a new game: the arena after entering a game
/// holds, after what it held, the level of a drawn profile of the world
/// width, then the player.
pub open spec fn entered_game(before: Arena, after: Arena, heights: Seq<usize>) -> bool {
    &&& heights.len() == WORLD_WIDTH
    &&& exists|rolls: Seq<u32>| rolls_in_range(rolls) && #[trigger] is_profile_of(heights, rolls)
    &&& exists|segs: Seq<FloorSegment>, cols: Seq<usize>, mid: Arena|
        is_floor_of(heights, segs) && enemy_columns_ok(WORLD_WIDTH as int, cols) && #[trigger] spawned(
            before,
            mid,
            level_records(heights, segs, cols),
        ) && spawned(mid, after, seq![player_spec()])
}

/// Spawns a freshly drawn level and the player.
pub fn enter_game(arena: &mut Arena) -> (heights: Vec<usize>)
    requires
        old(arena).wf(),
    ensures
        final(arena).wf(),
        entered_game(*old(arena), *final(arena), heights@),
{
    let ghost before = *arena;
    let heights = spawn_floor(arena);
    let ghost mid = *arena;
    if arena.next_id < u64::MAX {
        let ghost e = arena.entities@;
        let id = spawn_player(arena);
        assert(with_ids(seq![player_spec()], mid.next_id as int) =~= seq![
            EntityRecord { id, ..player_spec() },
        ]);
        assert(arena.entities@ =~= e + seq![EntityRecord { id, ..player_spec() }]);
    }
    assert(spawned(mid, *arena, seq![player_spec()]));
    proof {
        let (segs, cols) = choose|segs: Seq<FloorSegment>, cols: Seq<usize>|
            is_floor_of(heights@, segs) && enemy_columns_ok(WORLD_WIDTH as int, cols) && spawned(
                before,
                mid,
                #[trigger] level_records(heights@, segs, cols),
            );
        assert(spawned(before, mid, level_records(heights@, segs, cols)));
        assert(entered_game(before, *arena, heights@));
    }
    heights
}

/// Ends a tick: every message is dropped, then the queued transition, if
/// any, takes effect. Leaving a game removes every entity of the level and
/// the player; entering one spawns a fresh level and player. Returns the
/// state left and the state entered.
pub fn end_tick(world: &mut GameWorld) -> (r: Option<(AppState, AppState)>)
    requires
        old(world).arena.wf(),
    ensures
        final(world).wf(),
        final(world).machine.queued is None,
        old(world).machine.queued is None ==> r is None && final(world).machine == old(world).machine
            && final(world).arena == old(world).arena,
        old(world).machine.queued matches Some(to) ==> {
            &&& r == Some((old(world).machine.current, to))
            &&& final(world).machine.current == to
            &&& to != AppState::InGame ==> (old(world).machine.current == AppState::InGame
                ==> final(world).arena.entities@.len() == 0) && (old(world).machine.current
                != AppState::InGame ==> final(world).arena == old(world).arena)
            &&& to == AppState::InGame && old(world).machine.current != AppState::InGame ==> exists|
                h: Seq<usize>,
            | #[trigger] entered_game(old(world).arena, final(world).arena, h)
            &&& to == AppState::InGame && old(world).machine.current == AppState::InGame ==> exists|
                cleared: Arena,
                h: Seq<usize>,
            | cleared.entities@.len() == 0 && cleared.next_id == old(world).arena.next_id
                && #[trigger] entered_game(cleared, final(world).arena, h)
        },
{
    world.events.clear();
    let t = world.machine.apply();
    if let Some((from, to)) = t {
        if from == AppState::InGame {
            world.arena.clear();
        }
        if to == AppState::InGame {
            let ghost cleared = world.arena;
            let heights = enter_game(&mut world.arena);
            assert(entered_game(cleared, world.arena, heights@));
        }
    }
    t
}

} // verus!
