use platformer::components::{
    BodyKind, PhysicsBody, Shape, Bullet, Enemy, Floor, GameDirection, Jumper, LivingBeing, Monster, Player, Point, WinningZone,
    BULLET_SPEED, JUMP_IMPULSE, MONSTER_SPEED, PLAYER_SPEED,
};
use platformer::contacts::{
    death_by_enemy, destroy_bullet_on_contact, jump_reset, kill_on_contact,
    monster_wall_contact_detection, on_level_success,
};
use platformer::events::{
    BulletFiredEvent, ContactEvent, LivingBeingDeathEvent, LivingBeingHitEvent,
    MonsterWalkedIntoWallEvent,
};
use platformer::factory::{
    bullet_record, insert_bullet_at, insert_monster_at, player_record, spawn_player, static_box,
};
use platformer::floor::add_colliders;
use platformer::game::{end_tick, pre_physics, route_contacts, GameWorld};
use platformer::level::build_level;
use platformer::living_beings::{death_by_height, on_living_being_dead, on_living_being_hit};
use platformer::monster_ai::{
    monster_change_direction_on_contact, monster_jump, monster_walking_system, should_jump_for_roll,
};
use platformer::player::{
    camera_follow_player, fire_controller, player_controller, player_jumps, InputState,
};
use platformer::state::{
    back_to_main_menu_controls, button_press_system, AppState, MenuButton, StateMachine,
};
use platformer::world::{Arena, EntityRecord, Facet};

fn at(x: i64, y: i64) -> EntityRecord {
    EntityRecord::bare(Point { x, y }, Point { x: 0, y: 0 })
}

fn no_keys() -> InputState {
    InputState {
        left_pressed: false,
        right_pressed: false,
        jump_just_pressed: false,
        fire_just_pressed: false,
        escape_just_pressed: false,
    }
}

fn find(arena: &Arena, id: u64) -> Option<EntityRecord> {
    arena.entities.iter().copied().find(|e| e.id == id)
}

fn bullet_at(x: i64, y: i64) -> EntityRecord {
    let mut e = at(x, y);
    e.bullet = Some(Bullet);
    e
}

fn floor_at(x: i64, y: i64) -> EntityRecord {
    let mut e = at(x, y);
    e.floor = Some(Floor);
    e.body = Some(static_box(500, 500));
    e
}

fn zone_at(x: i64) -> EntityRecord {
    let mut e = at(x, 0);
    e.winning_zone = Some(WinningZone);
    e
}

fn in_game() -> GameWorld {
    let mut w = GameWorld::new();
    w.machine = StateMachine { current: AppState::InGame, queued: None };
    w
}

#[test]
fn spawned_entities_get_fresh_handles() {
    let mut arena = Arena::new();
    let p = spawn_player(&mut arena);
    let m = insert_monster_at(&mut arena, 7, 3);
    assert_eq!((p, m), (0, 1));
    assert_eq!(arena.next_id, 2);
    let player = find(&arena, p).unwrap();
    assert_eq!(player, EntityRecord { id: p, ..player_record() });
    assert_eq!((player.position.x, player.position.y), (0, 2000));
    assert_eq!(player.player.unwrap().speed, PLAYER_SPEED);
    let monster = find(&arena, m).unwrap();
    assert_eq!((monster.position.x, monster.position.y), (7000, 3000));
    assert_eq!(
        monster.monster.unwrap(),
        Monster { speed: MONSTER_SPEED, facing_direction: GameDirection::Right }
    );
    assert!(monster.enemy.is_some() && monster.living_being.is_some());
    assert_eq!(monster.jumper.unwrap(), Jumper { jump_impulse: JUMP_IMPULSE, is_jumping: false });
}

#[test]
fn despawning_twice_is_a_no_op() {
    let mut arena = Arena::new();
    let a = arena.spawn(at(0, 0));
    let b = arena.spawn(at(1000, 0));
    arena.despawn(a);
    let once = arena.entities.clone();
    arena.despawn(a);
    assert_eq!(arena.entities, once);
    arena.despawn(99);
    assert_eq!(arena.entities, once);
    assert_eq!(arena.entities.len(), 1);
    assert_eq!(arena.entities[0].id, b);
}

#[test]
fn two_death_events_for_one_entity() {
    let mut arena = Arena::new();
    let m = insert_monster_at(&mut arena, 7, 3);
    let other = insert_monster_at(&mut arena, 9, 3);
    let mut machine = StateMachine { current: AppState::InGame, queued: None };
    let deaths = vec![LivingBeingDeathEvent { entity: m }, LivingBeingDeathEvent { entity: m }];
    on_living_being_dead(&deaths, &mut arena, &mut machine);
    assert_eq!(arena.entities.len(), 1);
    assert_eq!(arena.entities[0].id, other);
    assert_eq!(machine.queued, None);
}

#[test]
fn player_death_ends_the_game() {
    let mut arena = Arena::new();
    let p = spawn_player(&mut arena);
    let mut machine = StateMachine { current: AppState::InGame, queued: None };
    let deaths = vec![LivingBeingDeathEvent { entity: p }, LivingBeingDeathEvent { entity: p }];
    on_living_being_dead(&deaths, &mut arena, &mut machine);
    assert!(arena.entities.is_empty());
    assert_eq!(machine.queued, Some(AppState::GameOver));
}

#[test]
fn hits_become_deaths_in_order() {
    let hits = vec![LivingBeingHitEvent { entity: 4 }, LivingBeingHitEvent { entity: 2 }];
    let mut deaths = vec![LivingBeingDeathEvent { entity: 9 }];
    on_living_being_hit(&hits, &mut deaths);
    assert_eq!(
        deaths,
        vec![
            LivingBeingDeathEvent { entity: 9 },
            LivingBeingDeathEvent { entity: 4 },
            LivingBeingDeathEvent { entity: 2 },
        ]
    );
}

#[test]
fn death_by_height_below_one_unit() {
    let mut arena = Arena::new();
    let mut high = player_record();
    high.position = Point { x: 0, y: -1000 };
    let mut low = player_record();
    low.position = Point { x: 0, y: -1001 };
    let mut rock = at(0, -5000);
    rock.floor = None;
    let a = arena.spawn(high);
    let b = arena.spawn(low);
    arena.spawn(rock);
    let mut deaths = Vec::new();
    death_by_height(&arena, &mut deaths);
    assert_eq!(deaths, vec![LivingBeingDeathEvent { entity: b }]);
    assert_ne!(a, b);
}

#[test]
fn contact_order_does_not_matter() {
    let mut arena = Arena::new();
    let p = spawn_player(&mut arena);
    let m = insert_monster_at(&mut arena, 7, 3);
    let b = arena.spawn(bullet_at(6000, 3000));
    let z = arena.spawn(zone_at(150000));
    for (x, y) in [(b, m), (p, m), (p, z), (b, p)] {
        let forward = vec![ContactEvent::Started(x, y)];
        let backward = vec![ContactEvent::Started(y, x)];
        let (mut h1, mut h2) = (Vec::new(), Vec::new());
        kill_on_contact(&arena, &forward, &mut h1);
        kill_on_contact(&arena, &backward, &mut h2);
        death_by_enemy(&arena, &forward, &mut h1);
        death_by_enemy(&arena, &backward, &mut h2);
        assert_eq!(h1, h2);
        let (mut w1, mut w2) = (Vec::new(), Vec::new());
        monster_wall_contact_detection(&arena, &forward, &mut w1);
        monster_wall_contact_detection(&arena, &backward, &mut w2);
        assert_eq!(w1, w2);
        let mut m1 = StateMachine { current: AppState::InGame, queued: None };
        let mut m2 = m1;
        on_level_success(&arena, &forward, &mut m1);
        on_level_success(&arena, &backward, &mut m2);
        assert_eq!(m1, m2);
        let (mut a1, mut a2) = (Arena::new(), Arena::new());
        a1.entities = arena.entities.clone();
        a1.next_id = arena.next_id;
        a2.entities = arena.entities.clone();
        a2.next_id = arena.next_id;
        destroy_bullet_on_contact(&mut a1, &forward);
        destroy_bullet_on_contact(&mut a2, &backward);
        assert_eq!(a1.entities, a2.entities);
    }
}

#[test]
fn bullets_hit_living_beings_and_enemies_hit_the_player() {
    let mut arena = Arena::new();
    let p = spawn_player(&mut arena);
    let m = insert_monster_at(&mut arena, 7, 3);
    let b = arena.spawn(bullet_at(6000, 3000));
    let f = arena.spawn(floor_at(0, 1000));
    let contacts = vec![
        ContactEvent::Started(m, b),
        ContactEvent::Started(p, m),
        ContactEvent::Stopped(b, p),
        ContactEvent::Started(f, b),
    ];
    let mut hits = Vec::new();
    kill_on_contact(&arena, &contacts, &mut hits);
    assert_eq!(hits, vec![LivingBeingHitEvent { entity: m }]);
    death_by_enemy(&arena, &contacts, &mut hits);
    assert_eq!(hits, vec![LivingBeingHitEvent { entity: m }, LivingBeingHitEvent { entity: p }]);
    let mut walls = Vec::new();
    monster_wall_contact_detection(&arena, &contacts, &mut walls);
    assert_eq!(
        walls,
        vec![MonsterWalkedIntoWallEvent { entity: m }, MonsterWalkedIntoWallEvent { entity: m }]
    );
    destroy_bullet_on_contact(&mut arena, &contacts);
    assert!(find(&arena, b).is_none());
    assert_eq!(arena.entities.len(), 3);
}

#[test]
fn jump_ends_on_floor_contact_only() {
    let mut arena = Arena::new();
    let p = spawn_player(&mut arena);
    let m = insert_monster_at(&mut arena, 7, 3);
    let f = arena.spawn(floor_at(0, 1000));
    for e in arena.entities.iter_mut() {
        if let Some(j) = e.jumper.as_mut() {
            j.is_jumping = true;
        }
    }
    jump_reset(&mut arena, &vec![ContactEvent::Started(p, m), ContactEvent::Stopped(m, f)]);
    assert!(find(&arena, p).unwrap().jumper.unwrap().is_jumping);
    assert!(find(&arena, m).unwrap().jumper.unwrap().is_jumping);
    jump_reset(&mut arena, &vec![]);
    assert!(find(&arena, p).unwrap().jumper.unwrap().is_jumping);
    jump_reset(&mut arena, &vec![ContactEvent::Started(f, p)]);
    assert!(!find(&arena, p).unwrap().jumper.unwrap().is_jumping);
    assert!(find(&arena, m).unwrap().jumper.unwrap().is_jumping);
}

#[test]
fn player_stands_on_the_floor_below_it() {
    let heights = vec![1; 150];
    let segs = add_colliders(&heights);
    let recs = build_level(&heights, &segs, &vec![]);
    let mut world = in_game();
    for r in &recs {
        world.arena.spawn(*r);
    }
    let p = spawn_player(&mut world.arena);
    let slab = world.arena.entities.iter().find(|e| e.floor.is_some()).copied().unwrap();
    let player = find(&world.arena, p).unwrap();
    let (half_width, half_height) = match slab.body.unwrap().shape {
        Shape::Cuboid { half_width, half_height } => (half_width, half_height),
        Shape::RoundCuboid { .. } => panic!("a slab is a plain box"),
    };
    let top = slab.position.y + half_height;
    assert!(slab.position.x - half_width <= player.position.x);
    assert!(top <= player.position.y - 450 + 100);
    assert!(top + 1000 > player.position.y - 450);
    pre_physics(&mut world, no_keys());
    route_contacts(&mut world, &vec![ContactEvent::Started(p, slab.id)]);
    assert_eq!(end_tick(&mut world), None);
    let after = find(&world.arena, p).unwrap();
    assert!(!after.jumper.unwrap().is_jumping);
    assert_eq!(after.position, player.position);
    assert_eq!(after.velocity, Point { x: 0, y: 0 });
    assert_eq!(world.machine.current, AppState::InGame);
}

#[test]
fn firing_right_spawns_a_bullet_that_dies_on_contact() {
    let mut world = in_game();
    let mut rec = player_record();
    rec.position = Point { x: 5000, y: 3000 };
    let p = world.arena.spawn(rec);
    let f = world.arena.spawn(floor_at(20000, 3000));
    let mut input = no_keys();
    input.fire_just_pressed = true;
    pre_physics(&mut world, input);
    assert_eq!(
        world.events.bullet_fired,
        vec![BulletFiredEvent { position: Point { x: 5000, y: 3000 }, direction: GameDirection::Right }]
    );
    let bullet = world.arena.entities.iter().find(|e| e.bullet.is_some()).copied().unwrap();
    assert_eq!(bullet.position, Point { x: 6000, y: 3000 });
    assert_eq!(bullet.velocity, Point { x: BULLET_SPEED as i64, y: 0 });
    end_tick(&mut world);
    route_contacts(&mut world, &vec![ContactEvent::Started(f, bullet.id)]);
    end_tick(&mut world);
    assert!(find(&world.arena, bullet.id).is_none());
    assert!(find(&world.arena, p).is_some());
}

#[test]
fn bullet_fired_left() {
    let ev = BulletFiredEvent { position: Point { x: 5000, y: 3000 }, direction: GameDirection::Left };
    let b = bullet_record(&ev);
    assert_eq!(b.position, Point { x: 4000, y: 3000 });
    assert_eq!(b.velocity, Point { x: -14000, y: 0 });
    let mut arena = Arena::new();
    let id = insert_bullet_at(&mut arena, &ev);
    assert_eq!(find(&arena, id).unwrap().bullet, Some(Bullet));
}

#[test]
fn monster_turns_round_on_a_wall() {
    let mut world = in_game();
    let m = insert_monster_at(&mut world.arena, 7, 3);
    let gone = 77;
    monster_change_direction_on_contact(
        &vec![MonsterWalkedIntoWallEvent { entity: m }, MonsterWalkedIntoWallEvent { entity: gone }],
        &mut world.arena,
    );
    assert_eq!(find(&world.arena, m).unwrap().monster.unwrap().facing_direction, GameDirection::Left);
    monster_walking_system(&mut world.arena);
    assert_eq!(find(&world.arena, m).unwrap().velocity.x, -(MONSTER_SPEED as i64));
    monster_change_direction_on_contact(
        &vec![MonsterWalkedIntoWallEvent { entity: m }, MonsterWalkedIntoWallEvent { entity: m }],
        &mut world.arena,
    );
    assert_eq!(find(&world.arena, m).unwrap().monster.unwrap().facing_direction, GameDirection::Left);
}

#[test]
fn monster_bumping_through_a_tick() {
    let mut world = in_game();
    let m = insert_monster_at(&mut world.arena, 7, 3);
    let f = world.arena.spawn(floor_at(8000, 3000));
    pre_physics(&mut world, no_keys());
    assert_eq!(find(&world.arena, m).unwrap().velocity.x, MONSTER_SPEED as i64);
    route_contacts(&mut world, &vec![ContactEvent::Started(f, m)]);
    end_tick(&mut world);
    pre_physics(&mut world, no_keys());
    let mon = find(&world.arena, m).unwrap();
    assert_eq!(mon.monster.unwrap().facing_direction, GameDirection::Left);
    assert_eq!(mon.velocity.x, -(MONSTER_SPEED as i64));
}

#[test]
fn falling_player_dies_and_the_game_is_over() {
    let mut world = in_game();
    let p = spawn_player(&mut world.arena);
    world.arena.entities[0].position.y = -1500;
    route_contacts(&mut world, &vec![]);
    assert!(world.events.deaths.contains(&LivingBeingDeathEvent { entity: p }));
    assert!(find(&world.arena, p).is_none());
    assert_eq!(end_tick(&mut world), Some((AppState::InGame, AppState::GameOver)));
    assert_eq!(world.machine.current, AppState::GameOver);
    assert!(world.arena.entities.is_empty());
}

#[test]
fn reaching_the_winning_zone_once() {
    let mut world = in_game();
    let p = spawn_player(&mut world.arena);
    let z = world.arena.spawn(zone_at(150000));
    let contacts = vec![
        ContactEvent::Started(p, z),
        ContactEvent::Started(z, p),
        ContactEvent::Started(p, z),
    ];
    route_contacts(&mut world, &contacts);
    assert_eq!(world.machine.queued, Some(AppState::BetweenLevels));
    assert_eq!(end_tick(&mut world), Some((AppState::InGame, AppState::BetweenLevels)));
    assert_eq!(end_tick(&mut world), None);
    assert_eq!(world.machine.current, AppState::BetweenLevels);
}

#[test]
fn no_win_without_a_unique_player() {
    let mut arena = Arena::new();
    let p = spawn_player(&mut arena);
    spawn_player(&mut arena);
    let z = arena.spawn(zone_at(150000));
    let mut machine = StateMachine { current: AppState::InGame, queued: None };
    on_level_success(&arena, &vec![ContactEvent::Started(p, z)], &mut machine);
    assert_eq!(machine.queued, None);
    assert_eq!(arena.single(Facet::Player), None);
    assert_eq!(arena.single(Facet::WinningZone), Some(z));
}

#[test]
fn movement_keys_set_speed_and_facing() {
    let mut arena = Arena::new();
    let p = spawn_player(&mut arena);
    let mut input = no_keys();
    input.left_pressed = true;
    player_controller(&mut arena, input);
    let e = find(&arena, p).unwrap();
    assert_eq!(e.velocity.x, -(PLAYER_SPEED as i64));
    assert_eq!(e.player.unwrap().facing_direction, GameDirection::Left);
    player_controller(&mut arena, no_keys());
    assert_eq!(find(&arena, p).unwrap().player.unwrap().facing_direction, GameDirection::Left);
    input.right_pressed = true;
    player_controller(&mut arena, input);
    let e = find(&arena, p).unwrap();
    assert_eq!(e.velocity.x, PLAYER_SPEED as i64);
    assert_eq!(e.player.unwrap(), Player { speed: PLAYER_SPEED, facing_direction: GameDirection::Right });
}

#[test]
fn jump_key_only_when_not_jumping() {
    let mut arena = Arena::new();
    let p = spawn_player(&mut arena);
    let mut input = no_keys();
    input.jump_just_pressed = true;
    arena.entities[0].velocity = Point { x: 7000, y: -300 };
    player_jumps(&mut arena, input);
    let e = find(&arena, p).unwrap();
    assert_eq!(e.velocity, Point { x: 0, y: JUMP_IMPULSE });
    assert!(e.jumper.unwrap().is_jumping);
    arena.entities[0].velocity = Point { x: 0, y: -500 };
    player_jumps(&mut arena, input);
    assert_eq!(find(&arena, p).unwrap().velocity, Point { x: 0, y: -500 });
}

#[test]
fn fire_needs_the_key_and_a_player() {
    let mut arena = Arena::new();
    let mut fired = Vec::new();
    let mut input = no_keys();
    input.fire_just_pressed = true;
    fire_controller(&arena, input, &mut fired);
    assert!(fired.is_empty());
    spawn_player(&mut arena);
    fire_controller(&arena, no_keys(), &mut fired);
    assert!(fired.is_empty());
    fire_controller(&arena, input, &mut fired);
    assert_eq!(fired.len(), 1);
}

#[test]
fn camera_follows_the_player() {
    let mut arena = Arena::new();
    assert_eq!(camera_follow_player(&arena), None);
    let mut rec = player_record();
    rec.position = Point { x: 4200, y: 2100 };
    arena.spawn(rec);
    arena.spawn(at(1, 1));
    assert_eq!(camera_follow_player(&arena), Some(Point { x: 4200, y: 2100 }));
}

#[test]
fn monster_jump_decision() {
    assert!(should_jump_for_roll(0));
    assert!(should_jump_for_roll(9));
    assert!(!should_jump_for_roll(10));
    assert!(!should_jump_for_roll(99));
    let mut arena = Arena::new();
    insert_monster_at(&mut arena, 7, 3);
    let mut m = arena.entities[0];
    m.velocity = Point { x: 3000, y: 0 };
    assert_eq!(monster_jump(m, true).velocity, Point { x: 0, y: JUMP_IMPULSE });
    assert_eq!(monster_jump(m, false), m);
    let mut rock = at(0, 0);
    rock.enemy = Some(Enemy);
    assert_eq!(monster_jump(rock, true), rock);
}

#[test]
fn state_machine_takes_only_wired_transitions() {
    let mut m = StateMachine::new();
    m.request(AppState::GameOver);
    assert_eq!(m.queued, None);
    assert!(!button_press_system(&mut m, MenuButton::Play));
    assert_eq!(m.queued, Some(AppState::InGame));
    m.request(AppState::MainMenu);
    assert_eq!(m.queued, Some(AppState::InGame));
    assert_eq!(m.apply(), Some((AppState::MainMenu, AppState::InGame)));
    back_to_main_menu_controls(&mut m, false);
    assert_eq!(m.queued, None);
    back_to_main_menu_controls(&mut m, true);
    assert_eq!(m.queued, Some(AppState::MainMenu));
    let mut over = StateMachine { current: AppState::GameOver, queued: None };
    assert!(button_press_system(&mut over, MenuButton::Quit));
    assert_eq!(over.queued, None);
    button_press_system(&mut over, MenuButton::BackToMainMenu);
    assert_eq!(over.queued, Some(AppState::MainMenu));
}

#[test]
fn entering_a_game_spawns_level_and_player() {
    let mut world = GameWorld::new();
    button_press_system(&mut world.machine, MenuButton::Play);
    assert_eq!(end_tick(&mut world), Some((AppState::MainMenu, AppState::InGame)));
    let ents = &world.arena.entities;
    assert_eq!(ents.iter().filter(|e| e.player.is_some()).count(), 1);
    assert_eq!(ents.iter().filter(|e| e.tile.is_some()).count(), 150);
    let zones: Vec<_> = ents.iter().filter(|e| e.winning_zone.is_some()).collect();
    assert_eq!(zones.len(), 1);
    assert_eq!(zones[0].position.x, 150000);
    assert!(ents.iter().filter(|e| e.floor.is_some()).count() >= 1);
    for e in ents.iter().filter(|e| e.monster.is_some()) {
        assert!(e.position.x >= 6000);
        assert!(e.living_being == Some(LivingBeing));
    }
    let mut input = no_keys();
    input.escape_just_pressed = true;
    pre_physics(&mut world, input);
    assert_eq!(end_tick(&mut world), Some((AppState::InGame, AppState::MainMenu)));
    assert!(world.arena.entities.is_empty());
}

#[test]
fn each_kind_gets_its_body() {
    let character = PhysicsBody {
        kind: BodyKind::Dynamic,
        shape: Shape::RoundCuboid { half_width: 350, half_height: 350, radius: 100 },
        contact_events: true,
        gravity_tenths: 30,
        rotation_locked: true,
        can_sleep: false,
    };
    let mut arena = Arena::new();
    let p = spawn_player(&mut arena);
    let m = insert_monster_at(&mut arena, 7, 3);
    let ev = BulletFiredEvent { position: Point { x: 0, y: 0 }, direction: GameDirection::Right };
    let b = insert_bullet_at(&mut arena, &ev);
    assert_eq!(find(&arena, p).unwrap().body, Some(character));
    assert_eq!(find(&arena, m).unwrap().body, Some(character));
    assert_eq!(
        find(&arena, b).unwrap().body,
        Some(PhysicsBody {
            kind: BodyKind::Dynamic,
            shape: Shape::Cuboid { half_width: 250, half_height: 50 },
            contact_events: true,
            gravity_tenths: 0,
            rotation_locked: true,
            can_sleep: false,
        })
    );
}

#[test]
fn a_new_level_has_quiet_static_floors_and_drawn_only_tiles() {
    let mut world = GameWorld::new();
    button_press_system(&mut world.machine, MenuButton::Play);
    end_tick(&mut world);
    let ents = &world.arena.entities;
    for e in ents.iter().filter(|e| e.floor.is_some() || e.winning_zone.is_some()) {
        let body = e.body.unwrap();
        assert_eq!(body.kind, BodyKind::Static);
        assert!(!body.contact_events);
    }
    for e in ents.iter().filter(|e| e.tile.is_some()) {
        assert_eq!(e.body, None);
    }
    let zone = ents.iter().find(|e| e.winning_zone.is_some()).unwrap();
    assert_eq!(
        zone.body.unwrap().shape,
        Shape::Cuboid { half_width: 500, half_height: 400000 }
    );
    let first = ents
        .iter()
        .find(|e| e.floor.is_some() && e.position.y == 1000)
        .unwrap();
    match first.body.unwrap().shape {
        Shape::Cuboid { half_width, half_height } => {
            assert_eq!(half_height, 500);
            assert!(first.position.x - half_width == -500);
        }
        Shape::RoundCuboid { .. } => panic!("a slab is a plain box"),
    }
}
