use vstd::prelude::*;

use crate::components::{
    BodyKind, Bullet, Enemy, Floor, GameDirection, Jumper, LivingBeing, Monster, PhysicsBody,
    Player, Point, Shape, Tile, WinningZone, BULLET_SPEED, JUMP_IMPULSE, MONSTER_SPEED,
    PLAYER_SPEED, UNIT,
};
use crate::events::BulletFiredEvent;
use crate::floor::FloorSegment;
use crate::world::{bare_spec, Arena, EntityRecord};

verus! {

/// Where the player appears, in steps.
pub const PLAYER_SPAWN_Y: i64 = 2000;

/// Half the height of the winning zone, in steps: the zone is 800 units tall.
pub const WINNING_ZONE_HALF_HEIGHT: i64 = 400000;

/// Half the width of the winning zone, in steps.
pub const WINNING_ZONE_HALF_WIDTH: i64 = 500;

/// Half the side of a character's box, in steps, before its rounded corners.
pub const CHARACTER_HALF_SIZE: i64 = 350;

/// Radius of a character's rounded corners, in steps.
pub const CHARACTER_CORNER_RADIUS: i64 = 100;

/// Characters fall three times as fast as the world's gravity would make them.
pub const CHARACTER_GRAVITY_TENTHS: u32 = 30;

/// Gravity of a static body, which nothing moves: the world's own.
pub const STATIC_GRAVITY_TENTHS: u32 = 10;

/// Half the length of a bullet, in steps.
pub const BULLET_HALF_WIDTH: i64 = 250;

/// Half the thickness of a bullet, in steps.
pub const BULLET_HALF_HEIGHT: i64 = 50;

pub open spec fn still() -> Point {
    Point { x: 0, y: 0 }
}

/// The body of the player and of a monster: dynamic, a rounded box, never
/// rotating and never asleep, under three times the gravity, and reporting
/// its contacts.
pub open spec fn character_body_spec() -> PhysicsBody {
    PhysicsBody {
        kind: BodyKind::Dynamic,
        shape: Shape::RoundCuboid {
            half_width: CHARACTER_HALF_SIZE,
            half_height: CHARACTER_HALF_SIZE,
            radius: CHARACTER_CORNER_RADIUS,
        },
        contact_events: true,
        gravity_tenths: CHARACTER_GRAVITY_TENTHS,
        rotation_locked: true,
        can_sleep: false,
    }
}

/// The body of a bullet: dynamic, a thin box, never rotating and never
/// asleep, without gravity, and reporting its contacts.
pub open spec fn bullet_body_spec() -> PhysicsBody {
    PhysicsBody {
        kind: BodyKind::Dynamic,
        shape: Shape::Cuboid { half_width: BULLET_HALF_WIDTH, half_height: BULLET_HALF_HEIGHT },
        contact_events: true,
        gravity_tenths: 0,
        rotation_locked: true,
        can_sleep: false,
    }
}

/// A static box of the given half extents that reports no contact of its
/// own, which bounds the number of contact events.
pub open spec fn static_box_spec(half_width: i64, half_height: i64) -> PhysicsBody {
    PhysicsBody {
        kind: BodyKind::Static,
        shape: Shape::Cuboid { half_width, half_height },
        contact_events: false,
        gravity_tenths: STATIC_GRAVITY_TENTHS,
        rotation_locked: false,
        can_sleep: true,
    }
}

/// The body of the player and of a monster.
pub fn character_body() -> (r: PhysicsBody)
    ensures
        r == character_body_spec(),
{
    PhysicsBody {
        kind: BodyKind::Dynamic,
        shape: Shape::RoundCuboid {
            half_width: CHARACTER_HALF_SIZE,
            half_height: CHARACTER_HALF_SIZE,
            radius: CHARACTER_CORNER_RADIUS,
        },
        contact_events: true,
        gravity_tenths: CHARACTER_GRAVITY_TENTHS,
        rotation_locked: true,
        can_sleep: false,
    }
}

/// The body of a bullet.
pub fn bullet_body() -> (r: PhysicsBody)
    ensures
        r == bullet_body_spec(),
{
    PhysicsBody {
        kind: BodyKind::Dynamic,
        shape: Shape::Cuboid { half_width: BULLET_HALF_WIDTH, half_height: BULLET_HALF_HEIGHT },
        contact_events: true,
        gravity_tenths: 0,
        rotation_locked: true,
        can_sleep: false,
    }
}

/// A static box of the given half extents.
pub fn static_box(half_width: i64, half_height: i64) -> (r: PhysicsBody)
    ensures
        r == static_box_spec(half_width, half_height),
{
    PhysicsBody {
        kind: BodyKind::Static,
        shape: Shape::Cuboid { half_width, half_height },
        contact_events: false,
        gravity_tenths: STATIC_GRAVITY_TENTHS,
        rotation_locked: false,
        can_sleep: true,
    }
}

/// The player as it appears: above the first column, still, facing right,
/// not jumping, in a character's body.
pub open spec fn player_spec() -> EntityRecord {
    EntityRecord {
        body: Some(character_body_spec()),
        player: Some(Player { speed: PLAYER_SPEED, facing_direction: GameDirection::Right }),
        jumper: Some(Jumper { jump_impulse: JUMP_IMPULSE, is_jumping: false }),
        living_being: Some(LivingBeing),
        ..bare_spec(Point { x: 0, y: PLAYER_SPAWN_Y }, still())
    }
}

/// A monster standing at column `x`, height `y`, in a character's body: it
/// walks right and can jump.
pub open spec fn monster_spec(x: usize, y: usize) -> EntityRecord {
    EntityRecord {
        body: Some(character_body_spec()),
        monster: Some(Monster { speed: MONSTER_SPEED, facing_direction: GameDirection::Right }),
        jumper: Some(Jumper { jump_impulse: JUMP_IMPULSE, is_jumping: false }),
        living_being: Some(LivingBeing),
        enemy: Some(Enemy),
        ..bare_spec(Point { x: (x * UNIT) as i64, y: (y * UNIT) as i64 }, still())
    }
}

/// A bullet fired as `ev` says: one unit ahead of the firer, flying level
/// at the bullet speed in the firing direction, in a bullet's body.
pub open spec fn bullet_spec(ev: BulletFiredEvent) -> EntityRecord {
    EntityRecord {
        body: Some(bullet_body_spec()),
        bullet: Some(Bullet),
        ..bare_spec(
            Point { x: (ev.position.x + ev.direction.sign() * UNIT) as i64, y: ev.position.y },
            Point { x: (ev.direction.sign() * BULLET_SPEED) as i64, y: 0 },
        )
    }
}

/// The static slab of a floor segment: a box centred on its columns at its
/// level, as wide as the segment and one unit thick, that reports no
/// contact of its own.
pub open spec fn slab_spec(s: FloorSegment) -> EntityRecord {
    EntityRecord {
        body: Some(static_box_spec(((s.end - s.start) * UNIT / 2) as i64, (UNIT / 2) as i64)),
        floor: Some(Floor),
        ..bare_spec(
            Point {
                x: (s.start * UNIT + (s.end - s.start) * UNIT / 2 - UNIT / 2) as i64,
                y: (s.level * UNIT) as i64,
            },
            still(),
        )
    }
}

/// The drawn column `x` of height `h`: its bottom on the ground line. It is
/// only drawn: no body, no collider.
pub open spec fn tile_spec(x: usize, h: usize) -> EntityRecord {
    EntityRecord {
        tile: Some(Tile { height: h }),
        ..bare_spec(Point { x: (x * UNIT) as i64, y: (h * UNIT / 2 + UNIT / 2) as i64 }, still())
    }
}

/// The winning zone at column `x`: a static box one unit wide and 800
/// units tall, centred on the ground line, that reports no contact of its
/// own.
pub open spec fn winning_zone_spec(x: usize) -> EntityRecord {
    EntityRecord {
        body: Some(static_box_spec(WINNING_ZONE_HALF_WIDTH, WINNING_ZONE_HALF_HEIGHT)),
        winning_zone: Some(WinningZone),
        ..bare_spec(Point { x: (x * UNIT) as i64, y: 0 }, still())
    }
}

/// A position of column `x` fits the fixed-point range.
pub open spec fn column_fits(x: int) -> bool {
    0 <= x && x * UNIT + UNIT <= i64::MAX
}

/// The record of the player.
pub fn player_record() -> (r: EntityRecord)
    ensures
        r == player_spec(),
{
    let mut r = EntityRecord::bare(Point { x: 0, y: PLAYER_SPAWN_Y }, Point { x: 0, y: 0 });
    r.body = Some(character_body());
    r.player = Some(Player { speed: PLAYER_SPEED, facing_direction: GameDirection::Right });
    r.jumper = Some(Jumper { jump_impulse: JUMP_IMPULSE, is_jumping: false });
    r.living_being = Some(LivingBeing);
    r
}

/// The record of a monster at column `x`, height `y`.
pub fn monster_record(x: usize, y: usize) -> (r: EntityRecord)
    requires
        column_fits(x as int),
        column_fits(y as int),
    ensures
        r == monster_spec(x, y),
{
    let mut r = EntityRecord::bare(
        Point { x: x as i64 * UNIT, y: y as i64 * UNIT },
        Point { x: 0, y: 0 },
    );
    r.body = Some(character_body());
    r.monster = Some(Monster { speed: MONSTER_SPEED, facing_direction: GameDirection::Right });
    r.jumper = Some(Jumper { jump_impulse: JUMP_IMPULSE, is_jumping: false });
    r.living_being = Some(LivingBeing);
    r.enemy = Some(Enemy);
    r
}

/// The firing position leaves room for the bullet's offset.
pub open spec fn can_fire_from(p: Point) -> bool {
    i64::MIN + UNIT <= p.x <= i64::MAX - UNIT
}

/// The record of the bullet that `ev` fires.
pub fn bullet_record(ev: &BulletFiredEvent) -> (r: EntityRecord)
    requires
        can_fire_from(ev.position),
    ensures
        r == bullet_spec(*ev),
{
    let x = ev.position.x + ev.direction.signed(UNIT as u32);
    let vx = ev.direction.signed(BULLET_SPEED);
    let mut r = EntityRecord::bare(Point { x, y: ev.position.y }, Point { x: vx, y: 0 });
    r.body = Some(bullet_body());
    r.bullet = Some(Bullet);
    r
}

/// The record of the slab of floor segment `s`.
pub fn slab_record(s: &FloorSegment) -> (r: EntityRecord)
    requires
        s.start < s.end,
        column_fits(s.end as int),
        column_fits(s.level as int),
    ensures
        r == slab_spec(*s),
{
    let width = (s.end - s.start) as i64;
    let half_width = width * UNIT / 2;
    let mut r = EntityRecord::bare(
        Point { x: s.start as i64 * UNIT + half_width - UNIT / 2, y: s.level as i64 * UNIT },
        Point { x: 0, y: 0 },
    );
    r.body = Some(static_box(half_width, UNIT / 2));
    r.floor = Some(Floor);
    r
}

/// The record of the drawn column `x` of height `h`.
pub fn tile_record(x: usize, h: usize) -> (r: EntityRecord)
    requires
        column_fits(x as int),
        column_fits(h as int),
    ensures
        r == tile_spec(x, h),
{
    let mut r = EntityRecord::bare(
        Point { x: x as i64 * UNIT, y: h as i64 * UNIT / 2 + UNIT / 2 },
        Point { x: 0, y: 0 },
    );
    r.tile = Some(Tile { height: h });
    r
}

/// The record of the winning zone at column `x`.
pub fn winning_zone_record(x: usize) -> (r: EntityRecord)
    requires
        column_fits(x as int),
    ensures
        r == winning_zone_spec(x),
{
    let mut r = EntityRecord::bare(Point { x: x as i64 * UNIT, y: 0 }, Point { x: 0, y: 0 });
    r.body = Some(static_box(WINNING_ZONE_HALF_WIDTH, WINNING_ZONE_HALF_HEIGHT));
    r.winning_zone = Some(WinningZone);
    r
}

/// Spawns the player and returns its handle.
pub fn spawn_player(arena: &mut Arena) -> (id: u64)
    requires
        old(arena).wf(),
        old(arena).next_id < u64::MAX,
    ensures
        final(arena).wf(),
        id == old(arena).next_id,
        final(arena).next_id == old(arena).next_id + 1,
        final(arena).entities@ == old(arena).entities@.push(EntityRecord { id, ..player_spec() }),
{
    arena.spawn(player_record())
}

/// Spawns a monster at column `x`, height `y`, and returns its handle.
pub fn insert_monster_at(arena: &mut Arena, x: usize, y: usize) -> (id: u64)
    requires
        old(arena).wf(),
        old(arena).next_id < u64::MAX,
        column_fits(x as int),
        column_fits(y as int),
    ensures
        final(arena).wf(),
        id == old(arena).next_id,
        final(arena).next_id == old(arena).next_id + 1,
        final(arena).entities@ == old(arena).entities@.push(
            EntityRecord { id, ..monster_spec(x, y) },
        ),
{
    arena.spawn(monster_record(x, y))
}

/// Spawns the bullet that `ev` fires and returns its handle.
pub fn insert_bullet_at(arena: &mut Arena, ev: &BulletFiredEvent) -> (id: u64)
    requires
        old(arena).wf(),
        old(arena).next_id < u64::MAX,
        can_fire_from(ev.position),
    ensures
        final(arena).wf(),
        id == old(arena).next_id,
        final(arena).next_id == old(arena).next_id + 1,
        final(arena).entities@ == old(arena).entities@.push(EntityRecord { id, ..bullet_spec(*ev) }),
{
    arena.spawn(bullet_record(ev))
}

/// `recs` given consecutive handles from `first` on.
pub open spec fn with_ids(recs: Seq<EntityRecord>, first: int) -> Seq<EntityRecord> {
    recs.map(|i: int, r: EntityRecord| EntityRecord { id: (first + i) as u64, ..r })
}

/// Spawns the bullet of every event, in order.
pub fn on_bullet_fired(arena: &mut Arena, fired: &Vec<BulletFiredEvent>)
    requires
        old(arena).wf(),
        old(arena).next_id + fired@.len() <= u64::MAX,
        forall|k: int| 0 <= k < fired@.len() ==> can_fire_from(#[trigger] fired@[k].position),
    ensures
        final(arena).wf(),
        final(arena).next_id == old(arena).next_id + fired@.len(),
        final(arena).entities@ == old(arena).entities@ + with_ids(
            fired@.map_values(|ev: BulletFiredEvent| bullet_spec(ev)),
            old(arena).next_id as int,
        ),
{
    let ghost start = arena.entities@;
    let ghost first = arena.next_id as int;
    let mut i: usize = 0;
    while i < fired.len()
        invariant
            arena.wf(),
            i <= fired.len(),
            arena.next_id == first + i,
            first + fired@.len() <= u64::MAX,
            forall|k: int| 0 <= k < fired@.len() ==> can_fire_from(#[trigger] fired@[k].position),
            arena.entities@ == start + with_ids(
                fired@.take(i as int).map_values(|ev: BulletFiredEvent| bullet_spec(ev)),
                first,
            ),
        decreases fired.len() - i,
    {
        insert_bullet_at(arena, &fired[i]);
        i = i + 1;
        assert(with_ids(fired@.take(i as int).map_values(|ev: BulletFiredEvent| bullet_spec(ev)), first)
            =~= with_ids(fired@.take(i - 1).map_values(|ev: BulletFiredEvent| bullet_spec(ev)), first).push(
            EntityRecord { id: (first + i - 1) as u64, ..bullet_spec(fired@[i - 1]) },
        ));
    }
    assert(fired@.take(i as int) =~= fired@);
}

/// Spawns `recs` in order under consecutive fresh handles.
pub fn spawn_all(arena: &mut Arena, recs: &Vec<EntityRecord>)
    requires
        old(arena).wf(),
        old(arena).next_id + recs@.len() <= u64::MAX,
    ensures
        final(arena).wf(),
        final(arena).next_id == old(arena).next_id + recs@.len(),
        final(arena).entities@ == old(arena).entities@ + with_ids(recs@, old(arena).next_id as int),
{
    let ghost start = arena.entities@;
    let ghost first = arena.next_id as int;
    let mut i: usize = 0;
    while i < recs.len()
        invariant
            arena.wf(),
            i <= recs.len(),
            arena.next_id == first + i,
            first + recs@.len() <= u64::MAX,
            arena.entities@ == start + with_ids(recs@.take(i as int), first),
        decreases recs.len() - i,
    {
        arena.spawn(recs[i]);
        i = i + 1;
        assert(with_ids(recs@.take(i as int), first) =~= with_ids(recs@.take(i - 1), first).push(
            EntityRecord { id: (first + i - 1) as u64, ..recs@[i - 1] },
        ));
    }
    assert(recs@.take(i as int) =~= recs@);
}

} // verus!
