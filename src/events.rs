use vstd::prelude::*;

use crate::components::{GameDirection, Point};

verus! {

/// A bullet is to be fired from `position` towards `direction`.
#[derive(Clone, Copy, Debug, PartialEq, Eq, Structural)]
pub struct BulletFiredEvent {
    pub position: Point,
    pub direction: GameDirection,
}

/// A living being was hit; it dies next.
#[derive(Clone, Copy, Debug, PartialEq, Eq, Structural)]
pub struct LivingBeingHitEvent {
    pub entity: u64,
}

/// A living being dies and is removed.
#[derive(Clone, Copy, Debug, PartialEq, Eq, Structural)]
pub struct LivingBeingDeathEvent {
    pub entity: u64,
}

/// A monster ran into something and turns round.
#[derive(Clone, Copy, Debug, PartialEq, Eq, Structural)]
pub struct MonsterWalkedIntoWallEvent {
    pub entity: u64,
}

/// What the physics layer reports about two colliders, by entity handle.
#[derive(Clone, Copy, Debug, PartialEq, Eq, Structural)]
pub enum ContactEvent {
    Started(u64, u64),
    Stopped(u64, u64),
}

/// The pair of a contact-begin event with the smaller handle first; none
/// for other events. Matching on this pair handles `(a, b)` and `(b, a)`
/// alike.
pub open spec fn started_pair(c: ContactEvent) -> Option<(u64, u64)> {
    match c {
        ContactEvent::Started(a, b) => if a <= b {
            Some((a, b))
        } else {
            Some((b, a))
        },
        ContactEvent::Stopped(_, _) => None,
    }
}

/// The pair of a contact-begin event, smaller handle first.
pub fn started_pair_of(c: ContactEvent) -> (r: Option<(u64, u64)>)
    ensures
        r == started_pair(c),
{
    match c {
        ContactEvent::Started(a, b) => if a <= b {
            Some((a, b))
        } else {
            Some((b, a))
        },
        ContactEvent::Stopped(_, _) => None,
    }
}

/// The message lists of one tick, one per kind. Producers append,
/// consumers read; all are emptied at the end of the tick.
pub struct Events {
    pub bullet_fired: Vec<BulletFiredEvent>,
    pub hits: Vec<LivingBeingHitEvent>,
    pub deaths: Vec<LivingBeingDeathEvent>,
    pub walls: Vec<MonsterWalkedIntoWallEvent>,
}

impl Events {
    pub open spec fn is_empty(&self) -> bool {
        &&& self.bullet_fired@.len() == 0
        &&& self.hits@.len() == 0
        &&& self.deaths@.len() == 0
        &&& self.walls@.len() == 0
    }

    /// No message that contacts produce: only shots may be pending.
    pub open spec fn no_contact_messages(&self) -> bool {
        &&& self.hits@.len() == 0
        &&& self.deaths@.len() == 0
        &&& self.walls@.len() == 0
    }

    /// No message yet.
    pub fn new() -> (r: Events)
        ensures
            r.is_empty(),
    {
        Events { bullet_fired: Vec::new(), hits: Vec::new(), deaths: Vec::new(), walls: Vec::new() }
    }

    /// Drops every message at the end of a tick.
    pub fn clear(&mut self)
        ensures
            final(self).is_empty(),
    {
        self.bullet_fired = Vec::new();
        self.hits = Vec::new();
        self.deaths = Vec::new();
        self.walls = Vec::new();
    }
}

} // verus!
