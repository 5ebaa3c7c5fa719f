use vstd::prelude::*;

use crate::components::{
    Bullet, Enemy, Floor, Jumper, LivingBeing, Monster, PhysicsBody, Player, Point, Tile,
    WinningZone,
};

verus! {

broadcast use vstd::seq_lib::group_seq_properties;

/// The kinds of facet an entity can carry.
#[derive(Clone, Copy, Debug, PartialEq, Eq, Structural)]
pub enum Facet {
    Player,
    Monster,
    Jumper,
    LivingBeing,
    Enemy,
    Bullet,
    WinningZone,
    Floor,
    Tile,
}

/// One entity of the arena: its handle, where it is and how it moves, how
/// the physics layer holds it (nothing for what is only drawn), and the
/// facets attached to it.
#[derive(Clone, Copy, Debug, PartialEq, Eq, Structural)]
pub struct EntityRecord {
    pub id: u64,
    pub position: Point,
    pub velocity: Point,
    pub body: Option<PhysicsBody>,
    pub player: Option<Player>,
    pub monster: Option<Monster>,
    pub jumper: Option<Jumper>,
    pub living_being: Option<LivingBeing>,
    pub enemy: Option<Enemy>,
    pub bullet: Option<Bullet>,
    pub winning_zone: Option<WinningZone>,
    pub floor: Option<Floor>,
    pub tile: Option<Tile>,
}

impl EntityRecord {
    /// An entity at `position`, moving at `velocity`, with no body and no
    /// facet yet.
    pub fn bare(position: Point, velocity: Point) -> (r: EntityRecord)
        ensures
            r == bare_spec(position, velocity),
            forall|f: Facet| !(#[trigger] r.has_spec(f)),
    {
        EntityRecord {
            id: 0,
            position,
            velocity,
            body: None,
            player: None,
            monster: None,
            jumper: None,
            living_being: None,
            enemy: None,
            bullet: None,
            winning_zone: None,
            floor: None,
            tile: None,
        }
    }

    pub open spec fn has_spec(self, f: Facet) -> bool {
        match f {
            Facet::Player => self.player is Some,
            Facet::Monster => self.monster is Some,
            Facet::Jumper => self.jumper is Some,
            Facet::LivingBeing => self.living_being is Some,
            Facet::Enemy => self.enemy is Some,
            Facet::Bullet => self.bullet is Some,
            Facet::WinningZone => self.winning_zone is Some,
            Facet::Floor => self.floor is Some,
            Facet::Tile => self.tile is Some,
        }
    }

    /// Whether the facet `f` is attached.
    pub fn has(&self, f: Facet) -> (r: bool)
        ensures
            r == self.has_spec(f),
    {
        match f {
            Facet::Player => self.player.is_some(),
            Facet::Monster => self.monster.is_some(),
            Facet::Jumper => self.jumper.is_some(),
            Facet::LivingBeing => self.living_being.is_some(),
            Facet::Enemy => self.enemy.is_some(),
            Facet::Bullet => self.bullet.is_some(),
            Facet::WinningZone => self.winning_zone.is_some(),
            Facet::Floor => self.floor.is_some(),
            Facet::Tile => self.tile.is_some(),
        }
    }
}

/// A record with no body and no facet.
pub open spec fn bare_spec(position: Point, velocity: Point) -> EntityRecord {
    EntityRecord {
        id: 0,
        position,
        velocity,
        body: None,
        player: None,
        monster: None,
        jumper: None,
        living_being: None,
        enemy: None,
        bullet: None,
        winning_zone: None,
        floor: None,
        tile: None,
    }
}

/// No two entities share a handle.
pub open spec fn ids_unique(ents: Seq<EntityRecord>) -> bool {
    forall|i: int, j: int|
        0 <= i < ents.len() && 0 <= j < ents.len() && i != j ==> #[trigger] ents[i].id
            != #[trigger] ents[j].id
}

/// The entity with handle `id` exists and carries facet `f`. A handle that
/// names no entity carries nothing.
pub open spec fn is_a(ents: Seq<EntityRecord>, id: u64, f: Facet) -> bool {
    exists|i: int| 0 <= i < ents.len() && #[trigger] ents[i].id == id && ents[i].has_spec(f)
}

/// The entity with handle `id` exists.
pub open spec fn exists_id(ents: Seq<EntityRecord>, id: u64) -> bool {
    exists|i: int| 0 <= i < ents.len() && #[trigger] ents[i].id == id
}

pub open spec fn with_facet(f: Facet) -> spec_fn(EntityRecord) -> bool {
    |e: EntityRecord| e.has_spec(f)
}

pub open spec fn id_not_in(ids: Seq<u64>) -> spec_fn(EntityRecord) -> bool {
    |e: EntityRecord| !ids.contains(e.id)
}

/// The handle of the one entity that carries `f`; none where zero or
/// several carry it.
pub open spec fn single_spec(ents: Seq<EntityRecord>, f: Facet) -> Option<u64> {
    let w = ents.filter(with_facet(f));
    if w.len() == 1 {
        Some(w[0].id)
    } else {
        None
    }
}

/// The store of entities. Handles are unique and below `next_id`, which
/// is the handle the next entity gets: a handle is never given twice.
pub struct Arena {
    pub entities: Vec<EntityRecord>,
    pub next_id: u64,
}

impl Arena {
    pub open spec fn wf(&self) -> bool {
        &&& ids_unique(self.entities@)
        &&& forall|i: int| 0 <= i < self.entities@.len() ==> #[trigger] self.entities@[i].id < self.next_id
    }

    /// An empty arena.
    pub fn new() -> (r: Arena)
        ensures
            r.wf(),
            r.entities@.len() == 0,
            r.next_id == 0,
    {
        Arena { entities: Vec::new(), next_id: 0 }
    }

    /// Adds `rec` under a fresh handle, which is returned.
    pub fn spawn(&mut self, rec: EntityRecord) -> (id: u64)
        requires
            old(self).wf(),
            old(self).next_id < u64::MAX,
        ensures
            final(self).wf(),
            id == old(self).next_id,
            final(self).next_id == old(self).next_id + 1,
            final(self).entities@ == old(self).entities@.push(EntityRecord { id, ..rec }),
    {
        let id = self.next_id;
        let r = EntityRecord { id, ..rec };
        self.entities.push(r);
        self.next_id = self.next_id + 1;
        id
    }

    /// The index of the entity with handle `id`, if there is one.
    pub fn find(&self, id: u64) -> (r: Option<usize>)
        ensures
            r matches Some(k) ==> k < self.entities@.len() && self.entities@[k as int].id == id,
            r is None ==> !exists_id(self.entities@, id),
    {
        let mut i: usize = 0;
        while i < self.entities.len()
            invariant
                i <= self.entities.len(),
                forall|j: int| 0 <= j < i ==> (#[trigger] self.entities@[j]).id != id,
            decreases self.entities.len() - i,
        {
            if self.entities[i].id == id {
                return Some(i);
            }
            i = i + 1;
        }
        None
    }

    /// Whether the entity with handle `id` exists and carries `f`.
    pub fn is_a(&self, id: u64, f: Facet) -> (r: bool)
        requires
            self.wf(),
        ensures
            r == is_a(self.entities@, id, f),
    {
        match self.find(id) {
            Some(k) => {
                let r = self.entities[k].has(f);
                proof {
                    if is_a(self.entities@, id, f) {
                        let i = choose|i: int|
                            0 <= i < self.entities@.len() && #[trigger] self.entities@[i].id == id
                                && self.entities@[i].has_spec(f);
                        assert(i == k);
                    }
                }
                r
            },
            None => false,
        }
    }

    /// The handle of the one entity that carries `f`, if exactly one does.
    pub fn single(&self, f: Facet) -> (r: Option<u64>)
        ensures
            r == single_spec(self.entities@, f),
    {
        let ghost p = with_facet(f);
        let mut count: usize = 0;
        let mut first: u64 = 0;
        let mut i: usize = 0;
        while i < self.entities.len()
            invariant
                p == with_facet(f),
                i <= self.entities.len(),
                count == self.entities@.take(i as int).filter(p).len(),
                count >= 1 ==> first == self.entities@.take(i as int).filter(p)[0].id,
            decreases self.entities.len() - i,
        {
            proof {
                assert(self.entities@.take(i + 1) =~= self.entities@.take(i as int).push(
                    self.entities@[i as int],
                ));
                self.entities@.take(i as int).lemma_filter_push(self.entities@[i as int], p);
            }
            if self.entities[i].has(f) {
                if count == 0 {
                    first = self.entities[i].id;
                }
                count = count + 1;
            }
            i = i + 1;
        }
        assert(self.entities@.take(i as int) =~= self.entities@);
        if count == 1 {
            Some(first)
        } else {
            None
        }
    }

    /// Removes every entity whose handle is in `ids`; handles that name no
    /// entity are passed over, so removing twice is the same as once.
    pub fn despawn_all(&mut self, ids: &Vec<u64>)
        requires
            old(self).wf(),
        ensures
            final(self).wf(),
            final(self).next_id == old(self).next_id,
            final(self).entities@ == old(self).entities@.filter(id_not_in(ids@)),
    {
        let ghost p = id_not_in(ids@);
        let ghost before = self.entities@;
        let mut kept: Vec<EntityRecord> = Vec::new();
        let mut i: usize = 0;
        while i < self.entities.len()
            invariant
                p == id_not_in(ids@),
                before == self.entities@,
                i <= self.entities.len(),
                kept@ == before.take(i as int).filter(p),
            decreases self.entities.len() - i,
        {
            proof {
                assert(before.take(i + 1) =~= before.take(i as int).push(before[i as int]));
                before.take(i as int).lemma_filter_push(before[i as int], p);
            }
            let e = self.entities[i];
            if !contains_id(ids, e.id) {
                kept.push(e);
            }
            i = i + 1;
        }
        assert(before.take(i as int) =~= before);
        self.entities = kept;
        proof {
            lemma_filter_keeps_wf(before, p, self.next_id);
        }
    }

    /// Removes the entity with handle `id`; a handle that names no entity is
    /// passed over.
    pub fn despawn(&mut self, id: u64)
        requires
            old(self).wf(),
        ensures
            final(self).wf(),
            final(self).next_id == old(self).next_id,
            final(self).entities@ == old(self).entities@.filter(id_not_in(seq![id])),
    {
        let ids = vec![id];
        assert(ids@ == seq![id]);
        self.despawn_all(&ids);
    }

    /// Removes every entity.
    pub fn clear(&mut self)
        requires
            old(self).wf(),
        ensures
            final(self).wf(),
            final(self).next_id == old(self).next_id,
            final(self).entities@.len() == 0,
    {
        self.entities = Vec::new();
    }
}

/// Whether `id` is one of `ids`.
pub fn contains_id(ids: &Vec<u64>, id: u64) -> (r: bool)
    ensures
        r == ids@.contains(id),
{
    let mut i: usize = 0;
    while i < ids.len()
        invariant
            i <= ids.len(),
            forall|j: int| 0 <= j < i ==> ids@[j] != id,
        decreases ids.len() - i,
    {
        if ids[i] == id {
            return true;
        }
        i = i + 1;
    }
    false
}

/// Records changed in place, handles kept, leave the arena well formed.
pub(crate) proof fn lemma_same_ids_keep_wf(before: Seq<EntityRecord>, after: Seq<EntityRecord>, bound: u64)
    requires
        ids_unique(before),
        forall|i: int| 0 <= i < before.len() ==> #[trigger] before[i].id < bound,
        after.len() == before.len(),
        forall|i: int| 0 <= i < before.len() ==> #[trigger] after[i].id == before[i].id,
    ensures
        ids_unique(after),
        forall|i: int| 0 <= i < after.len() ==> #[trigger] after[i].id < bound,
{
    assert forall|i: int, j: int|
        0 <= i < after.len() && 0 <= j < after.len() && i != j implies #[trigger] after[i].id
        != #[trigger] after[j].id by {
        assert(after[i].id == before[i].id && after[j].id == before[j].id);
    }
    assert forall|i: int| 0 <= i < after.len() implies #[trigger] after[i].id < bound by {
        assert(after[i].id == before[i].id);
    }
}

/// Filters by two predicates that agree on every element give the same.
pub(crate) proof fn lemma_filter_congruent(
    s: Seq<EntityRecord>,
    p: spec_fn(EntityRecord) -> bool,
    q: spec_fn(EntityRecord) -> bool,
)
    requires
        forall|i: int| 0 <= i < s.len() ==> p(#[trigger] s[i]) == q(s[i]),
    ensures
        s.filter(p) == s.filter(q),
    decreases s.len(),
{
    reveal(Seq::filter);
    if s.len() > 0 {
        let d = s.drop_last();
        assert forall|i: int| 0 <= i < d.len() implies p(#[trigger] d[i]) == q(d[i]) by {
            assert(d[i] == s[i]);
        }
        lemma_filter_congruent(d, p, q);
    }
}

proof fn lemma_filter_keeps_wf(s: Seq<EntityRecord>, p: spec_fn(EntityRecord) -> bool, bound: u64)
    requires
        ids_unique(s),
        forall|i: int| 0 <= i < s.len() ==> #[trigger] s[i].id < bound,
    ensures
        ids_unique(s.filter(p)),
        forall|i: int| 0 <= i < s.filter(p).len() ==> #[trigger] s.filter(p)[i].id < bound,
        forall|i: int| 0 <= i < s.filter(p).len() ==> s.contains(#[trigger] s.filter(p)[i]),
    decreases s.len(),
{
    reveal(Seq::filter);
    if s.len() > 0 {
        let d = s.drop_last();
        assert forall|i: int, j: int|
            0 <= i < d.len() && 0 <= j < d.len() && i != j implies #[trigger] d[i].id
            != #[trigger] d[j].id by {
            assert(d[i] == s[i] && d[j] == s[j]);
        }
        lemma_filter_keeps_wf(d, p, bound);
        let f = d.filter(p);
        if p(s.last()) {
            assert forall|i: int| 0 <= i < f.len() implies #[trigger] f[i].id != s.last().id by {
                assert(d.contains(f[i]));
                let k = choose|k: int| 0 <= k < d.len() && d[k] == f[i];
                assert(s[k] == d[k]);
            }
            let g = f.push(s.last());
            assert forall|i: int, j: int|
                0 <= i < g.len() && 0 <= j < g.len() && i != j implies #[trigger] g[i].id
                != #[trigger] g[j].id by {
                if i < f.len() && j < f.len() {
                    assert(g[i] == f[i] && g[j] == f[j]);
                }
            }
            assert forall|i: int| 0 <= i < g.len() implies s.contains(#[trigger] g[i]) by {
                if i < f.len() {
                    assert(d.contains(f[i]));
                    let k = choose|k: int| 0 <= k < d.len() && d[k] == f[i];
                    assert(s[k] == d[k]);
                } else {
                    assert(s[s.len() - 1] == g[i]);
                }
            }
        } else {
            assert forall|i: int| 0 <= i < f.len() implies s.contains(#[trigger] f[i]) by {
                assert(d.contains(f[i]));
                let k = choose|k: int| 0 <= k < d.len() && d[k] == f[i];
                assert(s[k] == d[k]);
            }
        }
    }
}

} // verus!
