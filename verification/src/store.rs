//! The slice of the entity/component store the two pipelines read and write:
//! players with their inventory, position, orientation and charge; the Owner
//! relation on projectiles; and the per-entity arrow counters. Lookups are
//! explicit optional accessors — a caller branches on presence, absence is
//! never an error.

use vstd::prelude::*;
use std::collections::HashMap;
use crate::EntityId;
use crate::item::Inventory;
use crate::item::Slot;
use crate::motion::DIR_BOUND_MILLI;
use crate::motion::POS_BOUND_MILLI;
use crate::motion::Vec3;
use crate::motion::dir_in_bounds;
use crate::motion::pos_in_bounds;

verus! {

/// The non-owning back-reference from a projectile to the player that fired
/// it: a plain identity, used for lookup only, never for lifetime control.
#[derive(Clone, Copy, PartialEq, Eq, Structural, Debug)]
pub struct Owner {
    pub entity: EntityId,
}

impl Owner {
    pub fn new(entity: EntityId) -> (o: Self)
        ensures
            o.entity == entity,
    {
        Owner { entity }
    }
}

/// A player's state as this module sees it: the inventory, the position in
/// milli-units, the orientation in milli-degrees, the view direction the
/// embedding derived from that orientation (milli-units of a unit vector,
/// since the trigonometry lives outside this crate), and the charge of a draw
/// in progress, if one is (milli-units, 1000 is a full draw).
pub struct Player {
    pub inventory: Inventory,
    pub position: Vec3,
    pub yaw_millideg: i64,
    pub pitch_millideg: i64,
    pub direction: Vec3,
    pub charge: Option<u32>,
}

/// The mathematical image of a [`Player`].
#[verifier::ext_equal]
pub ghost struct PlayerView {
    pub inventory: Seq<Slot>,
    pub position: Vec3,
    pub yaw_millideg: i64,
    pub pitch_millideg: i64,
    pub direction: Vec3,
    pub charge: Option<u32>,
}

impl View for Player {
    type V = PlayerView;

    open spec fn view(&self) -> PlayerView {
        PlayerView {
            inventory: self.inventory@,
            position: self.position,
            yaw_millideg: self.yaw_millideg,
            pitch_millideg: self.pitch_millideg,
            direction: self.direction,
            charge: self.charge,
        }
    }
}

/// A player the trajectory arithmetic can take: direction and position within
/// bounds.
pub open spec fn player_wf(p: PlayerView) -> bool {
    dir_in_bounds(p.direction) && pos_in_bounds(p.position)
}

/// The mathematical image of the [`Store`]: three component maps keyed by
/// entity identity.
#[verifier::ext_equal]
pub ghost struct StoreView {
    pub players: Map<EntityId, PlayerView>,
    pub owners: Map<EntityId, EntityId>,
    pub arrows_in: Map<EntityId, u64>,
}

/// The component store: players, Owner relations on projectiles, and
/// ArrowsInEntity counters on whatever can be struck.
pub struct Store {
    pub(crate) players: HashMap<EntityId, Player>,
    pub(crate) owners: HashMap<EntityId, EntityId>,
    pub(crate) arrows_in: HashMap<EntityId, u64>,
}

impl View for Store {
    type V = StoreView;

    closed spec fn view(&self) -> StoreView {
        StoreView {
            players: self.players@.map_values(|p: Player| p@),
            owners: self.owners@,
            arrows_in: self.arrows_in@,
        }
    }
}

/// A counter bumped by one; a counter already at the machine limit stays put
/// rather than wrap.
pub open spec fn bumped(n: u64) -> u64 {
    if n < u64::MAX {
        (n + 1) as u64
    } else {
        n
    }
}

/// Every player in the map is one the trajectory arithmetic can take.
pub open spec fn players_wf(players: Map<EntityId, PlayerView>) -> bool {
    forall|e: EntityId| players.contains_key(e) ==> player_wf(#[trigger] players[e])
}

impl Store {
    /// Every player on record is one the trajectory arithmetic can take.
    pub open spec fn inv(&self) -> bool {
        players_wf(self@.players)
    }

    pub fn new() -> (s: Store)
        ensures
            s@.players == Map::<EntityId, PlayerView>::empty(),
            s@.owners == Map::<EntityId, EntityId>::empty(),
            s@.arrows_in == Map::<EntityId, u64>::empty(),
            s.inv(),
    {
        let s = Store { players: HashMap::new(), owners: HashMap::new(), arrows_in: HashMap::new() };
        proof {
            assert(s@.players =~= Map::<EntityId, PlayerView>::empty());
        }
        s
    }

    /// Put a player on record. A player out of bounds is refused and nothing
    /// changes; the refusal is reported, not an error.
    pub fn insert_player(&mut self, id: EntityId, p: Player) -> (ok: bool)
        requires
            old(self).inv(),
        ensures
            final(self).inv(),
            ok == player_wf(p@),
            ok ==> final(self)@.players == old(self)@.players.insert(id, p@),
            !ok ==> final(self)@.players == old(self)@.players,
            final(self)@.owners == old(self)@.owners,
            final(self)@.arrows_in == old(self)@.arrows_in,
    {
        let d = p.direction;
        let q = p.position;
        let ok = -DIR_BOUND_MILLI <= d.x && d.x <= DIR_BOUND_MILLI && -DIR_BOUND_MILLI <= d.y
            && d.y <= DIR_BOUND_MILLI && -DIR_BOUND_MILLI <= d.z && d.z <= DIR_BOUND_MILLI
            && -POS_BOUND_MILLI <= q.x && q.x <= POS_BOUND_MILLI && -POS_BOUND_MILLI <= q.y && q.y
            <= POS_BOUND_MILLI && -POS_BOUND_MILLI <= q.z && q.z <= POS_BOUND_MILLI;
        if ok {
            let ghost oldmap = self.players@;
            self.players.insert(id, p);
            proof {
                assert(self@.players =~= oldmap.map_values(|pl: Player| pl@).insert(id, p@));
                assert forall|e: EntityId| self@.players.contains_key(e) implies player_wf(
                    self@.players[e],
                ) by {
                    if e != id {
                        assert(old(self)@.players.contains_key(e));
                        assert(self@.players[e] == old(self)@.players[e]);
                    }
                }
            }
            true
        } else {
            false
        }
    }

    /// Take a player off the record for mutation; the counterpart of
    /// [`Store::put_player`].
    pub(crate) fn remove_player(&mut self, id: EntityId) -> (r: Option<Player>)
        requires
            old(self).inv(),
        ensures
            final(self).inv(),
            final(self)@.players == old(self)@.players.remove(id),
            (match r {
                Some(p) => old(self)@.players.contains_key(id) && p@ == old(self)@.players[id]
                    && player_wf(p@),
                None => !old(self)@.players.contains_key(id),
            }),
            final(self)@.owners == old(self)@.owners,
            final(self)@.arrows_in == old(self)@.arrows_in,
    {
        let ghost oldmap = self.players@;
        let r = self.players.remove(&id);
        proof {
            assert(self@.players =~= oldmap.map_values(|pl: Player| pl@).remove(id));
            assert forall|e: EntityId| self@.players.contains_key(e) implies player_wf(
                self@.players[e],
            ) by {
                assert(old(self)@.players.contains_key(e));
                assert(self@.players[e] == old(self)@.players[e]);
            }
        }
        r
    }

    /// Put a player back on record, unchanged in direction and position.
    pub(crate) fn put_player(&mut self, id: EntityId, p: Player)
        requires
            old(self).inv(),
            player_wf(p@),
        ensures
            final(self).inv(),
            final(self)@.players == old(self)@.players.insert(id, p@),
            final(self)@.owners == old(self)@.owners,
            final(self)@.arrows_in == old(self)@.arrows_in,
    {
        let ghost oldmap = self.players@;
        self.players.insert(id, p);
        proof {
            assert(self@.players =~= oldmap.map_values(|pl: Player| pl@).insert(id, p@));
            assert forall|e: EntityId| self@.players.contains_key(e) implies player_wf(
                self@.players[e],
            ) by {
                if e != id {
                    assert(old(self)@.players.contains_key(e));
                    assert(self@.players[e] == old(self)@.players[e]);
                }
            }
        }
    }

    /// Tear down a projectile's Owner relation, handing out what it held:
    /// part of destroying the projectile.
    pub fn take_owner(&mut self, projectile: EntityId) -> (o: Option<EntityId>)
        requires
            old(self).inv(),
        ensures
            final(self).inv(),
            final(self)@.owners == old(self)@.owners.remove(projectile),
            (match o {
                Some(e) => old(self)@.owners.contains_key(projectile) && old(
                    self,
                )@.owners[projectile] == e,
                None => !old(self)@.owners.contains_key(projectile),
            }),
            final(self)@.players == old(self)@.players,
            final(self)@.arrows_in == old(self)@.arrows_in,
    {
        let o = self.owners.remove(&projectile);
        proof {
            assert(self@.players == old(self)@.players);
        }
        o
    }

    /// Bump an entity's ArrowsInEntity counter by one, where the entity has
    /// one; an entity without the counter is left alone. A counter at the
    /// machine limit stays put rather than wrap.
    pub(crate) fn bump_arrows_in(&mut self, id: EntityId)
        requires
            old(self).inv(),
        ensures
            final(self).inv(),
            final(self)@.arrows_in == (if old(self)@.arrows_in.contains_key(id) {
                old(self)@.arrows_in.insert(id, bumped(old(self)@.arrows_in[id]))
            } else {
                old(self)@.arrows_in
            }),
            final(self)@.players == old(self)@.players,
            final(self)@.owners == old(self)@.owners,
    {
        let counter = self.arrows_in.get(&id);
        match counter {
            Some(c) => {
                let current = *c;
                let next = if current < u64::MAX {
                    current + 1
                } else {
                    current
                };
                self.arrows_in.insert(id, next);
                proof {
                    assert(self@.players == old(self)@.players);
                }
            },
            None => {},
        }
    }

    /// Optional lookup of a player's whole record.
    pub fn get_player(&self, id: EntityId) -> (r: Option<&Player>)
        ensures
            (match r {
                Some(p) => self@.players.contains_key(id) && p@ == self@.players[id],
                None => !self@.players.contains_key(id),
            }),
    {
        let r = self.players.get(&id);
        proof {
            match r {
                Some(p) => {
                    assert(self.players@.contains_key(id));
                },
                None => {},
            }
        }
        r
    }

    /// Optional lookup of the charge of a draw in progress: the resolved
    /// charge of a release with no charge state is treated as zero by the
    /// pipeline, not here.
    pub fn charge_of(&self, id: EntityId) -> (c: Option<u32>)
        ensures
            c == (if self@.players.contains_key(id) {
                self@.players[id].charge
            } else {
                None::<u32>
            }),
    {
        match self.players.get(&id) {
            Some(p) => p.charge,
            None => None,
        }
    }

    /// Attach the Owner relation to a projectile.
    pub fn set_owner(&mut self, projectile: EntityId, o: Owner)
        requires
            old(self).inv(),
        ensures
            final(self).inv(),
            final(self)@.owners == old(self)@.owners.insert(projectile, o.entity),
            final(self)@.players == old(self)@.players,
            final(self)@.arrows_in == old(self)@.arrows_in,
    {
        self.owners.insert(projectile, o.entity);
        proof {
            assert(self@.players == old(self)@.players);
        }
    }

    /// Optional lookup of a projectile's Owner relation.
    pub fn get_owner(&self, projectile: EntityId) -> (o: Option<EntityId>)
        ensures
            (match o {
                Some(e) => self@.owners.contains_key(projectile) && self@.owners[projectile] == e,
                None => !self@.owners.contains_key(projectile),
            }),
    {
        match self.owners.get(&projectile) {
            Some(e) => Some(*e),
            None => None,
        }
    }

    /// Give an entity an ArrowsInEntity counter.
    pub fn set_arrows_in(&mut self, id: EntityId, n: u64)
        requires
            old(self).inv(),
        ensures
            final(self).inv(),
            final(self)@.arrows_in == old(self)@.arrows_in.insert(id, n),
            final(self)@.players == old(self)@.players,
            final(self)@.owners == old(self)@.owners,
    {
        self.arrows_in.insert(id, n);
        proof {
            assert(self@.players == old(self)@.players);
        }
    }

    /// Optional lookup of an entity's ArrowsInEntity counter.
    pub fn arrows_in_of(&self, id: EntityId) -> (n: Option<u64>)
        ensures
            (match n {
                Some(c) => self@.arrows_in.contains_key(id) && self@.arrows_in[id] == c,
                None => !self@.arrows_in.contains_key(id),
            }),
    {
        match self.arrows_in.get(&id) {
            Some(c) => Some(*c),
            None => None,
        }
    }
}

} // verus!
