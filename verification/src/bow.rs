//! The bow combat module: the release pipeline turns queued release intents
//! into inventory consumption, charge resolution and arrow spawns; the
//! collision pipeline turns queued projectile hits into attack orders,
//! counter updates and projectile destruction.

use vstd::prelude::*;
use crate::EntityId;
use crate::events::ARROW_DAMAGE_MILLI;
use crate::events::AttackEntity;
use crate::events::EventBus;
use crate::events::EventQueue;
use crate::events::ProjectileEntityEvent;
use crate::events::ReleaseUseItem;
use crate::item::ItemKind;
use crate::item::after_consume;
use crate::item::arrow_count;
use crate::item::decremented_slot;
use crate::item::first_arrow_slot;
use crate::item::lemma_consume_takes_one_arrow;
use crate::motion::Vec3;
use crate::motion::spawn_position_micro;
use crate::motion::spec_spawn_position_micro;
use crate::motion::spec_velocity_micro;
use crate::motion::velocity_micro;
use crate::store::PlayerView;
use crate::store::Store;
use crate::store::bumped;

verus! {

/// The bow combat module. Its two associated pass functions are the two
/// per-tick systems; the embedding schedules them and materializes their
/// outputs.
pub struct BowModule;

/// Everything the world-spawn mechanism needs to materialize a fresh arrow:
/// where it appears and how it flies (micro-units), its visual orientation,
/// and the Owner back-reference to the firing player.
#[derive(Clone, Copy, PartialEq, Eq, Structural, Debug)]
pub struct ArrowSpawn {
    pub position_micro: Vec3,
    pub velocity_micro: Vec3,
    pub yaw_millideg: i64,
    pub pitch_millideg: i64,
    pub owner: EntityId,
}

/// A release with no charge state is a release at charge zero, not an error.
pub open spec fn resolved_charge(c: Option<u32>) -> u32 {
    match c {
        Some(v) => v,
        None => 0u32,
    }
}

/// The arrow a player in this state fires: trajectory from their position,
/// view direction and charge; orientation copied for the visual; the Owner
/// relation pointing back at them.
pub open spec fn arrow_spawn_for(p: PlayerView, shooter: EntityId) -> ArrowSpawn {
    ArrowSpawn {
        position_micro: spec_spawn_position_micro(p.position, p.direction),
        velocity_micro: spec_velocity_micro(p.direction, resolved_charge(p.charge)),
        yaw_millideg: p.yaw_millideg,
        pitch_millideg: p.pitch_millideg,
        owner: shooter,
    }
}

/// One release event against the player map: a non-bow release and an
/// unknown player are no-ops; with no ammo nothing changes; otherwise the
/// first arrow slot is decremented, the charge state is consumed, and
/// exactly one arrow spawn comes out.
pub open spec fn release_step(players: Map<EntityId, PlayerView>, ev: ReleaseUseItem) -> (
    Map<EntityId, PlayerView>,
    Option<ArrowSpawn>,
) {
    if ev.item != ItemKind::Bow {
        (players, None::<ArrowSpawn>)
    } else if !players.contains_key(ev.from) {
        (players, None::<ArrowSpawn>)
    } else {
        let p = players[ev.from];
        match first_arrow_slot(p.inventory) {
            None => (players, None::<ArrowSpawn>),
            Some(i) => {
                let consumed = PlayerView {
                    inventory: p.inventory.update(i, decremented_slot(p.inventory[i])),
                    charge: None,
                    ..p
                };
                (players.insert(ev.from, consumed), Some(arrow_spawn_for(p, ev.from)))
            },
        }
    }
}

/// A whole release pass: the events folded over the player map in enqueue
/// order, collecting the spawned arrows in that order.
pub open spec fn release_fold(players: Map<EntityId, PlayerView>, evs: Seq<ReleaseUseItem>) -> (
    Map<EntityId, PlayerView>,
    Seq<ArrowSpawn>,
)
    decreases evs.len(),
{
    if evs.len() == 0 {
        (players, Seq::<ArrowSpawn>::empty())
    } else {
        let stepped = release_step(players, evs[0]);
        let rest = release_fold(stepped.0, evs.drop_first());
        (
            rest.0,
            match stepped.1 {
                Some(s) => seq![s] + rest.1,
                None => rest.1,
            },
        )
    }
}

/// One collision event against the Owner relations and the arrow counters:
/// the projectile's Owner relation always ends gone (the projectile is
/// destroyed either way); with a resolvable owner exactly one attack order
/// comes out and the struck entity's counter, where it has one, is bumped.
pub open spec fn hit_step(
    owners: Map<EntityId, EntityId>,
    arrows_in: Map<EntityId, u64>,
    ev: ProjectileEntityEvent,
) -> (Map<EntityId, EntityId>, Map<EntityId, u64>, Option<AttackEntity>) {
    if owners.contains_key(ev.projectile) {
        let attack = AttackEntity {
            origin: owners[ev.projectile],
            target: ev.client,
            damage_milli: ARROW_DAMAGE_MILLI,
        };
        let counters = if arrows_in.contains_key(ev.client) {
            arrows_in.insert(ev.client, bumped(arrows_in[ev.client]))
        } else {
            arrows_in
        };
        (owners.remove(ev.projectile), counters, Some(attack))
    } else {
        (owners.remove(ev.projectile), arrows_in, None::<AttackEntity>)
    }
}

/// A whole collision pass: the events folded over the Owner relations and
/// counters in enqueue order, collecting the attack orders in that order.
pub open spec fn hit_fold(
    owners: Map<EntityId, EntityId>,
    arrows_in: Map<EntityId, u64>,
    evs: Seq<ProjectileEntityEvent>,
) -> (Map<EntityId, EntityId>, Map<EntityId, u64>, Seq<AttackEntity>)
    decreases evs.len(),
{
    if evs.len() == 0 {
        (owners, arrows_in, Seq::<AttackEntity>::empty())
    } else {
        let stepped = hit_step(owners, arrows_in, evs[0]);
        let rest = hit_fold(stepped.0, stepped.1, evs.drop_first());
        (
            rest.0,
            rest.1,
            match stepped.2 {
                Some(a) => seq![a] + rest.2,
                None => rest.2,
            },
        )
    }
}

/// A release with no ammo available is a complete no-op: no arrow spawns and
/// no player state changes — in particular the inventory is untouched. The
/// same holds for a non-bow release and for an unknown shooter.
pub proof fn lemma_release_without_ammo(players: Map<EntityId, PlayerView>, ev: ReleaseUseItem)
    requires
        players.contains_key(ev.from) ==> first_arrow_slot(players[ev.from].inventory) is None,
    ensures
        release_step(players, ev).0 == players,
        release_step(players, ev).1 is None,
{
}

/// A projectile is created if and only if ammo consumption succeeded, and a
/// successful release takes exactly one arrow out of the shooter's
/// inventory; no other player's state moves either way.
pub proof fn lemma_release_consumes_ammo(players: Map<EntityId, PlayerView>, ev: ReleaseUseItem)
    ensures
        release_step(players, ev).1 is Some <==> (ev.item == ItemKind::Bow
            && players.contains_key(ev.from) && first_arrow_slot(players[ev.from].inventory)
            is Some),
        release_step(players, ev).1 is Some ==> arrow_count(
            release_step(players, ev).0[ev.from].inventory,
        ) == arrow_count(players[ev.from].inventory) - 1,
        release_step(players, ev).0.dom() == players.dom(),
        forall|e: EntityId|
            e != ev.from && players.contains_key(e) ==> #[trigger] release_step(players, ev).0[e]
                == players[e],
{
    if ev.item == ItemKind::Bow && players.contains_key(ev.from) {
        let inv = players[ev.from].inventory;
        lemma_consume_takes_one_arrow(inv);
        match first_arrow_slot(inv) {
            Some(i) => {
                assert(release_step(players, ev).0[ev.from].inventory == after_consume(inv));
                assert(release_step(players, ev).0.dom() =~= players.dom());
            },
            None => {},
        }
    }
}

/// A charge state is consumed by the release it fires: after a release that
/// spawned an arrow, the shooter's charge state is absent, so any later
/// lookup resolves to nothing.
pub proof fn lemma_charge_one_shot(players: Map<EntityId, PlayerView>, ev: ReleaseUseItem)
    requires
        release_step(players, ev).1 is Some,
    ensures
        release_step(players, ev).0.contains_key(ev.from),
        release_step(players, ev).0[ev.from].charge is None,
{
}

/// A hit by a projectile with a resolvable owner produces exactly one attack
/// order — one point of damage, from that owner, against the struck entity —
/// and a hit by a projectile without one produces none and moves no counter.
/// Either way the projectile's Owner relation is gone afterwards:
/// destruction is unconditional.
pub proof fn lemma_hit_dispatch(
    owners: Map<EntityId, EntityId>,
    arrows_in: Map<EntityId, u64>,
    ev: ProjectileEntityEvent,
)
    ensures
        owners.contains_key(ev.projectile) ==> hit_step(owners, arrows_in, ev).2 == Some(
            AttackEntity {
                origin: owners[ev.projectile],
                target: ev.client,
                damage_milli: ARROW_DAMAGE_MILLI,
            },
        ),
        !owners.contains_key(ev.projectile) ==> hit_step(owners, arrows_in, ev).2 is None,
        !owners.contains_key(ev.projectile) ==> hit_step(owners, arrows_in, ev).1 == arrows_in,
        !hit_step(owners, arrows_in, ev).0.contains_key(ev.projectile),
{
}

/// A valid hit bumps the struck entity's arrow counter by exactly one; an
/// entity without the counter is unaffected, and no other entity's counter
/// ever moves.
pub proof fn lemma_hit_counter(
    owners: Map<EntityId, EntityId>,
    arrows_in: Map<EntityId, u64>,
    ev: ProjectileEntityEvent,
)
    requires
        owners.contains_key(ev.projectile),
    ensures
        arrows_in.contains_key(ev.client) && arrows_in[ev.client] < u64::MAX ==> hit_step(
            owners,
            arrows_in,
            ev,
        ).1[ev.client] == arrows_in[ev.client] + 1,
        !arrows_in.contains_key(ev.client) ==> hit_step(owners, arrows_in, ev).1 == arrows_in,
        hit_step(owners, arrows_in, ev).1.dom() == arrows_in.dom(),
        forall|e: EntityId|
            e != ev.client && arrows_in.contains_key(e) ==> #[trigger] hit_step(
                owners,
                arrows_in,
                ev,
            ).1[e] == arrows_in[e],
{
    if arrows_in.contains_key(ev.client) {
        assert(hit_step(owners, arrows_in, ev).1.dom() =~= arrows_in.dom());
    }
}

impl BowModule {
    /// One release event: consume ammo, resolve and consume the charge,
    /// compute the trajectory, and hand back the arrow to spawn, if any.
    pub fn handle_release_event(store: &mut Store, ev: ReleaseUseItem) -> (spawn: Option<
        ArrowSpawn,
    >)
        requires
            old(store).inv(),
        ensures
            final(store).inv(),
            final(store)@.players == release_step(old(store)@.players, ev).0,
            spawn == release_step(old(store)@.players, ev).1,
            final(store)@.owners == old(store)@.owners,
            final(store)@.arrows_in == old(store)@.arrows_in,
    {
        if ev.item != ItemKind::Bow {
            return None;
        }
        let ghost players0 = old(store)@.players;
        let removed = store.remove_player(ev.from);
        match removed {
            None => {
                proof {
                    assert(players0.remove(ev.from) =~= players0);
                }
                None
            },
            Some(mut p) => {
                let ghost pv = p@;
                let found = p.inventory.consume_one_arrow();
                if !found {
                    proof {
                        assert(p@ == pv);
                    }
                    store.put_player(ev.from, p);
                    proof {
                        assert(players0.remove(ev.from).insert(ev.from, pv) =~= players0);
                    }
                    return None;
                }
                let charge = match p.charge {
                    Some(c) => c,
                    None => 0,
                };
                p.charge = None;
                let spawn = ArrowSpawn {
                    position_micro: spawn_position_micro(p.position, p.direction),
                    velocity_micro: velocity_micro(p.direction, charge),
                    yaw_millideg: p.yaw_millideg,
                    pitch_millideg: p.pitch_millideg,
                    owner: ev.from,
                };
                proof {
                    assert(spawn == arrow_spawn_for(pv, ev.from));
                    let i = first_arrow_slot(pv.inventory).unwrap();
                    assert(p@ =~= (PlayerView {
                        inventory: pv.inventory.update(i, decremented_slot(pv.inventory[i])),
                        charge: None,
                        ..pv
                    }));
                }
                store.put_player(ev.from, p);
                proof {
                    assert(players0.remove(ev.from).insert(ev.from, p@) =~= players0.insert(
                        ev.from,
                        p@,
                    ));
                }
                Some(spawn)
            },
        }
    }

    /// The release pipeline's per-tick pass: drain the release mailbox and
    /// process every event exactly once in enqueue order. Failures are local
    /// — a no-op event leaves no trace and the pass moves on. Returns the
    /// arrows to spawn, in firing order; the mailbox ends empty.
    pub fn handle_bow_release(store: &mut Store, queue: &mut EventQueue<ReleaseUseItem>) -> (spawns:
        Vec<ArrowSpawn>)
        requires
            old(store).inv(),
        ensures
            final(store).inv(),
            final(queue)@.len() == 0,
            final(store)@.players == release_fold(old(store)@.players, old(queue)@).0,
            spawns@ == release_fold(old(store)@.players, old(queue)@).1,
            final(store)@.owners == old(store)@.owners,
            final(store)@.arrows_in == old(store)@.arrows_in,
    {
        let evs = queue.drain();
        let mut spawns: Vec<ArrowSpawn> = Vec::new();
        let ghost players0 = old(store)@.players;
        proof {
            assert(evs@.skip(0) =~= evs@);
            assert(Seq::<ArrowSpawn>::empty() + release_fold(players0, evs@).1 =~= release_fold(
                players0,
                evs@,
            ).1);
        }
        let n = evs.len();
        for i in 0..n
            invariant
                n == evs@.len(),
                evs@ == old(queue)@,
                players0 == old(store)@.players,
                store.inv(),
                store@.owners == old(store)@.owners,
                store@.arrows_in == old(store)@.arrows_in,
                release_fold(players0, evs@).0 == release_fold(
                    store@.players,
                    evs@.skip(i as int),
                ).0,
                release_fold(players0, evs@).1 == spawns@ + release_fold(
                    store@.players,
                    evs@.skip(i as int),
                ).1,
        {
            let ghost pre = store@.players;
            let ghost suffix = evs@.skip(i as int);
            let sp = BowModule::handle_release_event(store, evs[i]);
            proof {
                assert(suffix.len() > 0);
                assert(suffix[0] == evs@[i as int]);
                assert(suffix.drop_first() =~= evs@.skip(i as int + 1));
            }
            let ghost spawns_pre = spawns@;
            match sp {
                Some(s) => {
                    spawns.push(s);
                    proof {
                        let stepped = release_step(pre, evs@[i as int]);
                        let rest = release_fold(stepped.0, evs@.skip(i as int + 1));
                        assert(release_fold(pre, suffix).1 == seq![s] + rest.1);
                        assert(spawns_pre + (seq![s] + rest.1) =~= spawns@ + rest.1);
                    }
                },
                None => {},
            }
        }
        proof {
            assert(evs@.skip(n as int) =~= Seq::<ReleaseUseItem>::empty());
            assert(spawns@ + Seq::<ArrowSpawn>::empty() =~= spawns@);
        }
        spawns
    }

    /// One collision event: look up the projectile's Owner relation; with an
    /// owner, push exactly one attack order and bump the struck entity's
    /// counter where it has one; either way the projectile's data is torn
    /// down — the caller destroys the entity itself.
    pub fn handle_projectile_hit(store: &mut Store, ev: ProjectileEntityEvent, bus: &mut EventBus)
        requires
            old(store).inv(),
        ensures
            final(store).inv(),
            final(store)@.owners == hit_step(old(store)@.owners, old(store)@.arrows_in, ev).0,
            final(store)@.arrows_in == hit_step(old(store)@.owners, old(store)@.arrows_in, ev).1,
            final(bus)@ == (match hit_step(old(store)@.owners, old(store)@.arrows_in, ev).2 {
                Some(a) => old(bus)@.push(a),
                None => old(bus)@,
            }),
            final(store)@.players == old(store)@.players,
    {
        let owner_entity = store.take_owner(ev.projectile);
        match owner_entity {
            Some(origin) => {
                bus.push(
                    AttackEntity { origin, target: ev.client, damage_milli: ARROW_DAMAGE_MILLI },
                );
                store.bump_arrows_in(ev.client);
            },
            None => {},
        }
    }

    /// The collision pipeline's per-tick pass: drain the hit mailbox and
    /// process every event exactly once in enqueue order. Attack orders go
    /// onto the outgoing bus; every consumed event terminates its
    /// projectile's lifetime exactly once — the returned identities, in
    /// event order, are handed to the world for destruction, owner or no
    /// owner. The mailbox ends empty.
    pub fn arrow_entity_hit(
        store: &mut Store,
        queue: &mut EventQueue<ProjectileEntityEvent>,
        bus: &mut EventBus,
    ) -> (destroyed: Vec<EntityId>)
        requires
            old(store).inv(),
        ensures
            final(store).inv(),
            final(queue)@.len() == 0,
            final(store)@.owners == hit_fold(
                old(store)@.owners,
                old(store)@.arrows_in,
                old(queue)@,
            ).0,
            final(store)@.arrows_in == hit_fold(
                old(store)@.owners,
                old(store)@.arrows_in,
                old(queue)@,
            ).1,
            final(bus)@ == old(bus)@ + hit_fold(
                old(store)@.owners,
                old(store)@.arrows_in,
                old(queue)@,
            ).2,
            destroyed@ == old(queue)@.map_values(|e: ProjectileEntityEvent| e.projectile),
            final(store)@.players == old(store)@.players,
    {
        let evs = queue.drain();
        let mut destroyed: Vec<EntityId> = Vec::new();
        let ghost owners0 = old(store)@.owners;
        let ghost arrows0 = old(store)@.arrows_in;
        proof {
            assert(evs@.skip(0) =~= evs@);
            assert(old(bus)@ + Seq::<AttackEntity>::empty() =~= old(bus)@);
        }
        let n = evs.len();
        for i in 0..n
            invariant
                n == evs@.len(),
                evs@ == old(queue)@,
                owners0 == old(store)@.owners,
                arrows0 == old(store)@.arrows_in,
                store.inv(),
                store@.players == old(store)@.players,
                hit_fold(owners0, arrows0, evs@).0 == hit_fold(
                    store@.owners,
                    store@.arrows_in,
                    evs@.skip(i as int),
                ).0,
                hit_fold(owners0, arrows0, evs@).1 == hit_fold(
                    store@.owners,
                    store@.arrows_in,
                    evs@.skip(i as int),
                ).1,
                old(bus)@ + hit_fold(owners0, arrows0, evs@).2 == bus@ + hit_fold(
                    store@.owners,
                    store@.arrows_in,
                    evs@.skip(i as int),
                ).2,
                destroyed@ == evs@.take(i as int).map_values(
                    |e: ProjectileEntityEvent| e.projectile,
                ),
        {
            let ghost owners_pre = store@.owners;
            let ghost arrows_pre = store@.arrows_in;
            let ghost bus_pre = bus@;
            let ghost suffix = evs@.skip(i as int);
            let ev = evs[i];
            BowModule::handle_projectile_hit(store, ev, bus);
            destroyed.push(ev.projectile);
            proof {
                assert(suffix.len() > 0);
                assert(suffix[0] == evs@[i as int]);
                assert(suffix.drop_first() =~= evs@.skip(i as int + 1));
                let stepped = hit_step(owners_pre, arrows_pre, evs@[i as int]);
                let rest = hit_fold(stepped.0, stepped.1, evs@.skip(i as int + 1));
                match stepped.2 {
                    Some(a) => {
                        assert(hit_fold(owners_pre, arrows_pre, suffix).2 == seq![a] + rest.2);
                        assert(bus_pre + (seq![a] + rest.2) =~= bus@ + rest.2);
                    },
                    None => {},
                }
                assert(evs@.take(i as int + 1).map_values(|e: ProjectileEntityEvent| e.projectile)
                    =~= evs@.take(i as int).map_values(|e: ProjectileEntityEvent| e.projectile)
                    + seq![evs@[i as int].projectile]);
            }
        }
        proof {
            assert(evs@.skip(n as int) =~= Seq::<ProjectileEntityEvent>::empty());
            assert(bus@ + Seq::<AttackEntity>::empty() =~= bus@);
            assert(evs@.take(n as int) =~= evs@);
        }
        destroyed
    }
}

} // verus!
