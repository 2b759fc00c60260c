use bow_core::bow::BowModule;
use bow_core::events::AttackEntity;
use bow_core::events::EventBus;
use bow_core::events::EventQueue;
use bow_core::events::ProjectileEntityEvent;
use bow_core::store::Owner;
use bow_core::store::Store;

#[test]
fn hit_with_owner_attacks_counts_and_destroys() {
    // projectile 10 owned by 7; victim 20 already carries two arrows
    let mut store = Store::new();
    store.set_owner(10, Owner::new(7));
    store.set_arrows_in(20, 2);
    let mut queue = EventQueue::new();
    let mut bus = EventBus::new();
    queue.push(ProjectileEntityEvent { projectile: 10, client: 20 });

    let destroyed = BowModule::arrow_entity_hit(&mut store, &mut queue, &mut bus);

    assert_eq!(bus.entries, vec![AttackEntity { origin: 7, target: 20, damage_milli: 1000 }]);
    assert_eq!(store.arrows_in_of(20), Some(3));
    assert_eq!(store.get_owner(10), None);
    assert_eq!(destroyed, vec![10]);
    assert_eq!(queue.len(), 0);
}

#[test]
fn hit_without_owner_is_silent_but_still_destroys() {
    let mut store = Store::new();
    store.set_arrows_in(20, 2);
    let mut queue = EventQueue::new();
    let mut bus = EventBus::new();
    queue.push(ProjectileEntityEvent { projectile: 11, client: 20 });

    let destroyed = BowModule::arrow_entity_hit(&mut store, &mut queue, &mut bus);

    assert!(bus.entries.is_empty());
    assert_eq!(store.arrows_in_of(20), Some(2));
    assert_eq!(destroyed, vec![11]);
    assert_eq!(queue.len(), 0);
}

#[test]
fn hit_on_entity_without_counter_still_attacks() {
    let mut store = Store::new();
    store.set_owner(10, Owner::new(7));
    let mut queue = EventQueue::new();
    let mut bus = EventBus::new();
    queue.push(ProjectileEntityEvent { projectile: 10, client: 21 });

    let destroyed = BowModule::arrow_entity_hit(&mut store, &mut queue, &mut bus);

    assert_eq!(bus.entries, vec![AttackEntity { origin: 7, target: 21, damage_milli: 1000 }]);
    assert_eq!(store.arrows_in_of(21), None);
    assert_eq!(destroyed, vec![10]);
}

#[test]
fn hits_are_processed_in_enqueue_order() {
    let mut store = Store::new();
    store.set_owner(10, Owner::new(7));
    store.set_owner(11, Owner::new(8));
    store.set_arrows_in(20, 0);
    let mut queue = EventQueue::new();
    let mut bus = EventBus::new();
    queue.push(ProjectileEntityEvent { projectile: 11, client: 20 });
    queue.push(ProjectileEntityEvent { projectile: 10, client: 20 });

    let destroyed = BowModule::arrow_entity_hit(&mut store, &mut queue, &mut bus);

    assert_eq!(
        bus.entries,
        vec![
            AttackEntity { origin: 8, target: 20, damage_milli: 1000 },
            AttackEntity { origin: 7, target: 20, damage_milli: 1000 },
        ]
    );
    assert_eq!(store.arrows_in_of(20), Some(2));
    assert_eq!(destroyed, vec![11, 10]);
}

#[test]
fn counter_at_the_machine_limit_stays_put() {
    let mut store = Store::new();
    store.set_owner(10, Owner::new(7));
    store.set_arrows_in(20, u64::MAX);
    let mut queue = EventQueue::new();
    let mut bus = EventBus::new();
    queue.push(ProjectileEntityEvent { projectile: 10, client: 20 });

    BowModule::arrow_entity_hit(&mut store, &mut queue, &mut bus);

    assert_eq!(store.arrows_in_of(20), Some(u64::MAX));
    assert_eq!(bus.entries.len(), 1);
}

#[test]
fn owner_relation_survives_unrelated_hits() {
    let mut store = Store::new();
    store.set_owner(10, Owner::new(7));
    store.set_owner(12, Owner::new(9));
    let mut queue = EventQueue::new();
    let mut bus = EventBus::new();
    queue.push(ProjectileEntityEvent { projectile: 10, client: 20 });

    BowModule::arrow_entity_hit(&mut store, &mut queue, &mut bus);

    assert_eq!(store.get_owner(10), None);
    assert_eq!(store.get_owner(12), Some(9));
}
