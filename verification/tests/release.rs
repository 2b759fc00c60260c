use bow_core::bow::BowModule;
use bow_core::events::EventQueue;
use bow_core::events::ReleaseUseItem;
use bow_core::item::Inventory;
use bow_core::item::ItemKind;
use bow_core::item::ItemStack;
use bow_core::item::Slot;
use bow_core::motion::Vec3;
use bow_core::store::Player;
use bow_core::store::Store;

fn archer(slots: Vec<Slot>, charge: Option<u32>) -> Player {
    Player {
        inventory: Inventory { slots },
        position: Vec3::new(0, 0, 0),
        yaw_millideg: 0,
        pitch_millideg: 0,
        direction: Vec3::new(0, 0, 1000),
        charge,
    }
}

fn arrows(count: u32) -> Slot {
    Slot::Stack(ItemStack { kind: ItemKind::Arrow, count, meta: None })
}

#[test]
fn release_without_ammo_is_a_no_op() {
    let mut store = Store::new();
    let slots = vec![Slot::Stack(ItemStack { kind: ItemKind::Bow, count: 1, meta: None })];
    assert!(store.insert_player(1, archer(slots.clone(), Some(800))));
    let mut queue = EventQueue::new();
    queue.push(ReleaseUseItem { from: 1, item: ItemKind::Bow });
    let spawns = BowModule::handle_bow_release(&mut store, &mut queue);
    assert!(spawns.is_empty());
    assert_eq!(queue.len(), 0);
    let p = store.get_player(1).unwrap();
    assert_eq!(p.inventory.slots, slots);
    // nothing consumed the charge either: the pipeline aborted before it
    assert_eq!(store.charge_of(1), Some(800));
}

#[test]
fn release_of_last_arrow_empties_the_slot() {
    let mut store = Store::new();
    assert!(store.insert_player(1, archer(vec![arrows(1)], None)));
    let mut queue = EventQueue::new();
    queue.push(ReleaseUseItem { from: 1, item: ItemKind::Bow });
    let spawns = BowModule::handle_bow_release(&mut store, &mut queue);
    assert_eq!(spawns.len(), 1);
    let p = store.get_player(1).unwrap();
    assert_eq!(p.inventory.slots, vec![Slot::Empty]);
}

#[test]
fn release_decrements_and_keeps_metadata() {
    let mut store = Store::new();
    let slot = Slot::Stack(ItemStack { kind: ItemKind::Arrow, count: 5, meta: Some(42) });
    assert!(store.insert_player(1, archer(vec![slot], None)));
    let mut queue = EventQueue::new();
    queue.push(ReleaseUseItem { from: 1, item: ItemKind::Bow });
    let spawns = BowModule::handle_bow_release(&mut store, &mut queue);
    assert_eq!(spawns.len(), 1);
    let p = store.get_player(1).unwrap();
    assert_eq!(
        p.inventory.slots,
        vec![Slot::Stack(ItemStack { kind: ItemKind::Arrow, count: 4, meta: Some(42) })]
    );
}

#[test]
fn charge_state_is_consumed_exactly_once() {
    let mut store = Store::new();
    assert!(store.insert_player(1, archer(vec![arrows(2)], Some(1000))));
    let mut queue = EventQueue::new();
    queue.push(ReleaseUseItem { from: 1, item: ItemKind::Bow });
    let spawns = BowModule::handle_bow_release(&mut store, &mut queue);
    assert_eq!(spawns.len(), 1);
    // full charge: 3.0 units per tick straight ahead
    assert_eq!(spawns[0].velocity_micro, Vec3::new(0, 0, 3000000));
    assert_eq!(store.charge_of(1), None);

    // the next release finds no charge state and treats that as charge zero
    queue.push(ReleaseUseItem { from: 1, item: ItemKind::Bow });
    let spawns = BowModule::handle_bow_release(&mut store, &mut queue);
    assert_eq!(spawns.len(), 1);
    assert_eq!(spawns[0].velocity_micro, Vec3::new(0, 0, 0));
}

#[test]
fn non_bow_release_is_ignored() {
    let mut store = Store::new();
    assert!(store.insert_player(1, archer(vec![arrows(3)], Some(1000))));
    let mut queue = EventQueue::new();
    queue.push(ReleaseUseItem { from: 1, item: ItemKind::Other });
    let spawns = BowModule::handle_bow_release(&mut store, &mut queue);
    assert!(spawns.is_empty());
    let p = store.get_player(1).unwrap();
    assert_eq!(p.inventory.slots, vec![arrows(3)]);
}

#[test]
fn release_from_unknown_player_is_ignored() {
    let mut store = Store::new();
    let mut queue = EventQueue::new();
    queue.push(ReleaseUseItem { from: 99, item: ItemKind::Bow });
    let spawns = BowModule::handle_bow_release(&mut store, &mut queue);
    assert!(spawns.is_empty());
    assert_eq!(queue.len(), 0);
}

#[test]
fn half_charged_release_scenario() {
    // player at the origin, level view straight ahead, charge 0.5,
    // three arrows in the first slot
    let mut store = Store::new();
    assert!(store.insert_player(1, archer(vec![arrows(3)], Some(500))));
    let mut queue = EventQueue::new();
    queue.push(ReleaseUseItem { from: 1, item: ItemKind::Bow });
    let spawns = BowModule::handle_bow_release(&mut store, &mut queue);

    assert_eq!(spawns.len(), 1);
    let s = &spawns[0];
    // spawn point: eye height 1.62 up, 0.5 forward along the view direction
    assert_eq!(s.position_micro, Vec3::new(0, 1620000, 500000));
    // speed 0.5 × 3.0 = 1.5 units per tick along the view direction
    assert_eq!(s.velocity_micro, Vec3::new(0, 0, 1500000));
    assert_eq!(s.yaw_millideg, 0);
    assert_eq!(s.pitch_millideg, 0);
    assert_eq!(s.owner, 1);

    let p = store.get_player(1).unwrap();
    assert_eq!(p.inventory.slots, vec![arrows(2)]);
    assert_eq!(store.charge_of(1), None);
    assert_eq!(queue.len(), 0);
}

#[test]
fn releases_are_processed_in_enqueue_order() {
    let mut store = Store::new();
    assert!(store.insert_player(1, archer(vec![arrows(1)], Some(1000))));
    assert!(store.insert_player(2, archer(vec![arrows(1)], Some(500))));
    let mut queue = EventQueue::new();
    queue.push(ReleaseUseItem { from: 2, item: ItemKind::Bow });
    queue.push(ReleaseUseItem { from: 1, item: ItemKind::Bow });
    let spawns = BowModule::handle_bow_release(&mut store, &mut queue);
    assert_eq!(spawns.len(), 2);
    assert_eq!(spawns[0].owner, 2);
    assert_eq!(spawns[1].owner, 1);
}
