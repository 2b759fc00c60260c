//! The typed events the two pipelines consume and produce, the per-tick FIFO
//! mailbox they are drained from, and the outgoing bus attack orders are
//! pushed onto.

use vstd::prelude::*;
use crate::EntityId;
use crate::item::ItemKind;

verus! {

/// Intent raised upstream when a player lets go of a held item.
#[derive(Clone, Copy, PartialEq, Eq, Debug)]
pub struct ReleaseUseItem {
    pub from: EntityId,
    pub item: ItemKind,
}

/// Notification that an in-flight projectile touched another entity.
#[derive(Clone, Copy, PartialEq, Eq, Debug)]
pub struct ProjectileEntityEvent {
    pub projectile: EntityId,
    pub client: EntityId,
}

/// Outgoing damage order for downstream consumers; damage in milli-units
/// (1000 is one point of damage).
#[derive(Clone, Copy, PartialEq, Eq, Debug)]
pub struct AttackEntity {
    pub origin: EntityId,
    pub target: EntityId,
    pub damage_milli: u32,
}

/// Damage dealt by one arrow hit: 1 point, in milli.
pub const ARROW_DAMAGE_MILLI: u32 = 1000;

/// A per-tick FIFO mailbox of typed events. Upstream pushes, a pipeline
/// drains the whole backlog once per pass and leaves the mailbox empty.
pub struct EventQueue<T> {
    events: Vec<T>,
}

impl<T> View for EventQueue<T> {
    type V = Seq<T>;

    closed spec fn view(&self) -> Seq<T> {
        self.events@
    }
}

impl<T: Copy> EventQueue<T> {
    pub fn new() -> (q: Self)
        ensures
            q@ == Seq::<T>::empty(),
    {
        EventQueue { events: Vec::new() }
    }

    pub fn push(&mut self, ev: T)
        ensures
            final(self)@ == old(self)@.push(ev),
    {
        self.events.push(ev);
    }

    pub fn len(&self) -> (n: usize)
        ensures
            n == self@.len(),
    {
        self.events.len()
    }

    /// Hand out every pending event in enqueue order and leave the mailbox
    /// empty.
    pub fn drain(&mut self) -> (out: Vec<T>)
        ensures
            out@ == old(self)@,
            final(self)@ == Seq::<T>::empty(),
    {
        let mut out: Vec<T> = Vec::new();
        let n = self.events.len();
        for i in 0..n
            invariant
                n == self.events.len(),
                self@ == old(self)@,
                out@ == self@.take(i as int),
        {
            out.push(self.events[i]);
        }
        proof {
            assert(out@ =~= old(self)@);
        }
        self.events = Vec::new();
        out
    }
}

/// The outgoing event bus: attack orders handed to unrelated downstream
/// systems. Push is fire-and-forget; nothing in this module consumes it.
pub struct EventBus {
    pub entries: Vec<AttackEntity>,
}

impl View for EventBus {
    type V = Seq<AttackEntity>;

    open spec fn view(&self) -> Seq<AttackEntity> {
        self.entries@
    }
}

impl EventBus {
    pub fn new() -> (b: Self)
        ensures
            b@ == Seq::<AttackEntity>::empty(),
    {
        EventBus { entries: Vec::new() }
    }

    pub fn push(&mut self, ev: AttackEntity)
        ensures
            final(self)@ == old(self)@.push(ev),
    {
        self.entries.push(ev);
    }
}

} // verus!
