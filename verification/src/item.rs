//! Item stacks and the player inventory, with the ammo bookkeeping of the
//! release pipeline: find the first slot holding an arrow and take one from
//! it.

use vstd::prelude::*;

verus! {

/// The kinds of item this module distinguishes: the bow that fires, the
/// arrows it consumes, and everything else.
#[derive(Clone, Copy, PartialEq, Eq, Structural, Debug)]
pub enum ItemKind {
    Bow,
    Arrow,
    Other,
}

/// A stack of identical items. A stack always holds at least one item; an
/// empty slot is the explicit [`Slot::Empty`] sentinel, never a stack of
/// count zero. Attached metadata travels with the stack as an opaque token.
#[derive(Clone, Copy, PartialEq, Eq, Debug)]
pub struct ItemStack {
    pub kind: ItemKind,
    pub count: u32,
    pub meta: Option<u64>,
}

impl ItemStack {
    pub fn new(kind: ItemKind, count: u32, meta: Option<u64>) -> (s: ItemStack)
        requires
            count >= 1,
        ensures
            s.kind == kind && s.count == count && s.meta == meta,
    {
        ItemStack { kind, count, meta }
    }
}

/// One inventory slot: either empty or holding a single stack.
#[derive(Clone, Copy, PartialEq, Eq, Debug)]
pub enum Slot {
    Empty,
    Stack(ItemStack),
}

/// An ordered set of item slots. Slot order is the order ammo is searched in.
#[derive(Clone, Debug)]
pub struct Inventory {
    pub slots: Vec<Slot>,
}

impl View for Inventory {
    type V = Seq<Slot>;

    open spec fn view(&self) -> Seq<Slot> {
        self.slots@
    }
}

/// A slot that can supply ammo: a stack of arrows with at least one arrow.
pub open spec fn is_arrow_slot(s: Slot) -> bool {
    match s {
        Slot::Stack(st) => st.kind == ItemKind::Arrow && st.count >= 1,
        Slot::Empty => false,
    }
}

/// The slot after one item is taken from it: the empty sentinel when the last
/// item goes, otherwise the same stack with one item fewer and the same
/// metadata.
pub open spec fn decremented_slot(s: Slot) -> Slot {
    match s {
        Slot::Stack(st) => if st.count <= 1 {
            Slot::Empty
        } else {
            Slot::Stack(ItemStack { kind: st.kind, count: (st.count - 1) as u32, meta: st.meta })
        },
        Slot::Empty => Slot::Empty,
    }
}

/// Index of the first slot that can supply an arrow, if any.
pub open spec fn first_arrow_slot(inv: Seq<Slot>) -> Option<int>
    decreases inv.len(),
{
    if inv.len() == 0 {
        None
    } else if is_arrow_slot(inv[0]) {
        Some(0int)
    } else {
        match first_arrow_slot(inv.drop_first()) {
            Some(i) => Some(i + 1),
            None => None,
        }
    }
}

/// The inventory after a release consumed its ammo: the first arrow slot is
/// decremented, everything else is untouched; with no arrow slot, nothing
/// changes.
pub open spec fn after_consume(inv: Seq<Slot>) -> Seq<Slot> {
    match first_arrow_slot(inv) {
        Some(i) => inv.update(i, decremented_slot(inv[i])),
        None => inv,
    }
}

/// How many arrows one slot holds.
pub open spec fn slot_arrows(s: Slot) -> int {
    match s {
        Slot::Stack(st) => if st.kind == ItemKind::Arrow {
            st.count as int
        } else {
            0
        },
        Slot::Empty => 0,
    }
}

/// The total number of arrows in an inventory.
pub open spec fn arrow_count(inv: Seq<Slot>) -> int
    decreases inv.len(),
{
    if inv.len() == 0 {
        0
    } else {
        slot_arrows(inv[0]) + arrow_count(inv.drop_first())
    }
}

proof fn lemma_arrow_count_update(inv: Seq<Slot>, i: int, s2: Slot)
    requires
        0 <= i < inv.len(),
    ensures
        arrow_count(inv.update(i, s2)) == arrow_count(inv) - slot_arrows(inv[i]) + slot_arrows(s2),
    decreases inv.len(),
{
    let upd = inv.update(i, s2);
    if i == 0 {
        assert(upd[0] == s2);
        assert(upd.drop_first() =~= inv.drop_first());
    } else {
        assert(upd[0] == inv[0]);
        assert(upd.drop_first() =~= inv.drop_first().update(i - 1, s2));
        lemma_arrow_count_update(inv.drop_first(), i - 1, s2);
    }
}

/// A successful consumption takes exactly one arrow out of the inventory; a
/// consumption that found no ammo takes none.
pub proof fn lemma_consume_takes_one_arrow(inv: Seq<Slot>)
    ensures
        first_arrow_slot(inv) is Some ==> arrow_count(after_consume(inv)) == arrow_count(inv) - 1,
        first_arrow_slot(inv) is None ==> after_consume(inv) == inv,
{
    if first_arrow_slot(inv) is Some {
        lemma_first_arrow_slot_props(inv);
        let i = first_arrow_slot(inv).unwrap();
        lemma_arrow_count_update(inv, i, decremented_slot(inv[i]));
    }
}

pub proof fn lemma_first_arrow_slot_at(inv: Seq<Slot>, i: int)
    requires
        0 <= i < inv.len(),
        is_arrow_slot(inv[i]),
        forall|j: int| 0 <= j < i ==> !is_arrow_slot(inv[j]),
    ensures
        first_arrow_slot(inv) == Some(i),
    decreases i,
{
    if i == 0 {
    } else {
        assert(!is_arrow_slot(inv[0]));
        let rest = inv.drop_first();
        assert(rest[i - 1] == inv[i]);
        assert forall|j: int| 0 <= j < i - 1 implies !is_arrow_slot(rest[j]) by {
            assert(rest[j] == inv[j + 1]);
        }
        lemma_first_arrow_slot_at(rest, i - 1);
    }
}

pub proof fn lemma_first_arrow_slot_none(inv: Seq<Slot>)
    requires
        forall|j: int| 0 <= j < inv.len() ==> !is_arrow_slot(inv[j]),
    ensures
        first_arrow_slot(inv) is None,
    decreases inv.len(),
{
    if inv.len() == 0 {
    } else {
        let rest = inv.drop_first();
        assert forall|j: int| 0 <= j < rest.len() implies !is_arrow_slot(rest[j]) by {
            assert(rest[j] == inv[j + 1]);
        }
        lemma_first_arrow_slot_none(rest);
    }
}

/// What the found index means: it points at an arrow slot and nothing before
/// it is one; when no index is found, no slot is an arrow slot.
pub proof fn lemma_first_arrow_slot_props(inv: Seq<Slot>)
    ensures
        (match first_arrow_slot(inv) {
            Some(i) => 0 <= i < inv.len() && is_arrow_slot(inv[i]) && (forall|j: int|
                0 <= j < i ==> !is_arrow_slot(inv[j])),
            None => forall|j: int| 0 <= j < inv.len() ==> !is_arrow_slot(inv[j]),
        }),
    decreases inv.len(),
{
    if inv.len() == 0 {
    } else if is_arrow_slot(inv[0]) {
    } else {
        let rest = inv.drop_first();
        lemma_first_arrow_slot_props(rest);
        match first_arrow_slot(rest) {
            Some(i) => {
                assert(inv[i + 1] == rest[i]);
                assert forall|j: int| 0 <= j < i + 1 implies !is_arrow_slot(inv[j]) by {
                    if j > 0 {
                        assert(inv[j] == rest[j - 1]);
                    }
                }
            },
            None => {
                assert forall|j: int| 0 <= j < inv.len() implies !is_arrow_slot(inv[j]) by {
                    if j > 0 {
                        assert(inv[j] == rest[j - 1]);
                    }
                }
            },
        }
    }
}

/// Taking one arrow from a slot of count one empties it; from a larger stack
/// it takes exactly one and keeps the kind and the metadata; every other slot
/// stays as it was.
pub proof fn lemma_consume_found_slot(inv: Seq<Slot>)
    requires
        first_arrow_slot(inv) is Some,
    ensures
        after_consume(inv).len() == inv.len(),
        forall|j: int|
            0 <= j < inv.len() && j != first_arrow_slot(inv).unwrap() ==> after_consume(inv)[j]
                == inv[j],
        inv[first_arrow_slot(inv).unwrap()] is Stack,
        (inv[first_arrow_slot(inv).unwrap()]->Stack_0.count == 1 ==> after_consume(
            inv,
        )[first_arrow_slot(inv).unwrap()] == Slot::Empty),
        (inv[first_arrow_slot(inv).unwrap()]->Stack_0.count > 1 ==> after_consume(
            inv,
        )[first_arrow_slot(inv).unwrap()] == Slot::Stack(
            ItemStack {
                kind: inv[first_arrow_slot(inv).unwrap()]->Stack_0.kind,
                count: (inv[first_arrow_slot(inv).unwrap()]->Stack_0.count - 1) as u32,
                meta: inv[first_arrow_slot(inv).unwrap()]->Stack_0.meta,
            },
        )),
{
    lemma_first_arrow_slot_props(inv);
}

impl Inventory {
    /// Ammo consumer: scan the slots in order for the first stack of arrows
    /// and take one arrow from it. Reports whether ammo was found; with no
    /// qualifying slot the inventory is left untouched.
    pub fn consume_one_arrow(&mut self) -> (found: bool)
        ensures
            final(self)@ == after_consume(old(self)@),
            found == (first_arrow_slot(old(self)@) is Some),
    {
        let n = self.slots.len();
        let mut i: usize = 0;
        while i < n
            invariant
                i <= n,
                n == self.slots.len(),
                self@ == old(self)@,
                forall|j: int| 0 <= j < i ==> !is_arrow_slot(old(self)@[j]),
            decreases n - i,
        {
            let s = self.slots[i];
            match s {
                Slot::Stack(st) => {
                    if st.kind == ItemKind::Arrow && st.count >= 1 {
                        let replacement = if st.count == 1 {
                            Slot::Empty
                        } else {
                            Slot::Stack(
                                ItemStack { kind: st.kind, count: st.count - 1, meta: st.meta },
                            )
                        };
                        self.slots.set(i, replacement);
                        proof {
                            lemma_first_arrow_slot_at(old(self)@, i as int);
                        }
                        return true;
                    }
                },
                Slot::Empty => {},
            }
            i = i + 1;
        }
        proof {
            lemma_first_arrow_slot_none(old(self)@);
        }
        false
    }
}

} // verus!
