use vstd::prelude::*;

verus! {

/// How much of one kind of resource a holder has, and how much it can hold.
#[derive(Default, Clone, Copy, Debug, PartialEq, Eq, Structural, Hash, PartialOrd, Ord)]
pub struct InventoryStorage {
    pub current: usize,
    pub max: usize,
}

/// The kinds of resources an inventory keeps.
#[derive(Clone, Copy, Debug, PartialEq, Eq, Structural, Hash, PartialOrd, Ord)]
pub enum InventoryType {
    People,
}

/// One storage for each kind of resource.
#[derive(Clone, Copy, Debug, PartialEq, Eq)]
pub struct Inventory {
    inventory: [InventoryStorage; 1],
}

impl InventoryType {
    /// Position of the kind among all kinds.
    pub open spec fn index(self) -> int {
        match self {
            InventoryType::People => 0,
        }
    }
}

impl Inventory {
    /// The storage kept for one kind of resource.
    pub closed spec fn storage(&self, kind: InventoryType) -> InventoryStorage {
        self.inventory@[kind.index()]
    }

    /// An inventory holding nothing, with no room for anything.
    pub fn new() -> (r: Inventory)
        ensures
            r.storage(InventoryType::People) == (InventoryStorage { current: 0, max: 0 }),
    {
        Inventory { inventory: [InventoryStorage { current: 0, max: 0 }] }
    }

    /// The storage kept for one kind of resource.
    pub fn get(&self, kind: InventoryType) -> (r: InventoryStorage)
        ensures
            r == self.storage(kind),
    {
        match kind {
            InventoryType::People => self.inventory[0],
        }
    }

    /// Replaces the storage kept for one kind of resource.
    pub fn set(&mut self, kind: InventoryType, storage: InventoryStorage)
        ensures
            final(self).storage(kind) == storage,
            forall|other: InventoryType| other != kind ==> #[trigger] final(self).storage(other) == old(self).storage(other),
    {
        match kind {
            InventoryType::People => {
                self.inventory[0] = storage;
            },
        }
    }
}

} // verus!
