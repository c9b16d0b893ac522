//! Items: templates, items in the world and inventories.
use vstd::prelude::*;

verus! {

/// What every copy of an item has in common.
#[derive(Debug)]
pub struct ItemTemplate {
    pub item_id: i32,
    pub name: String,
    pub ground_gfx: i32,
    pub weight: i32,
    pub stackable: bool,
}

impl Default for ItemTemplate {
    /// A template with every number zero, an empty name, not stackable.
    fn default() -> (t: Self)
        ensures
            t.item_id == 0,
            t.name@ == Seq::<char>::empty(),
            t.ground_gfx == 0,
            t.weight == 0,
            !t.stackable,
    {
        ItemTemplate { item_id: 0, name: String::new(), ground_gfx: 0, weight: 0, stackable: false }
    }
}

impl Clone for ItemTemplate {
    fn clone(&self) -> (t: Self)
        ensures
            t == *self,
    {
        ItemTemplate {
            item_id: self.item_id,
            name: self.name.clone(),
            ground_gfx: self.ground_gfx,
            weight: self.weight,
            stackable: self.stackable,
        }
    }
}

/// One item in the world: on the ground or in an inventory.
#[derive(Debug, Clone, Copy, PartialEq, Eq, Structural)]
pub struct OnlineItem {
    pub object_id: i32,
    pub item_id: i32,
    pub count: i32,
    pub x: i32,
    pub y: i32,
    pub map_id: i16,
    pub is_equipped: bool,
}

/// Another name for an item in the world.
pub type ItemInstance = OnlineItem;

impl Default for OnlineItem {
    /// An item with every field zero and not equipped.
    fn default() -> (i: Self)
        ensures
            i == (OnlineItem {
                object_id: 0,
                item_id: 0,
                count: 0,
                x: 0,
                y: 0,
                map_id: 0,
                is_equipped: false,
            }),
    {
        OnlineItem { object_id: 0, item_id: 0, count: 0, x: 0, y: 0, map_id: 0, is_equipped: false }
    }
}

impl OnlineItem {
    /// One unequipped copy of `item_id`, at the origin of map 0.
    pub fn new(object_id: i32, item_id: i32) -> (i: Self)
        ensures
            i == (OnlineItem {
                object_id,
                item_id,
                count: 1,
                x: 0,
                y: 0,
                map_id: 0,
                is_equipped: false,
            }),
    {
        Self { object_id, item_id, count: 1, x: 0, y: 0, map_id: 0, is_equipped: false }
    }
}

/// The items a player carries, with the limits on them.
#[derive(Debug, PartialEq)]
pub struct Inventory {
    pub items: Vec<OnlineItem>,
    pub max_size: usize,
    pub max_weight: i32,
}

impl Inventory {
    /// An empty inventory of 180 slots and 300000 weight.
    pub fn new() -> (inv: Self)
        ensures
            inv.items@ == Seq::<OnlineItem>::empty(),
            inv.max_size == 180,
            inv.max_weight == 300_000,
    {
        Self { items: Vec::new(), max_size: 180, max_weight: 300_000 }
    }
}

impl Inventory {
    /// `self` and `other` hold the same items, in the same order, and the same limits.
    pub open spec fn same_data(self, other: Self) -> bool {
        &&& self.items@ == other.items@
        &&& self.max_size == other.max_size
        &&& self.max_weight == other.max_weight
    }
}

impl Clone for Inventory {
    fn clone(&self) -> (inv: Self)
        ensures
            inv.same_data(*self),
    {
        let mut items: Vec<OnlineItem> = Vec::new();
        let n = self.items.len();
        let mut i: usize = 0;
        while i < n
            invariant
                i <= n,
                n == self.items@.len(),
                items@ == self.items@.take(i as int),
            decreases n - i,
        {
            items.push(self.items[i]);
            i = i + 1;
            assert(items@ =~= self.items@.take(i as int));
        }
        assert(items@ =~= self.items@);
        Inventory { items, max_size: self.max_size, max_weight: self.max_weight }
    }
}

} // verus!
