//! The items each class of new character starts with.
use std::collections::HashMap;
use vstd::prelude::*;

verus! {

broadcast use vstd::std_specs::hash::group_hash_axioms;

/// An item given to a new character.
#[derive(Debug, Clone, Copy, PartialEq, Eq, Structural)]
pub struct BeginnerItem {
    pub item_id: i32,
    pub count: i32,
    pub enchant: i32,
}

/// Starting items keyed by class id.
pub struct BeginnerItemTable {
    pub class_items: HashMap<i32, Vec<BeginnerItem>>,
}

impl BeginnerItemTable {
    /// The built-in table: knights (class 1) start with a long sword (40001)
    /// and ten red potions (40010); no other class has starting items.
    pub fn new() -> (t: Self)
        ensures
            t.class_items@.dom() == set![1i32],
            t.class_items@[1]@ == seq![
                BeginnerItem { item_id: 40001, count: 1, enchant: 0 },
                BeginnerItem { item_id: 40010, count: 10, enchant: 0 },
            ],
    {
        let mut class_items: HashMap<i32, Vec<BeginnerItem>> = HashMap::new();
        let mut knight: Vec<BeginnerItem> = Vec::new();
        knight.push(BeginnerItem { item_id: 40001, count: 1, enchant: 0 });
        knight.push(BeginnerItem { item_id: 40010, count: 10, enchant: 0 });
        class_items.insert(1, knight);
        let t = BeginnerItemTable { class_items };
        assert(t.class_items@.dom() =~= set![1i32]);
        assert(t.class_items@[1]@ =~= seq![
            BeginnerItem { item_id: 40001, count: 1, enchant: 0 },
            BeginnerItem { item_id: 40010, count: 10, enchant: 0 },
        ]);
        t
    }

    /// The starting items of class `class_id`, if it has any.
    pub fn get_items_for_class(&self, class_id: i32) -> (r: Option<&Vec<BeginnerItem>>)
        ensures
            match r {
                Some(v) => self.class_items@.contains_key(class_id) && *v == self.class_items@[class_id],
                None => !self.class_items@.contains_key(class_id),
            },
    {
        self.class_items.get(&class_id)
    }
}

} // verus!
