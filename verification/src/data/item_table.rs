//! Item templates as the `item` table lists them.
use crate::data::item::templates_of;
use crate::models::item::ItemTemplate;
use std::collections::HashMap;
use vstd::prelude::*;

verus! {

/// Item templates keyed by item id.
pub struct ItemTable {
    pub templates: HashMap<i32, ItemTemplate>,
}

impl ItemTable {
    /// The table of the templates `items`, each under its item id; where two
    /// share an id, the later one stands.
    pub fn from_templates(items: Vec<ItemTemplate>) -> (t: Self)
        ensures
            t.templates@ == templates_of(items@),
    {
        let table = crate::data::item::ItemTable::from_templates(items);
        ItemTable { templates: table.templates }
    }
}

} // verus!
