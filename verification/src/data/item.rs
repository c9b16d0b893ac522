//! Item templates, and what happens to the world when a monster dies.
use crate::data::droplist::{counts_ordered, is_drop_outcome, lemma_outcome_len, DropTable};
use crate::models::item::{ItemTemplate, OnlineItem};
use crate::models::npc::OnlineNpc;
use crate::network::shared_state::{ground_item, issued_id, Broadcast, WorldState};
use crate::protocol::opcodes::S_OPCODE_DROPITEM;
use crate::protocol::packet::{c8, d32, h16, pad4};
use crate::protocol::server::combat::{build_drop_item, drop_item_packet};
use std::collections::HashMap;
use vstd::prelude::*;

verus! {

broadcast use vstd::std_specs::hash::group_hash_axioms;

/// The templates `items` keyed by item id, the later of two with one id
/// standing.
pub open spec fn templates_of(items: Seq<ItemTemplate>) -> Map<i32, ItemTemplate>
    decreases items.len(),
{
    if items.len() == 0 {
        Map::empty()
    } else {
        templates_of(items.drop_last()).insert(items.last().item_id, items.last())
    }
}

/// Item templates keyed by item id.
pub struct ItemTable {
    pub templates: HashMap<i32, ItemTemplate>,
}

impl ItemTable {
    /// A table without templates.
    pub fn new() -> (t: Self)
        ensures
            t.templates@ == Map::<i32, ItemTemplate>::empty(),
    {
        Self { templates: HashMap::new() }
    }

    /// The table of the templates `items`, each under its item id; where two
    /// share an id, the later one stands.
    pub fn from_templates(items: Vec<ItemTemplate>) -> (t: Self)
        ensures
            t.templates@ == templates_of(items@),
    {
        let mut t = ItemTable::new();
        let n = items.len();
        let mut i: usize = 0;
        while i < n
            invariant
                i <= n,
                n == items@.len(),
                t.templates@ == templates_of(items@.take(i as int)),
            decreases n - i,
        {
            let item = items[i].clone();
            proof {
                assert(items@.take(i + 1).drop_last() =~= items@.take(i as int));
                assert(items@.take(i + 1).last() == items@[i as int]);
            }
            t.templates.insert(item.item_id, item);
            i = i + 1;
        }
        assert(items@.take(n as int) =~= items@);
        t
    }

    /// The template of item `item_id`, if there is one.
    pub fn get(&self, item_id: i32) -> (r: Option<&ItemTemplate>)
        ensures
            match r {
                Some(t) => self.templates@.contains_key(item_id) && *t == self.templates@[item_id],
                None => !self.templates@.contains_key(item_id),
            },
    {
        self.templates.get(&item_id)
    }
}

/// The drops among `drops` whose item has a template in `templates`.
pub open spec fn known_drops(templates: Map<i32, ItemTemplate>, drops: Seq<(i32, i32)>) -> Seq<(i32, i32)> {
    drops.filter(|d: (i32, i32)| templates.contains_key(d.0))
}

/// The ground items after placing the drops `kept` at `(x, y)` on `map_id`,
/// one after another, the first under the id that follows counter `start`.
pub open spec fn items_after(
    items: Map<i32, OnlineItem>,
    kept: Seq<(i32, i32)>,
    start: u32,
    x: i32,
    y: i32,
    map_id: i16,
) -> Map<i32, OnlineItem>
    decreases kept.len(),
{
    if kept.len() == 0 {
        items
    } else {
        let id = issued_id((start + kept.len()) as u32);
        items_after(items, kept.drop_last(), start, x, y, map_id).insert(
            id,
            ground_item(id, kept.last().0, kept.last().1, x, y, map_id),
        )
    }
}

/// The world `after` and the broadcasts `sent` are what placing the drops
/// `drops` of the dead NPC `npc` on the ground of `before` gives: each drop
/// whose item has a template becomes a ground item at the NPC's cell under
/// the next id, and is announced to the players near that cell.
pub open spec fn scattered(
    before: WorldState,
    after: WorldState,
    templates: Map<i32, ItemTemplate>,
    npc: OnlineNpc,
    drops: Seq<(i32, i32)>,
    sent: Seq<Broadcast>,
) -> bool {
    let kept = known_drops(templates, drops);
    &&& after.next_npc_id == before.next_npc_id + kept.len()
    &&& after.items@ == items_after(before.items@, kept, before.next_npc_id, npc.x, npc.y, npc.map_id)
    &&& after.players@ == before.players@
    &&& after.npcs@ == before.npcs@
    &&& after.npc_templates@ == before.npc_templates@
    &&& after.next_item_id == before.next_item_id
    &&& sent.len() == kept.len()
    &&& forall|j: int|
        0 <= j < kept.len() ==> {
            &&& (#[trigger] sent[j]).packet@ == drop_item_packet(
                issued_id((before.next_npc_id + j + 1) as u32),
                npc.x,
                npc.y,
                templates[kept[j].0].ground_gfx,
                kept[j].1,
            )
            &&& sent[j].recipients@.no_duplicates()
            &&& sent[j].recipients@.to_set() == before.nearby_keys(
                npc.map_id as int,
                npc.x as int,
                npc.y as int,
                18,
            )
        }
}

/// Placing drops leaves every item that was there, except one whose id is
/// reused, and every item it places lies at `(x, y)` on `map_id`.
proof fn lemma_placed_at_cell(
    items: Map<i32, OnlineItem>,
    kept: Seq<(i32, i32)>,
    start: u32,
    x: i32,
    y: i32,
    map_id: i16,
)
    ensures
        forall|id: i32|
            #[trigger] items_after(items, kept, start, x, y, map_id).contains_key(id) ==> {
                ||| items.contains_key(id) && items_after(items, kept, start, x, y, map_id)[id]
                    == items[id]
                ||| {
                    &&& items_after(items, kept, start, x, y, map_id)[id].x == x
                    &&& items_after(items, kept, start, x, y, map_id)[id].y == y
                    &&& items_after(items, kept, start, x, y, map_id)[id].map_id == map_id
                }
            },
    decreases kept.len(),
{
    if kept.len() > 0 {
        let prev = items_after(items, kept.drop_last(), start, x, y, map_id);
        let id_new = issued_id((start + kept.len()) as u32);
        let g = ground_item(id_new, kept.last().0, kept.last().1, x, y, map_id);
        lemma_placed_at_cell(items, kept.drop_last(), start, x, y, map_id);
        assert(items_after(items, kept, start, x, y, map_id) == prev.insert(id_new, g));
        assert(g.x == x && g.y == y && g.map_id == map_id);
        assert forall|id: i32| #[trigger] prev.insert(id_new, g).contains_key(id) implies {
            ||| items.contains_key(id) && prev.insert(id_new, g)[id] == items[id]
            ||| {
                &&& prev.insert(id_new, g)[id].x == x
                &&& prev.insert(id_new, g)[id].y == y
                &&& prev.insert(id_new, g)[id].map_id == map_id
            }
        } by {
            if id != id_new {
                assert(prev.contains_key(id));
            }
        }
    }
}

/// Every item on the ground after a death either was there before or lies
/// at the dead NPC's own cell: its `x` is the NPC's `x`, its `y` the NPC's
/// `y` and its map the NPC's map; and every drop packet announces that same
/// cell (bytes 1 and 2 the NPC's `x`, bytes 3 and 4 its `y`, little-endian).
pub proof fn lemma_drops_land_at_npc_cell(
    before: WorldState,
    after: WorldState,
    templates: Map<i32, ItemTemplate>,
    npc: OnlineNpc,
    drops: Seq<(i32, i32)>,
    sent: Seq<Broadcast>,
)
    requires
        scattered(before, after, templates, npc, drops, sent),
    ensures
        forall|id: i32|
            #[trigger] after.items@.contains_key(id) ==> {
                ||| before.items@.contains_key(id) && after.items@[id] == before.items@[id]
                ||| {
                    &&& after.items@[id].x == npc.x
                    &&& after.items@[id].y == npc.y
                    &&& after.items@[id].map_id == npc.map_id
                }
            },
        forall|j: int|
            0 <= j < sent.len() ==> {
                &&& (#[trigger] sent[j]).packet@[1] == npc.x as u8
                &&& sent[j].packet@[2] == (npc.x >> 8) as u8
                &&& sent[j].packet@[3] == npc.y as u8
                &&& sent[j].packet@[4] == (npc.y >> 8) as u8
            },
{
    let kept = known_drops(templates, drops);
    lemma_placed_at_cell(before.items@, kept, before.next_npc_id, npc.x, npc.y, npc.map_id);
    assert forall|j: int| 0 <= j < sent.len() implies {
        &&& (#[trigger] sent[j]).packet@[1] == npc.x as u8
        &&& sent[j].packet@[2] == (npc.x >> 8) as u8
        &&& sent[j].packet@[3] == npc.y as u8
        &&& sent[j].packet@[4] == (npc.y >> 8) as u8
    } by {
        let body = seq![S_OPCODE_DROPITEM] + h16(npc.x) + h16(npc.y) + d32(
            issued_id((before.next_npc_id + j + 1) as u32),
        ) + h16(templates[kept[j].0].ground_gfx) + c8(0) + c8(0) + d32(kept[j].1) + c8(0);
        assert(sent[j].packet@ == pad4(body));
        assert(pad4(body)[1] == body[1] && pad4(body)[2] == body[2] && pad4(body)[3] == body[3]
            && pad4(body)[4] == body[4]);
    }
}

/// Places the drops `drops` of the dead NPC `npc` on the ground and returns
/// the packets that announce them, each with the players it goes to.
pub fn scatter_drops(
    world: &mut WorldState,
    item_table: &ItemTable,
    npc: &OnlineNpc,
    drops: &Vec<(i32, i32)>,
) -> (sent: Vec<Broadcast>)
    requires
        old(world).next_npc_id + drops@.len() < u32::MAX,
        old(world).player_offsets_fit(npc.map_id as int, npc.x as int, npc.y as int, 18),
    ensures
        scattered(*old(world), *final(world), item_table.templates@, *npc, drops@, sent@),
{
    let ghost before = *world;
    let ghost templates = item_table.templates@;
    let ghost pred = |d: (i32, i32)| templates.contains_key(d.0);
    let mut sent: Vec<Broadcast> = Vec::new();
    let n = drops.len();
    let mut i: usize = 0;
    while i < n
        invariant
            i <= n,
            n == drops@.len(),
            templates == item_table.templates@,
            pred == (|d: (i32, i32)| templates.contains_key(d.0)),
            before.next_npc_id + n < u32::MAX,
            before.player_offsets_fit(npc.map_id as int, npc.x as int, npc.y as int, 18),
            scattered(before, *world, templates, *npc, drops@.take(i as int), sent@),
        decreases n - i,
    {
        let (item_id, count) = drops[i];
        let ghost kept_before = known_drops(templates, drops@.take(i as int));
        proof {
            assert(drops@.take(i + 1) =~= drops@.take(i as int).push((item_id, count)));
            drops@.take(i as int).lemma_filter_push((item_id, count), pred);
            assert(kept_before.len() <= i) by {
                drops@.take(i as int).lemma_filter_len(pred);
            }
        }
        if let Some(item_temp) = item_table.get(item_id) {
            let ghost sent_before = sent@;
            let m = npc.map_id;
            assert(((m as u32) as i16) == m) by (bit_vector);
            let obj_id = world.spawn_item_on_ground(item_id, count, npc.x, npc.y, npc.map_id);
            let packet = build_drop_item(obj_id, npc.x, npc.y, item_temp.ground_gfx, count);
            let recipients = world.broadcast_nearby(npc.map_id as u32, npc.x, npc.y);
            sent.push(Broadcast { recipients, packet });
            proof {
                let kept = known_drops(templates, drops@.take(i + 1));
                assert(kept == kept_before.push((item_id, count)));
                assert(kept.drop_last() =~= kept_before);
                assert(world.players@ == before.players@);
                assert(world.nearby_keys(npc.map_id as int, npc.x as int, npc.y as int, 18)
                    == before.nearby_keys(npc.map_id as int, npc.x as int, npc.y as int, 18));
                assert forall|j: int| 0 <= j < kept.len() implies {
                    &&& (#[trigger] sent@[j]).packet@ == drop_item_packet(
                        issued_id((before.next_npc_id + j + 1) as u32),
                        npc.x,
                        npc.y,
                        templates[kept[j].0].ground_gfx,
                        kept[j].1,
                    )
                    &&& sent@[j].recipients@.no_duplicates()
                    &&& sent@[j].recipients@.to_set() == before.nearby_keys(
                        npc.map_id as int,
                        npc.x as int,
                        npc.y as int,
                        18,
                    )
                } by {
                    if j < kept.len() - 1 {
                        assert(kept[j] == kept_before[j]);
                        assert(sent@[j] == sent_before[j]);
                    }
                }
            }
        }
        i = i + 1;
    }
    proof {
        assert(drops@.take(n as int) =~= drops@);
    }
    sent
}

/// Takes the NPC held under `npc_id` out of the world, rolls its drops and
/// places those whose item has a template on the ground at its cell. Returns
/// the packets that announce them, each with the players it goes to; nothing
/// when there is no such NPC.
pub fn process_npc_death(
    world: &mut WorldState,
    drop_table: &DropTable,
    item_table: &ItemTable,
    npc_id: i32,
) -> (sent: Vec<Broadcast>)
    requires
        old(world).npcs@.contains_key(npc_id) ==> {
            let n = old(world).npcs@[npc_id];
            &&& counts_ordered(drop_table.drops_of(n.template.npc_id))
            &&& old(world).next_npc_id + drop_table.drops_of(n.template.npc_id).len() < u32::MAX
            &&& old(world).player_offsets_fit(n.map_id as int, n.x as int, n.y as int, 18)
        },
    ensures
        !old(world).npcs@.contains_key(npc_id) ==> {
            &&& sent@.len() == 0
            &&& final(world).players@ == old(world).players@
            &&& final(world).npcs@ == old(world).npcs@
            &&& final(world).npc_templates@ == old(world).npc_templates@
            &&& final(world).items@ == old(world).items@
            &&& final(world).next_npc_id == old(world).next_npc_id
            &&& final(world).next_item_id == old(world).next_item_id
        },
        old(world).npcs@.contains_key(npc_id) ==> {
            let n = old(world).npcs@[npc_id];
            let removed = WorldState { npcs: final(world).npcs, ..*old(world) };
            &&& final(world).npcs@ == old(world).npcs@.remove(npc_id)
            &&& exists|drops: Seq<(i32, i32)>|
                {
                    &&& is_drop_outcome(drop_table.drops_of(n.template.npc_id), drops)
                    &&& scattered(removed, *final(world), item_table.templates@, n, drops, sent@)
                }
        },
{
    match world.handle_npc_death(npc_id) {
        None => Vec::new(),
        Some(npc) => {
            let drops = drop_table.calculate_drops(npc.template.npc_id);
            proof {
                lemma_outcome_len(drop_table.drops_of(npc.template.npc_id), drops@);
            }
            let sent = scatter_drops(world, item_table, &npc, &drops);
            sent
        },
    }
}

} // verus!
