//! What using an item does.
use crate::models::item::ItemInstance;
use crate::models::npc::{NpcTemplate, OnlineNpc};
use crate::models::player::OnlinePlayer;
use crate::network::shared_state::{issued_id, spawned_npc, WorldState};
use vstd::prelude::*;

verus! {

/// The pine wand: summons a goblin squad.
pub const PINE_WAND_ID: i32 = 40006;
/// The NPC template of a goblin.
pub const GOBLIN_TEMPLATE_ID: i32 = 45001;
/// Number of goblins in a squad.
pub const SQUAD_SIZE: i32 = 5;

/// The NPCs after the first `k` goblins of a squad called by a player at
/// `(px, py)` on `map` have been placed, from counter `start`: goblin `i`
/// stands at `(px + i - 2, py - 1)` under the `i + 1`-th id after `start`.
pub open spec fn squad_after(
    npcs: Map<i32, OnlineNpc>,
    t: NpcTemplate,
    start: u32,
    px: i32,
    py: i32,
    map: i16,
    k: int,
) -> Map<i32, OnlineNpc>
    decreases k,
{
    if k <= 0 {
        npcs
    } else {
        let id = issued_id((start + k) as u32);
        squad_after(npcs, t, start, px, py, map, k - 1).insert(
            id,
            spawned_npc(id, GOBLIN_TEMPLATE_ID, t, (px + k - 3) as i32, (py - 1) as i32, map as i32),
        )
    }
}

/// Places a squad of five goblins in a row behind `player`, one cell north
/// of it, from two cells west to two cells east; nothing when there is no
/// goblin template.
pub fn spawn_goblin_squad(world: &mut WorldState, player: &OnlinePlayer)
    requires
        old(world).npc_templates@.contains_key(GOBLIN_TEMPLATE_ID) ==> old(world).next_npc_id + SQUAD_SIZE < u32::MAX,
        i32::MIN <= player.x - 2,
        player.x + 2 <= i32::MAX,
        i32::MIN <= player.y - 1,
    ensures
        old(world).npc_templates@.contains_key(GOBLIN_TEMPLATE_ID) ==> {
            &&& final(world).next_npc_id == old(world).next_npc_id + SQUAD_SIZE
            &&& final(world).npcs@ == squad_after(
                old(world).npcs@,
                old(world).npc_templates@[GOBLIN_TEMPLATE_ID],
                old(world).next_npc_id,
                player.x,
                player.y,
                player.map_id,
                SQUAD_SIZE as int,
            )
        },
        !old(world).npc_templates@.contains_key(GOBLIN_TEMPLATE_ID) ==> {
            &&& final(world).next_npc_id == old(world).next_npc_id
            &&& final(world).npcs@ == old(world).npcs@
        },
        final(world).players@ == old(world).players@,
        final(world).npc_templates@ == old(world).npc_templates@,
        final(world).items@ == old(world).items@,
        final(world).next_item_id == old(world).next_item_id,
{
    let px = player.x;
    let py = player.y;
    let ghost start = world.next_npc_id;
    let ghost npcs0 = world.npcs@;
    let mut i: i32 = 0;
    while i < SQUAD_SIZE
        invariant
            0 <= i <= SQUAD_SIZE,
            px == player.x,
            py == player.y,
            i32::MIN <= px - 2,
            px + 2 <= i32::MAX,
            i32::MIN <= py - 1,
            world.npc_templates@ == old(world).npc_templates@,
            world.players@ == old(world).players@,
            world.items@ == old(world).items@,
            world.next_item_id == old(world).next_item_id,
            start == old(world).next_npc_id,
            npcs0 == old(world).npcs@,
            world.npc_templates@.contains_key(GOBLIN_TEMPLATE_ID) ==> {
                &&& start + SQUAD_SIZE < u32::MAX
                &&& world.next_npc_id == start + i
                &&& world.npcs@ == squad_after(
                    npcs0,
                    world.npc_templates@[GOBLIN_TEMPLATE_ID],
                    start,
                    px,
                    py,
                    player.map_id,
                    i as int,
                )
            },
            !world.npc_templates@.contains_key(GOBLIN_TEMPLATE_ID) ==> {
                &&& world.next_npc_id == start
                &&& world.npcs@ == npcs0
            },
        decreases SQUAD_SIZE - i,
    {
        let offset_x = i - 2;
        world.spawn_to_battlefield(GOBLIN_TEMPLATE_ID, px + offset_x, py - 1, player.map_id as i32);
        i = i + 1;
        assert((player.map_id as i32) as i16 == player.map_id);
    }
}

/// Number of goblins the pine wand summons around its user.
pub const ESCORT_SIZE: i32 = 3;

/// The NPCs after the first `k` goblins of the pine wand's escort have been
/// placed around a player at `(px, py)` on `map`, from counter `start`, with
/// goblin template `t`: goblin `i` stands at `(px + i - 1, py + 1)`, one cell
/// south of the row from west to east, under the `i + 1`-th id after `start`.
pub open spec fn escort_after(
    npcs: Map<i32, OnlineNpc>,
    t: NpcTemplate,
    start: u32,
    px: i32,
    py: i32,
    map: i16,
    k: int,
) -> Map<i32, OnlineNpc>
    decreases k,
{
    if k <= 0 {
        npcs
    } else {
        let id = issued_id((start + k) as u32);
        escort_after(npcs, t, start, px, py, map, k - 1).insert(
            id,
            spawned_npc(id, GOBLIN_TEMPLATE_ID, t, (px + k - 2) as i32, (py + 1) as i32, map as i32),
        )
    }
}

/// Summons the pine wand's escort: three goblins in a row one cell south of
/// `player`, from one cell west to one cell east. An id is drawn for each of
/// them even when there is no goblin template, in which case none is placed.
fn summon_goblin_escort(world: &mut WorldState, player: &OnlinePlayer)
    requires
        old(world).next_npc_id + ESCORT_SIZE < u32::MAX,
        i32::MIN <= player.x - 1,
        player.x + 1 <= i32::MAX,
        player.y + 1 <= i32::MAX,
    ensures
        final(world).next_npc_id == old(world).next_npc_id + ESCORT_SIZE,
        old(world).npc_templates@.contains_key(GOBLIN_TEMPLATE_ID) ==> final(world).npcs@
            == escort_after(
            old(world).npcs@,
            old(world).npc_templates@[GOBLIN_TEMPLATE_ID],
            old(world).next_npc_id,
            player.x,
            player.y,
            player.map_id,
            ESCORT_SIZE as int,
        ),
        !old(world).npc_templates@.contains_key(GOBLIN_TEMPLATE_ID) ==> final(world).npcs@
            == old(world).npcs@,
        final(world).players@ == old(world).players@,
        final(world).npc_templates@ == old(world).npc_templates@,
        final(world).items@ == old(world).items@,
        final(world).next_item_id == old(world).next_item_id,
{
    let ghost start = world.next_npc_id;
    let ghost npcs0 = world.npcs@;
    let mut i: i32 = -1;
    while i <= 1
        invariant
            -1 <= i <= 2,
            i32::MIN <= player.x - 1,
            player.x + 1 <= i32::MAX,
            player.y + 1 <= i32::MAX,
            start == old(world).next_npc_id,
            start + ESCORT_SIZE < u32::MAX,
            npcs0 == old(world).npcs@,
            world.next_npc_id == start + i + 1,
            world.npc_templates@ == old(world).npc_templates@,
            world.players@ == old(world).players@,
            world.items@ == old(world).items@,
            world.next_item_id == old(world).next_item_id,
            world.npc_templates@.contains_key(GOBLIN_TEMPLATE_ID) ==> world.npcs@ == escort_after(
                npcs0,
                world.npc_templates@[GOBLIN_TEMPLATE_ID],
                start,
                player.x,
                player.y,
                player.map_id,
                i + 1,
            ),
            !world.npc_templates@.contains_key(GOBLIN_TEMPLATE_ID) ==> world.npcs@ == npcs0,
        decreases 2 - i,
    {
        let id = world.generate_next_id();
        let found = match world.npc_templates.get(&GOBLIN_TEMPLATE_ID) {
            Some(t) => Some(t.clone()),
            None => None,
        };
        if let Some(t) = found {
            let goblin = OnlineNpc {
                object_id: id,
                template_id: GOBLIN_TEMPLATE_ID,
                cur_hp: t.hp,
                template: t,
                x: player.x + i,
                y: player.y + 1,
                map_id: player.map_id,
                heading: 0,
            };
            world.npcs.insert(id, goblin);
            assert((player.map_id as i32) as i16 == player.map_id);
        }
        i = i + 1;
    }
}

/// Uses `item`: the pine wand summons a goblin escort around `player`;
/// other items do nothing yet.
pub fn use_item(player: &OnlinePlayer, item: &ItemInstance, world: &mut WorldState)
    requires
        item.item_id == PINE_WAND_ID ==> {
            &&& old(world).next_npc_id + ESCORT_SIZE < u32::MAX
            &&& i32::MIN <= player.x - 1
            &&& player.x + 1 <= i32::MAX
            &&& player.y + 1 <= i32::MAX
        },
    ensures
        item.item_id == PINE_WAND_ID ==> final(world).next_npc_id == old(world).next_npc_id
            + ESCORT_SIZE,
        item.item_id == PINE_WAND_ID && old(world).npc_templates@.contains_key(GOBLIN_TEMPLATE_ID)
            ==> final(world).npcs@ == escort_after(
            old(world).npcs@,
            old(world).npc_templates@[GOBLIN_TEMPLATE_ID],
            old(world).next_npc_id,
            player.x,
            player.y,
            player.map_id,
            ESCORT_SIZE as int,
        ),
        !(item.item_id == PINE_WAND_ID && old(world).npc_templates@.contains_key(
            GOBLIN_TEMPLATE_ID,
        )) ==> final(world).npcs@ == old(world).npcs@,
        item.item_id != PINE_WAND_ID ==> final(world).next_npc_id == old(world).next_npc_id,
        final(world).players@ == old(world).players@,
        final(world).npc_templates@ == old(world).npc_templates@,
        final(world).items@ == old(world).items@,
        final(world).next_item_id == old(world).next_item_id,
{
    if item.item_id == PINE_WAND_ID {
        summon_goblin_escort(world, player);
    }
}

} // verus!
