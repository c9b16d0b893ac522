//! The state of the game world that all sessions share: players, NPCs,
//! NPC templates and items on the ground, each keyed by object id.
use crate::data::droplist::random_in;
use crate::models::item::OnlineItem;
use crate::models::npc::{NpcTemplate, OnlineNpc};
use crate::models::player::OnlinePlayer;

use crate::protocol::packet::{c8, d32, h16, pad4};
use crate::protocol::opcodes::S_OPCODE_MOVEOBJECT;
use crate::protocol::server::movement::{build_move_char, heading_delta, step};
use std::collections::HashMap;
use vstd::prelude::*;
use vstd::std_specs::hash::spec_hash_map_iter;
use vstd::std_specs::iter::IteratorSpec;

verus! {

broadcast use vstd::std_specs::hash::group_hash_axioms;

/// `(px, py)` on map `pmap` lies on map `map_id` within `r` cells of
/// `(x, y)` along both axes.
pub open spec fn within(pmap: int, px: int, py: int, map_id: int, x: int, y: int, r: int) -> bool {
    &&& pmap == map_id
    &&& -r <= px - x <= r
    &&& -r <= py - y <= r
}

/// The distance test `|px - x| <= r && |py - y| <= r`, made only on map
/// `map_id` and on `y` only when `x` passed, can be computed in `i32`.
pub open spec fn offsets_fit(pmap: int, px: int, py: int, map_id: int, x: int, y: int, r: int) -> bool {
    pmap == map_id ==> {
        &&& i32::MIN < px - x <= i32::MAX
        &&& -r <= px - x <= r ==> i32::MIN < py - y <= i32::MAX
    }
}

/// The id that the object counter hands out once it has reached `counter`.
pub open spec fn issued_id(counter: u32) -> i32 {
    counter as i32
}

/// Filtering a sequence without duplicates keeps it without duplicates and
/// filters the set of its elements.
proof fn lemma_filtered_keys(keys: Seq<i32>, pred: spec_fn(i32) -> bool)
    requires
        keys.no_duplicates(),
    ensures
        keys.filter(pred).no_duplicates(),
        keys.filter(pred).to_set() == keys.to_set().filter(pred),
    decreases keys.len(),
{
    if keys.len() == 0 {
        assert(keys.filter(pred) =~= Seq::<i32>::empty()) by {
            reveal(Seq::filter);
        }
        assert(keys.to_set().filter(pred) =~= Set::<i32>::empty());
    } else {
        let rest = keys.drop_last();
        let last = keys.last();
        assert(keys =~= rest.push(last));
        assert(rest.no_duplicates());
        lemma_filtered_keys(rest, pred);
        rest.lemma_filter_push(last, pred);
        assert(!rest.contains(last)) by {
            if rest.contains(last) {
                let j = choose|j: int| 0 <= j < rest.len() && rest[j] == last;
                assert(keys[j] == keys[keys.len() - 1]);
            }
        }
        if pred(last) {
            assert(!rest.filter(pred).contains(last)) by {
                if rest.filter(pred).contains(last) {
                    rest.lemma_filter_contains_rev(pred, last);
                }
            }
        }
        rest.lemma_push_to_set_commute(last);
        rest.filter(pred).lemma_push_to_set_commute(last);
        assert(keys.to_set() == rest.to_set().insert(last));
        assert(keys.filter(pred).to_set() =~= keys.to_set().filter(pred));
    }
}

/// The heading byte a move packet carries: the heading itself when it fits
/// in a byte, otherwise zero.
pub open spec fn heading_byte(heading: i32) -> u8 {
    if 0 <= heading <= 255 {
        heading as u8
    } else {
        0
    }
}

/// The NPC that `spawn_to_battlefield` places: object `id` made from
/// template `t`, at full health, facing north.
pub open spec fn spawned_npc(id: i32, template_id: i32, t: NpcTemplate, x: i32, y: i32, map: i32) -> OnlineNpc {
    OnlineNpc {
        object_id: id,
        template_id,
        x,
        y,
        map_id: map as i16,
        heading: 0,
        cur_hp: t.hp,
        template: t,
    }
}

/// The item that `spawn_item_on_ground` places: object `id`, unequipped.
pub open spec fn ground_item(id: i32, item_id: i32, count: i32, x: i32, y: i32, map_id: i16) -> OnlineItem {
    OnlineItem { object_id: id, item_id, count, x, y, map_id, is_equipped: false }
}

/// The NPCs after NPC `id` takes one step in direction `heading` and turns
/// that way; unchanged when there is no such NPC.
pub open spec fn npcs_after_step(npcs: Map<i32, OnlineNpc>, id: i32, heading: i32) -> Map<
    i32,
    OnlineNpc,
> {
    if npcs.contains_key(id) {
        let n = npcs[id];
        npcs.insert(
            id,
            OnlineNpc {
                x: (n.x + step(heading).0) as i32,
                y: (n.y + step(heading).1) as i32,
                heading,
                ..n
            },
        )
    } else {
        npcs
    }
}

/// The step of NPC `id` in direction `heading` stays within `i32`.
pub open spec fn step_fits(npcs: Map<i32, OnlineNpc>, id: i32, heading: i32) -> bool {
    npcs.contains_key(id) ==> {
        &&& i32::MIN <= npcs[id].x + step(heading).0 <= i32::MAX
        &&& i32::MIN <= npcs[id].y + step(heading).1 <= i32::MAX
    }
}

/// The NPCs after the steps `moves` (each an NPC id and a heading), taken
/// one after another.
pub open spec fn npcs_after_steps(npcs: Map<i32, OnlineNpc>, moves: Seq<(i32, i32)>) -> Map<
    i32,
    OnlineNpc,
>
    decreases moves.len(),
{
    if moves.len() == 0 {
        npcs
    } else {
        npcs_after_step(
            npcs_after_steps(npcs, moves.drop_last()),
            moves.last().0,
            moves.last().1,
        )
    }
}

/// Every step of `moves`, taken one after another, stays within `i32`.
pub open spec fn steps_fit(npcs: Map<i32, OnlineNpc>, moves: Seq<(i32, i32)>) -> bool {
    forall|i: int|
        #![trigger moves[i]]
        0 <= i < moves.len() ==> step_fits(
            npcs_after_steps(npcs, moves.take(i)),
            moves[i].0,
            moves[i].1,
        )
}

/// What one step of NPC `n` in direction `heading` reports: the move
/// packet, and the NPC's map and new cell.
pub open spec fn move_report(n: OnlineNpc, heading: i32) -> (Seq<u8>, i32, i32, i32) {
    let nx = (n.x + step(heading).0) as i32;
    let ny = (n.y + step(heading).1) as i32;
    (
        pad4(
            seq![S_OPCODE_MOVEOBJECT] + d32(n.object_id) + h16(nx) + h16(ny) + c8(
                heading_byte(heading) as i32,
            ),
        ),
        n.map_id as i32,
        nx,
        ny,
    )
}

/// The reports of the steps `moves` taken one after another, in order: one
/// for each step whose NPC is there when it is taken.
pub open spec fn step_reports(npcs: Map<i32, OnlineNpc>, moves: Seq<(i32, i32)>) -> Seq<
    (Seq<u8>, i32, i32, i32),
>
    decreases moves.len(),
{
    if moves.len() == 0 {
        Seq::empty()
    } else {
        let before = npcs_after_steps(npcs, moves.drop_last());
        let id = moves.last().0;
        step_reports(npcs, moves.drop_last()) + if before.contains_key(id) {
            seq![move_report(before[id], moves.last().1)]
        } else {
            Seq::empty()
        }
    }
}

/// The reports of a list of moves, with each packet taken by its bytes.
pub open spec fn report_views(out: Seq<(Vec<u8>, i32, i32, i32)>) -> Seq<(Seq<u8>, i32, i32, i32)> {
    out.map_values(|t: (Vec<u8>, i32, i32, i32)| (t.0@, t.1, t.2, t.3))
}

/// The moves that pair each id of `ids` with the heading at the same place
/// of `headings`.
pub open spec fn paired(ids: Seq<i32>, headings: Seq<i32>) -> Seq<(i32, i32)> {
    Seq::new(ids.len(), |j: int| (ids[j], headings[j]))
}

/// Every NPC of `npcs` named in `ids` can take one step in any direction
/// without leaving `i32`.
pub open spec fn chosen_fit(npcs: Map<i32, OnlineNpc>, ids: Seq<i32>) -> bool {
    forall|j: int|
        0 <= j < ids.len() && #[trigger] npcs.contains_key(ids[j]) ==> {
            &&& i32::MIN < npcs[ids[j]].x < i32::MAX
            &&& i32::MIN < npcs[ids[j]].y < i32::MAX
        }
}

/// The headings `headings` are what `draw(0, 7)` can show, one for each
/// NPC of `chosen`.
pub open spec fn headings_drawn_with<F: Fn(i32, i32) -> i32>(
    draw: F,
    chosen: Seq<i32>,
    headings: Seq<i32>,
) -> bool {
    &&& headings.len() == chosen.len()
    &&& forall|j: int|
        0 <= j < headings.len() ==> call_ensures(draw, (0i32, 7i32), #[trigger] headings[j])
}

/// Steps of other NPCs leave NPC `id` as it was.
proof fn lemma_steps_leave_others(npcs: Map<i32, OnlineNpc>, moves: Seq<(i32, i32)>, id: i32)
    requires
        forall|j: int| 0 <= j < moves.len() ==> #[trigger] moves[j].0 != id,
    ensures
        npcs_after_steps(npcs, moves).contains_key(id) == npcs.contains_key(id),
        npcs.contains_key(id) ==> npcs_after_steps(npcs, moves)[id] == npcs[id],
    decreases moves.len(),
{
    if moves.len() > 0 {
        let rest = moves.drop_last();
        assert forall|j: int| 0 <= j < rest.len() implies #[trigger] rest[j].0 != id by {
            assert(rest[j] == moves[j]);
        }
        lemma_steps_leave_others(npcs, rest, id);
        assert(moves.last() == moves[moves.len() - 1]);
    }
}

/// A packet to be sent to the players under `recipients`.
pub struct Broadcast {
    pub recipients: Vec<i32>,
    pub packet: Vec<u8>,
}

/// The whole game world.
pub struct WorldState {
    pub players: HashMap<i32, OnlinePlayer>,
    pub npcs: HashMap<i32, OnlineNpc>,
    pub npc_templates: HashMap<i32, NpcTemplate>,
    pub items: HashMap<i32, OnlineItem>,
    pub next_npc_id: u32,
    pub next_item_id: u32,
}

impl WorldState {
    /// Keys of the players on map `map_id` within `r` cells of `(x, y)`.
    pub open spec fn nearby_keys(&self, map_id: int, x: int, y: int, r: int) -> Set<i32> {
        self.players@.dom().filter(
            |k: i32|
                within(
                    self.players@[k].map_id as int,
                    self.players@[k].x as int,
                    self.players@[k].y as int,
                    map_id,
                    x,
                    y,
                    r,
                ),
        )
    }

    /// Every player's distance test against `(x, y)` on `map_id` with radius `r`
    /// can be computed in `i32`.
    pub open spec fn player_offsets_fit(&self, map_id: int, x: int, y: int, r: int) -> bool {
        forall|k: i32|
            #[trigger] self.players@.contains_key(k) ==> offsets_fit(
                self.players@[k].map_id as int,
                self.players@[k].x as int,
                self.players@[k].y as int,
                map_id,
                x,
                y,
                r,
            )
    }

    /// An empty world whose object counter starts at 1.
    pub fn new() -> (w: Self)
        ensures
            w.players@ == Map::<i32, OnlinePlayer>::empty(),
            w.npcs@ == Map::<i32, OnlineNpc>::empty(),
            w.npc_templates@ == Map::<i32, NpcTemplate>::empty(),
            w.items@ == Map::<i32, OnlineItem>::empty(),
            w.next_npc_id == 1,
            w.next_item_id == 1,
    {
        Self {
            players: HashMap::new(),
            npcs: HashMap::new(),
            npc_templates: HashMap::new(),
            items: HashMap::new(),
            next_npc_id: 1,
            next_item_id: 1,
        }
    }

    /// Advances the object counter and hands out its new value as an id.
    pub fn generate_next_id(&mut self) -> (id: i32)
        requires
            old(self).next_npc_id < u32::MAX,
        ensures
            final(self).next_npc_id == old(self).next_npc_id + 1,
            id == issued_id(final(self).next_npc_id),
            final(self).players@ == old(self).players@,
            final(self).npcs@ == old(self).npcs@,
            final(self).npc_templates@ == old(self).npc_templates@,
            final(self).items@ == old(self).items@,
            final(self).next_item_id == old(self).next_item_id,
    {
        self.next_npc_id += 1;
        self.next_npc_id as i32
    }

    /// Adds `player` under its object id, replacing any player held there.
    pub fn add_player(&mut self, player: OnlinePlayer)
        ensures
            final(self).players@ == old(self).players@.insert(player.object_id, player),
            final(self).npcs@ == old(self).npcs@,
            final(self).npc_templates@ == old(self).npc_templates@,
            final(self).items@ == old(self).items@,
            final(self).next_npc_id == old(self).next_npc_id,
            final(self).next_item_id == old(self).next_item_id,
    {
        let id = player.object_id;
        self.players.insert(id, player);
    }

    /// Removes the player held under `object_id`, if any.
    pub fn remove_player(&mut self, object_id: i32)
        ensures
            final(self).players@ == old(self).players@.remove(object_id),
            final(self).npcs@ == old(self).npcs@,
            final(self).npc_templates@ == old(self).npc_templates@,
            final(self).items@ == old(self).items@,
            final(self).next_npc_id == old(self).next_npc_id,
            final(self).next_item_id == old(self).next_item_id,
    {
        self.players.remove(&object_id);
    }

    /// Moves the player held under `object_id`, if any, to `(x, y)` facing `heading`.
    pub fn update_position(&mut self, object_id: i32, x: i32, y: i32, heading: u8)
        ensures
            old(self).players@.contains_key(object_id) ==> final(self).players@ == old(
                self,
            ).players@.insert(
                object_id,
                OnlinePlayer { x, y, heading: heading as i32, ..old(self).players@[object_id] },
            ),
            !old(self).players@.contains_key(object_id) ==> final(self).players@ == old(
                self,
            ).players@,
            final(self).npcs@ == old(self).npcs@,
            final(self).npc_templates@ == old(self).npc_templates@,
            final(self).items@ == old(self).items@,
            final(self).next_npc_id == old(self).next_npc_id,
            final(self).next_item_id == old(self).next_item_id,
    {
        if let Some(mut player) = self.players.remove(&object_id) {
            player.x = x;
            player.y = y;
            player.heading = heading as i32;
            self.players.insert(object_id, player);
            assert(self.players@ =~= old(self).players@.insert(
                object_id,
                OnlinePlayer { x, y, heading: heading as i32, ..old(self).players@[object_id] },
            ));
        }
    }

    /// The keys of all players, each once.
    fn player_keys(&self) -> (r: Vec<i32>)
        ensures
            r@.to_set() == self.players@.dom(),
            r@.no_duplicates(),
    {
        let m = &self.players;
        let mut r: Vec<i32> = Vec::new();
        for (k, v) in it: m.iter()
            invariant
                it.seq() == spec_hash_map_iter(m).remaining(),
                r@.len() == it.index(),
                forall|j: int| 0 <= j < it.index() ==> r@[j] == *it.seq()[j].0,
        {
            r.push(*k);
        }
        proof {
            let v = spec_hash_map_iter(m).remaining();
            assert(r@.len() == v.len());
            assert forall|k: i32| m@.dom().contains(k) implies r@.to_set().contains(k) by {
                assert(v.contains((&k, &m@[k])));
                let j = choose|j: int| 0 <= j < v.len() && v[j] == (&k, &m@[k]);
                assert(r@[j] == k);
            }
            assert forall|k: i32| r@.to_set().contains(k) implies m@.dom().contains(k) by {
                let j = choose|j: int| 0 <= j < r@.len() && r@[j] == k;
                assert(m@.contains_key(*v[j].0));
            }
            assert(r@.to_set() =~= m@.dom());
            assert forall|i: int, j: int|
                0 <= i < r@.len() && 0 <= j < r@.len() && i != j implies r@[i] != r@[j] by {
                if r@[i] == r@[j] {
                    assert(m@.contains_key(*v[i].0) && m@[*v[i].0] == *v[i].1);
                    assert(m@.contains_key(*v[j].0) && m@[*v[j].0] == *v[j].1);
                    assert(v[i] == v[j]);
                }
            }
        }
        r
    }

    /// The keys of the players on map `map_id` within `r` cells of `(x, y)`,
    /// each once, in no particular order.
    fn keys_within(&self, map_id: i32, x: i32, y: i32, r: i32) -> (res: Vec<i32>)
        requires
            0 <= r,
            self.player_offsets_fit(map_id as int, x as int, y as int, r as int),
        ensures
            res@.no_duplicates(),
            res@.to_set() == self.nearby_keys(map_id as int, x as int, y as int, r as int),
    {
        let keys = self.player_keys();
        let ghost pred = |k: i32|
            within(
                self.players@[k].map_id as int,
                self.players@[k].x as int,
                self.players@[k].y as int,
                map_id as int,
                x as int,
                y as int,
                r as int,
            );
        let mut res: Vec<i32> = Vec::new();
        let n = keys.len();
        let mut i: usize = 0;
        while i < n
            invariant
                i <= n,
                n == keys@.len(),
                keys@.to_set() == self.players@.dom(),
                0 <= r,
                self.player_offsets_fit(map_id as int, x as int, y as int, r as int),
                res@ == keys@.take(i as int).filter(pred),
                pred == (|k: i32|
                    within(
                        self.players@[k].map_id as int,
                        self.players@[k].x as int,
                        self.players@[k].y as int,
                        map_id as int,
                        x as int,
                        y as int,
                        r as int,
                    )),
            decreases n - i,
        {
            let k = keys[i];
            assert(keys@.to_set().contains(k));
            let p = self.players.get(&k).unwrap();
            assert(self.players@.contains_key(k) && *p == self.players@[k]);
            let on_map: bool = p.map_id as i32 == map_id;
            let mut near = false;
            if on_map {
                let dx = p.x - x;
                if -r <= dx && dx <= r {
                    let dy = p.y - y;
                    near = -r <= dy && dy <= r;
                }
            }
            assert(near == pred(k));
            proof {
                assert(keys@.take(i + 1) =~= keys@.take(i as int).push(k));
                keys@.take(i as int).lemma_filter_push(k, pred);
            }
            if near {
                res.push(k);
            }
            i = i + 1;
        }
        proof {
            assert(keys@.take(n as int) =~= keys@);
            lemma_filtered_keys(keys@, pred);
            assert(res@.to_set() =~= self.nearby_keys(map_id as int, x as int, y as int, r as int));
        }
        res
    }

    /// Copies of the players on map `map_id` within 20 cells of `(x, y)`,
    /// each once, in no particular order.
    pub fn get_nearby_players(&self, map_id: i32, x: i32, y: i32) -> (res: Vec<OnlinePlayer>)
        requires
            self.player_offsets_fit(map_id as int, x as int, y as int, 20),
        ensures
            exists|ks: Seq<i32>|
                {
                    &&& ks.no_duplicates()
                    &&& ks.to_set() == self.nearby_keys(map_id as int, x as int, y as int, 20)
                    &&& ks.len() == res@.len()
                    &&& forall|i: int|
                        0 <= i < ks.len() ==> #[trigger] res@[i].same_data(self.players@[ks[i]])
                },
    {
        let keys = self.keys_within(map_id, x, y, 20);
        let mut res: Vec<OnlinePlayer> = Vec::new();
        let n = keys.len();
        let mut i: usize = 0;
        while i < n
            invariant
                i <= n,
                n == keys@.len(),
                keys@.to_set() == self.nearby_keys(map_id as int, x as int, y as int, 20),
                res@.len() == i,
                forall|j: int| 0 <= j < i ==> #[trigger] res@[j].same_data(self.players@[keys@[j]]),
            decreases n - i,
        {
            let k = keys[i];
            assert(keys@.to_set().contains(k));
            let p = self.players.get(&k).unwrap();
            res.push(p.clone());
            i = i + 1;
        }
        assert(keys@.no_duplicates());
        res
    }

    /// The keys of the players that a broadcast from `(x, y)` on map
    /// `map_id` reaches: those on that map (as an `i16`) within 18 cells
    /// along both axes, each once, in no particular order.
    pub fn broadcast_nearby(&self, map_id: u32, x: i32, y: i32) -> (res: Vec<i32>)
        requires
            self.player_offsets_fit((map_id as i16) as int, x as int, y as int, 18),
        ensures
            res@.no_duplicates(),
            res@.to_set() == self.nearby_keys((map_id as i16) as int, x as int, y as int, 18),
    {
        self.keys_within((map_id as i16) as i32, x, y, 18)
    }

    /// Places a new NPC of template `template_id` at `(x, y)` on map `map`
    /// (as an `i16`) under a freshly generated id; does nothing when there
    /// is no such template.
    pub fn spawn_to_battlefield(&mut self, template_id: i32, x: i32, y: i32, map: i32)
        requires
            old(self).npc_templates@.contains_key(template_id) ==> old(self).next_npc_id < u32::MAX,
        ensures
            old(self).npc_templates@.contains_key(template_id) ==> {
                &&& final(self).next_npc_id == old(self).next_npc_id + 1
                &&& final(self).npcs@ == old(self).npcs@.insert(
                    issued_id(final(self).next_npc_id),
                    spawned_npc(
                        issued_id(final(self).next_npc_id),
                        template_id,
                        old(self).npc_templates@[template_id],
                        x,
                        y,
                        map,
                    ),
                )
            },
            !old(self).npc_templates@.contains_key(template_id) ==> {
                &&& final(self).next_npc_id == old(self).next_npc_id
                &&& final(self).npcs@ == old(self).npcs@
            },
            final(self).players@ == old(self).players@,
            final(self).npc_templates@ == old(self).npc_templates@,
            final(self).items@ == old(self).items@,
            final(self).next_item_id == old(self).next_item_id,
    {
        let found = match self.npc_templates.get(&template_id) {
            Some(t) => Some(t.clone()),
            None => None,
        };
        if let Some(temp) = found {
            let obj_id = self.generate_next_id();
            let active_npc = OnlineNpc {
                object_id: obj_id,
                template_id,
                cur_hp: temp.hp,
                template: temp,
                x,
                y,
                map_id: map as i16,
                heading: 0,
            };
            self.npcs.insert(obj_id, active_npc);
        }
    }

    /// Takes the NPC held under `object_id` out of the world and hands it back.
    pub fn handle_npc_death(&mut self, object_id: i32) -> (r: Option<OnlineNpc>)
        ensures
            final(self).npcs@ == old(self).npcs@.remove(object_id),
            match r {
                Some(n) => old(self).npcs@.contains_key(object_id) && n == old(self).npcs@[object_id],
                None => !old(self).npcs@.contains_key(object_id),
            },
            final(self).players@ == old(self).players@,
            final(self).npc_templates@ == old(self).npc_templates@,
            final(self).items@ == old(self).items@,
            final(self).next_npc_id == old(self).next_npc_id,
            final(self).next_item_id == old(self).next_item_id,
    {
        self.npcs.remove(&object_id)
    }

    /// Places `count` of item `item_id` on the ground at `(x, y)` on
    /// `map_id` under a freshly generated id, and returns that id.
    pub fn spawn_item_on_ground(
        &mut self,
        item_id: i32,
        count: i32,
        x: i32,
        y: i32,
        map_id: i16,
    ) -> (id: i32)
        requires
            old(self).next_npc_id < u32::MAX,
        ensures
            final(self).next_npc_id == old(self).next_npc_id + 1,
            id == issued_id(final(self).next_npc_id),
            final(self).items@ == old(self).items@.insert(
                id,
                ground_item(id, item_id, count, x, y, map_id),
            ),
            final(self).players@ == old(self).players@,
            final(self).npcs@ == old(self).npcs@,
            final(self).npc_templates@ == old(self).npc_templates@,
            final(self).next_item_id == old(self).next_item_id,
    {
        let obj_id = self.generate_next_id();
        let new_item = OnlineItem {
            object_id: obj_id,
            item_id,
            count,
            x,
            y,
            map_id,
            is_equipped: false,
        };
        self.items.insert(obj_id, new_item);
        obj_id
    }

    /// Moves the NPC held under `object_id` one step in direction `heading`
    /// and turns it that way. Returns the move packet, and the NPC's map and
    /// new position, from which the move is to be broadcast; `None` when
    /// there is no such NPC.
    pub fn move_npc(&mut self, object_id: i32, heading: i32) -> (r: Option<(Vec<u8>, i32, i32, i32)>)
        requires
            old(self).npcs@.contains_key(object_id) ==> {
                &&& i32::MIN <= old(self).npcs@[object_id].x + step(heading).0 <= i32::MAX
                &&& i32::MIN <= old(self).npcs@[object_id].y + step(heading).1 <= i32::MAX
            },
        ensures
            match r {
                None => {
                    &&& !old(self).npcs@.contains_key(object_id)
                    &&& final(self).npcs@ == old(self).npcs@
                },
                Some((pkt, map, nx, ny)) => {
                    let n = old(self).npcs@[object_id];
                    &&& old(self).npcs@.contains_key(object_id)
                    &&& nx == n.x + step(heading).0
                    &&& ny == n.y + step(heading).1
                    &&& map == n.map_id as i32
                    &&& final(self).npcs@ == old(self).npcs@.insert(
                        object_id,
                        OnlineNpc { x: nx, y: ny, heading, ..n },
                    )
                    &&& pkt@ == pad4(
                        seq![S_OPCODE_MOVEOBJECT] + d32(n.object_id) + h16(nx) + h16(ny) + c8(
                            heading_byte(heading) as i32,
                        ),
                    )
                },
            },
            final(self).players@ == old(self).players@,
            final(self).npc_templates@ == old(self).npc_templates@,
            final(self).items@ == old(self).items@,
            final(self).next_npc_id == old(self).next_npc_id,
            final(self).next_item_id == old(self).next_item_id,
    {
        match self.npcs.remove(&object_id) {
            None => None,
            Some(mut npc) => {
                let (dx, dy) = heading_delta(heading);
                npc.x = npc.x + dx;
                npc.y = npc.y + dy;
                npc.heading = heading;
                let byte: u8 = if 0 <= heading && heading <= 255 {
                    heading as u8
                } else {
                    0
                };
                let pkt = build_move_char(npc.object_id, npc.x, npc.y, byte);
                let out = (pkt, npc.map_id as i32, npc.x, npc.y);
                self.npcs.insert(object_id, npc);
                Some(out)
            },
        }
    }

    /// One round of wandering: the NPCs of `moves` (each an NPC id and the
    /// heading drawn for it) step one after another, each as `move_npc`
    /// moves it. Returns, in order, the move packet, map and new cell of
    /// each step whose NPC is there.
    pub fn wander_npcs(&mut self, moves: &Vec<(i32, i32)>) -> (out: Vec<(Vec<u8>, i32, i32, i32)>)
        requires
            steps_fit(old(self).npcs@, moves@),
        ensures
            final(self).npcs@ == npcs_after_steps(old(self).npcs@, moves@),
            report_views(out@) == step_reports(old(self).npcs@, moves@),
            final(self).players@ == old(self).players@,
            final(self).npc_templates@ == old(self).npc_templates@,
            final(self).items@ == old(self).items@,
            final(self).next_npc_id == old(self).next_npc_id,
            final(self).next_item_id == old(self).next_item_id,
    {
        let ghost npcs0 = self.npcs@;
        let mut out: Vec<(Vec<u8>, i32, i32, i32)> = Vec::new();
        let n = moves.len();
        let mut i: usize = 0;
        while i < n
            invariant
                i <= n,
                n == moves@.len(),
                npcs0 == old(self).npcs@,
                steps_fit(npcs0, moves@),
                self.npcs@ == npcs_after_steps(npcs0, moves@.take(i as int)),
                report_views(out@) == step_reports(npcs0, moves@.take(i as int)),
                self.players@ == old(self).players@,
                self.npc_templates@ == old(self).npc_templates@,
                self.items@ == old(self).items@,
                self.next_npc_id == old(self).next_npc_id,
                self.next_item_id == old(self).next_item_id,
            decreases n - i,
        {
            let (id, heading) = moves[i];
            let ghost pre = moves@.take(i as int);
            let ghost npcs_before = self.npcs@;
            let ghost out_before = out@;
            proof {
                assert(moves@[i as int] == (id, heading));
                assert(moves@.take(i + 1).drop_last() =~= pre);
                assert(moves@.take(i + 1).last() == (id, heading));
            }
            match self.move_npc(id, heading) {
                Some(r) => {
                    out.push(r);
                    proof {
                        assert(self.npcs@ =~= npcs_after_step(npcs_before, id, heading));
                        assert(report_views(out@) =~= report_views(out_before) + seq![
                            move_report(npcs_before[id], heading),
                        ]);
                    }
                },
                None => {
                    proof {
                        assert(report_views(out@) =~= report_views(out_before) + Seq::empty());
                    }
                },
            }
            i = i + 1;
        }
        assert(moves@.take(n as int) =~= moves@);
        out
    }

    /// One round of wandering of the NPCs `chosen` to move, with the die
    /// `draw`: each draws its heading as `draw(0, 7)`, then they step one
    /// after another as `wander_npcs` steps them. Returns what `wander_npcs`
    /// returns.
    pub fn wander_chosen_with<F: Fn(i32, i32) -> i32>(&mut self, chosen: &Vec<i32>, draw: F) -> (out:
        Vec<(Vec<u8>, i32, i32, i32)>)
        requires
            chosen@.no_duplicates(),
            chosen_fit(old(self).npcs@, chosen@),
            call_requires(draw, (0i32, 7i32)),
            forall|r: i32| #[trigger] call_ensures(draw, (0i32, 7i32), r) ==> 0 <= r <= 7,
        ensures
            exists|headings: Seq<i32>|
                #[trigger] headings_drawn_with(draw, chosen@, headings) && {
                    &&& final(self).npcs@ == npcs_after_steps(
                        old(self).npcs@,
                        paired(chosen@, headings),
                    )
                    &&& report_views(out@) == step_reports(
                        old(self).npcs@,
                        paired(chosen@, headings),
                    )
                },
            final(self).players@ == old(self).players@,
            final(self).npc_templates@ == old(self).npc_templates@,
            final(self).items@ == old(self).items@,
            final(self).next_npc_id == old(self).next_npc_id,
            final(self).next_item_id == old(self).next_item_id,
    {
        let mut moves: Vec<(i32, i32)> = Vec::new();
        let n = chosen.len();
        let mut k: usize = 0;
        while k < n
            invariant
                k <= n,
                n == chosen@.len(),
                moves@.len() == k,
                call_requires(draw, (0i32, 7i32)),
                forall|r: i32| #[trigger] call_ensures(draw, (0i32, 7i32), r) ==> 0 <= r <= 7,
                forall|j: int|
                    0 <= j < k ==> (#[trigger] moves@[j]).0 == chosen@[j] && call_ensures(
                        draw,
                        (0i32, 7i32),
                        moves@[j].1,
                    ),
            decreases n - k,
        {
            let heading = draw(0, 7);
            moves.push((chosen[k], heading));
            k = k + 1;
        }
        let ghost headings = moves@.map_values(|m: (i32, i32)| m.1);
        proof {
            let npcs = self.npcs@;
            assert(paired(chosen@, headings) =~= moves@);
            assert forall|i: int| #![trigger moves@[i]] 0 <= i < moves@.len() implies step_fits(
                npcs_after_steps(npcs, moves@.take(i)),
                moves@[i].0,
                moves@[i].1,
            ) by {
                let id = moves@[i].0;
                let pre = moves@.take(i);
                assert(call_ensures(draw, (0i32, 7i32), moves@[i].1));
                assert forall|j: int| 0 <= j < pre.len() implies #[trigger] pre[j].0 != id by {
                    assert(pre[j] == moves@[j]);
                    assert(chosen@[j] != chosen@[i]);
                }
                lemma_steps_leave_others(npcs, pre, id);
                if npcs.contains_key(id) {
                    assert(npcs.contains_key(chosen@[i]));
                }
            }
        }
        let out = self.wander_npcs(&moves);
        proof {
            assert(forall|j: int| 0 <= j < headings.len() ==> #[trigger] headings[j] == moves@[j].1);
            assert(headings_drawn_with(draw, chosen@, headings));
        }
        out
    }

    /// One round of wandering of the NPCs `chosen` to move: each draws a
    /// heading from 0 to 7 from the thread's random generator, then they
    /// step one after another as `wander_npcs` steps them. Returns what
    /// `wander_npcs` returns.
    pub fn wander_chosen(&mut self, chosen: &Vec<i32>) -> (out: Vec<(Vec<u8>, i32, i32, i32)>)
        requires
            chosen@.no_duplicates(),
            chosen_fit(old(self).npcs@, chosen@),
        ensures
            exists|headings: Seq<i32>|
                {
                    &&& headings.len() == chosen@.len()
                    &&& forall|j: int|
                        0 <= j < headings.len() ==> 0 <= #[trigger] headings[j] < 8
                    &&& final(self).npcs@ == npcs_after_steps(
                        old(self).npcs@,
                        paired(chosen@, headings),
                    )
                    &&& report_views(out@) == step_reports(
                        old(self).npcs@,
                        paired(chosen@, headings),
                    )
                },
            final(self).players@ == old(self).players@,
            final(self).npc_templates@ == old(self).npc_templates@,
            final(self).items@ == old(self).items@,
            final(self).next_npc_id == old(self).next_npc_id,
            final(self).next_item_id == old(self).next_item_id,
    {
        let die = |lo: i32, hi: i32| -> (r: i32)
            requires
                lo <= hi,
            ensures
                lo <= r <= hi,
            { random_in(lo, hi) };
        let out = self.wander_chosen_with(chosen, die);
        proof {
            let headings = choose|headings: Seq<i32>|
                #[trigger] headings_drawn_with(die, chosen@, headings) && {
                    &&& self.npcs@ == npcs_after_steps(old(self).npcs@, paired(chosen@, headings))
                    &&& report_views(out@) == step_reports(
                        old(self).npcs@,
                        paired(chosen@, headings),
                    )
                };
            assert forall|j: int| 0 <= j < headings.len() implies 0 <= #[trigger] headings[j] < 8 by {
                assert(call_ensures(die, (0i32, 7i32), headings[j]));
            }
        }
        out
    }
}

/// A player is near `(x, y)` on map `map_id` with radius `r` exactly when it
/// is on that map and no more than `r` cells away along each axis, in
/// either direction.
pub proof fn lemma_near_means_close(w: WorldState, map_id: int, x: int, y: int, r: int, k: i32)
    ensures
        w.nearby_keys(map_id, x, y, r).contains(k) <==> {
            &&& w.players@.contains_key(k)
            &&& w.players@[k].map_id as int == map_id
            &&& (if w.players@[k].x >= x {
                w.players@[k].x - x
            } else {
                x - w.players@[k].x
            }) <= r
            &&& (if w.players@[k].y >= y {
                w.players@[k].y - y
            } else {
                y - w.players@[k].y
            }) <= r
        },
{
}

/// The NPC that a spawn places under an id is what the death of that id
/// hands back, and the death leaves the other NPCs as they were before the
/// spawn.
pub proof fn lemma_death_returns_spawned(npcs: Map<i32, OnlineNpc>, id: i32, npc: OnlineNpc)
    ensures
        npcs.insert(id, npc).contains_key(id),
        npcs.insert(id, npc)[id] == npc,
        npcs.insert(id, npc).remove(id) == npcs.remove(id),
{
    assert(npcs.insert(id, npc).remove(id) =~= npcs.remove(id));
}

/// Removing a player undoes adding it: no player is left under its id and
/// the others are as they were.
pub proof fn lemma_remove_undoes_add(players: Map<i32, OnlinePlayer>, player: OnlinePlayer)
    ensures
        !players.insert(player.object_id, player).remove(player.object_id).contains_key(
            player.object_id,
        ),
        players.insert(player.object_id, player).remove(player.object_id) == players.remove(
            player.object_id,
        ),
{
    assert(players.insert(player.object_id, player).remove(player.object_id) =~= players.remove(
        player.object_id,
    ));
}

/// Ids are never handed out twice: two different counter values give two
/// different ids, and `generate_next_id` only ever advances the counter.
pub proof fn lemma_issued_ids_differ(a: u32, b: u32)
    requires
        a != b,
    ensures
        issued_id(a) != issued_id(b),
{
    assert(a as i32 != b as i32) by (bit_vector)
        requires
            a != b,
    ;
}

} // verus!
