//! What monsters drop when they die.
use std::collections::HashMap;
use vstd::prelude::*;

verus! {

broadcast use vstd::std_specs::hash::group_hash_axioms;

/// Highest face of the die that decides whether an item drops: an item
/// drops when the die, rolled from 1 to this, shows at most its chance.
pub const CHANCE_DIE: i32 = 1_000_000;

/// One item a monster may drop, with the odds and the amount.
#[derive(Debug, Clone, Copy, PartialEq, Eq, Structural)]
pub struct DropItem {
    pub mob_id: i32,
    pub item_id: i32,
    pub min_count: i32,
    pub max_count: i32,
    pub chance: i32,
}

/// `count` is an amount that `drop` can give: its fixed amount when the
/// minimum and maximum agree, otherwise any amount between them.
pub open spec fn count_fits(drop: DropItem, count: i32) -> bool {
    if drop.min_count == drop.max_count {
        count == drop.min_count
    } else {
        drop.min_count <= count <= drop.max_count
    }
}

/// `results` is an outcome of rolling every drop of `drops` in order: a drop
/// is left out only if the die can exceed its chance (chance below
/// `CHANCE_DIE`), and is kept only if the die can reach its chance (chance
/// at least 1), as its item id and an amount that fits it.
pub open spec fn is_drop_outcome(drops: Seq<DropItem>, results: Seq<(i32, i32)>) -> bool
    decreases drops.len(),
{
    if drops.len() == 0 {
        results.len() == 0
    } else {
        let d = drops[0];
        ||| d.chance < CHANCE_DIE && is_drop_outcome(drops.drop_first(), results)
        ||| {
            &&& results.len() > 0
            &&& d.chance >= 1
            &&& results[0].0 == d.item_id
            &&& count_fits(d, results[0].1)
            &&& is_drop_outcome(drops.drop_first(), results.drop_first())
        }
    }
}

/// An outcome has at most one result per drop.
pub proof fn lemma_outcome_len(drops: Seq<DropItem>, results: Seq<(i32, i32)>)
    requires
        is_drop_outcome(drops, results),
    ensures
        results.len() <= drops.len(),
    decreases drops.len(),
{
    if drops.len() > 0 {
        if drops[0].chance < CHANCE_DIE && is_drop_outcome(drops.drop_first(), results) {
            lemma_outcome_len(drops.drop_first(), results);
        } else {
            lemma_outcome_len(drops.drop_first(), results.drop_first());
        }
    }
}

/// A drop whose chance reaches the top of the die always drops: when every
/// drop of the list is certain, each outcome holds every drop's item, in
/// list order, with an amount that fits it.
pub proof fn lemma_certain_drops_always_fall(drops: Seq<DropItem>, results: Seq<(i32, i32)>)
    requires
        forall|i: int| 0 <= i < drops.len() ==> #[trigger] drops[i].chance >= CHANCE_DIE,
        is_drop_outcome(drops, results),
    ensures
        results.len() == drops.len(),
        forall|i: int|
            0 <= i < drops.len() ==> #[trigger] results[i].0 == drops[i].item_id && count_fits(
                drops[i],
                results[i].1,
            ),
    decreases drops.len(),
{
    if drops.len() > 0 {
        assert(drops[0].chance >= CHANCE_DIE);
        let rest = drops.drop_first();
        assert forall|i: int| 0 <= i < rest.len() implies #[trigger] rest[i].chance >= CHANCE_DIE by {
            assert(rest[i] == drops[i + 1]);
        }
        lemma_certain_drops_always_fall(rest, results.drop_first());
        assert forall|i: int| 0 <= i < drops.len() implies #[trigger] results[i].0 == drops[i].item_id
            && count_fits(drops[i], results[i].1) by {
            if i > 0 {
                assert(results.drop_first()[i - 1] == results[i]);
                assert(rest[i - 1] == drops[i]);
            }
        }
    }
}

/// A drop whose chance is below 1 never drops: when no drop of the list can
/// fall, every outcome is empty.
pub proof fn lemma_hopeless_drops_never_fall(drops: Seq<DropItem>, results: Seq<(i32, i32)>)
    requires
        forall|i: int| 0 <= i < drops.len() ==> #[trigger] drops[i].chance < 1,
        is_drop_outcome(drops, results),
    ensures
        results.len() == 0,
    decreases drops.len(),
{
    if drops.len() > 0 {
        assert(drops[0].chance < 1);
        let rest = drops.drop_first();
        assert forall|i: int| 0 <= i < rest.len() implies #[trigger] rest[i].chance < 1 by {
            assert(rest[i] == drops[i + 1]);
        }
        lemma_hopeless_drops_never_fall(rest, results);
    }
}

/// Every drop that can fall (chance at least 1) has an amount range that is
/// not empty.
pub open spec fn counts_ordered(drops: Seq<DropItem>) -> bool {
    forall|i: int|
        0 <= i < drops.len() && drops[i].chance >= 1 ==> drops[i].min_count
            <= #[trigger] drops[i].max_count
}

/// `rand::random_range` over `low..=high`: a number drawn from the thread's
/// random generator. The contract claims only what the crate documents: the
/// number lies in the range (an empty range panics, hence `requires`).
#[verifier::external_body]
pub(crate) fn random_in(low: i32, high: i32) -> (r: i32)
    requires
        low <= high,
    ensures
        low <= r <= high,
{
    rand::random_range(low..=high)
}

/// What one drop gives once the chance die shows `roll` and the amount die
/// shows `amount`: nothing when `roll` exceeds the chance, otherwise the
/// item with its fixed amount, or with `amount` when the amount varies.
pub fn resolve_drop(drop: &DropItem, roll: i32, amount: i32) -> (r: Option<(i32, i32)>)
    ensures
        r == (if roll <= drop.chance {
            Some(
                (
                    drop.item_id,
                    if drop.min_count == drop.max_count {
                        drop.min_count
                    } else {
                        amount
                    },
                ),
            )
        } else {
            None
        }),
{
    if roll <= drop.chance {
        let count = if drop.min_count == drop.max_count {
            drop.min_count
        } else {
            amount
        };
        Some((drop.item_id, count))
    } else {
        None
    }
}

/// The items of `items` that belong to monster `m`, in order.
pub open spec fn drops_for(items: Seq<DropItem>, m: i32) -> Seq<DropItem> {
    items.filter(|d: DropItem| d.mob_id == m)
}

/// What one drop gives when the chance die shows `roll` and the amount die
/// shows `amount`: the drop, when the roll is at most its chance, with its
/// fixed amount or the amount rolled.
pub open spec fn rolled_one(d: DropItem, roll: i32, amount: i32) -> Seq<(i32, i32)> {
    if roll <= d.chance {
        seq![
            (
                d.item_id,
                if d.min_count == d.max_count {
                    d.min_count
                } else {
                    amount
                },
            ),
        ]
    } else {
        Seq::empty()
    }
}

/// What rolling the drops `drops` gives when the chance die shows `rolls`
/// and the amount die shows `amounts`, drop by drop, in list order.
pub open spec fn rolled_drops(drops: Seq<DropItem>, rolls: Seq<i32>, amounts: Seq<i32>) -> Seq<
    (i32, i32),
>
    decreases drops.len(),
{
    if drops.len() == 0 || rolls.len() == 0 || amounts.len() == 0 {
        Seq::empty()
    } else {
        rolled_drops(drops.drop_last(), rolls.drop_last(), amounts.drop_last()) + rolled_one(
            drops.last(),
            rolls.last(),
            amounts.last(),
        )
    }
}

/// Fair dice for the drops `drops`: each roll a face of the chance die
/// `1..=CHANCE_DIE`, and each amount that is read (the roll at most the
/// chance, the range not a single value) within the drop's range.
pub open spec fn fair_dice(drops: Seq<DropItem>, rolls: Seq<i32>, amounts: Seq<i32>) -> bool {
    &&& rolls.len() == drops.len()
    &&& amounts.len() == drops.len()
    &&& forall|j: int| 0 <= j < drops.len() ==> 1 <= #[trigger] rolls[j] <= CHANCE_DIE
    &&& forall|j: int|
        0 <= j < drops.len() && rolls[j] <= drops[j].chance && drops[j].min_count
            != drops[j].max_count ==> drops[j].min_count <= #[trigger] amounts[j]
            <= drops[j].max_count
}

/// Rolling a list is rolling its first drop, then the rest.
proof fn lemma_rolled_front(drops: Seq<DropItem>, rolls: Seq<i32>, amounts: Seq<i32>)
    requires
        drops.len() > 0,
        rolls.len() == drops.len(),
        amounts.len() == drops.len(),
    ensures
        rolled_drops(drops, rolls, amounts) == rolled_one(drops[0], rolls[0], amounts[0])
            + rolled_drops(drops.drop_first(), rolls.drop_first(), amounts.drop_first()),
    decreases drops.len(),
{
    let (df, rf, af) = (drops.drop_first(), rolls.drop_first(), amounts.drop_first());
    if drops.len() == 1 {
        assert(drops.drop_last().len() == 0);
        assert(rolled_drops(df, rf, af) == Seq::<(i32, i32)>::empty());
        assert(rolled_drops(drops.drop_last(), rolls.drop_last(), amounts.drop_last())
            == Seq::<(i32, i32)>::empty());
        assert(drops.last() == drops[0] && rolls.last() == rolls[0] && amounts.last() == amounts[0]);
        assert(rolled_drops(drops, rolls, amounts) =~= rolled_one(drops[0], rolls[0], amounts[0]));
        assert(rolled_one(drops[0], rolls[0], amounts[0]) + rolled_drops(df, rf, af) =~= rolled_one(
            drops[0],
            rolls[0],
            amounts[0],
        ));
    } else {
        let (dl, rl, al) = (drops.drop_last(), rolls.drop_last(), amounts.drop_last());
        lemma_rolled_front(dl, rl, al);
        assert(dl[0] == drops[0] && rl[0] == rolls[0] && al[0] == amounts[0]);
        assert(dl.drop_first() =~= df.drop_last());
        assert(rl.drop_first() =~= rf.drop_last());
        assert(al.drop_first() =~= af.drop_last());
        assert(df.last() == drops.last() && rf.last() == rolls.last() && af.last() == amounts.last());
        let one = rolled_one(drops[0], rolls[0], amounts[0]);
        let mid = rolled_drops(df.drop_last(), rf.drop_last(), af.drop_last());
        let tail = rolled_one(drops.last(), rolls.last(), amounts.last());
        assert(rolled_drops(drops, rolls, amounts) == (one + mid) + tail);
        assert(rolled_drops(df, rf, af) == mid + tail);
        assert((one + mid) + tail =~= one + (mid + tail));
    }
}

/// Every outcome of a drop list is what some fair dice give: a drop can be
/// left out only by a roll above its chance, and kept only by a roll at
/// most its chance, each within the whole chance die.
pub proof fn lemma_outcome_reachable(drops: Seq<DropItem>, results: Seq<(i32, i32)>)
    requires
        is_drop_outcome(drops, results),
    ensures
        exists|rolls: Seq<i32>, amounts: Seq<i32>|
            #[trigger] fair_dice(drops, rolls, amounts) && rolled_drops(drops, rolls, amounts)
                == results,
    decreases drops.len(),
{
    if drops.len() == 0 {
        let e: Seq<i32> = Seq::empty();
        assert(fair_dice(drops, e, e));
        assert(rolled_drops(drops, e, e) == results);
    } else {
        let d = drops[0];
        let rest = drops.drop_first();
        let (r0, a0, tail): (i32, i32, Seq<(i32, i32)>) = if d.chance < CHANCE_DIE
            && is_drop_outcome(rest, results) {
            (CHANCE_DIE, d.min_count, results)
        } else {
            (1i32, results[0].1, results.drop_first())
        };
        assert(is_drop_outcome(rest, tail));
        lemma_outcome_reachable(rest, tail);
        let (rr, ar) = choose|rolls: Seq<i32>, amounts: Seq<i32>|
            #[trigger] fair_dice(rest, rolls, amounts) && rolled_drops(rest, rolls, amounts) == tail;
        let rolls = seq![r0] + rr;
        let amounts = seq![a0] + ar;
        assert(rolls.drop_first() =~= rr);
        assert(amounts.drop_first() =~= ar);
        assert forall|j: int| 0 <= j < drops.len() implies 1 <= #[trigger] rolls[j] <= CHANCE_DIE by {
            if j > 0 {
                assert(rolls[j] == rr[j - 1]);
            }
        }
        assert forall|j: int|
            0 <= j < drops.len() && rolls[j] <= drops[j].chance && drops[j].min_count
                != drops[j].max_count implies drops[j].min_count <= #[trigger] amounts[j]
            <= drops[j].max_count by {
            if j > 0 {
                assert(rolls[j] == rr[j - 1] && amounts[j] == ar[j - 1] && drops[j] == rest[j - 1]);
            }
        }
        assert(fair_dice(drops, rolls, amounts));
        lemma_rolled_front(drops, rolls, amounts);
        if r0 == CHANCE_DIE && d.chance < CHANCE_DIE && is_drop_outcome(rest, results) {
            assert(rolled_one(d, r0, a0) =~= Seq::<(i32, i32)>::empty());
            assert(rolled_drops(drops, rolls, amounts) =~= results);
        } else {
            assert(rolled_one(d, r0, a0) =~= seq![results[0]]);
            assert(rolled_drops(drops, rolls, amounts) =~= results);
        }
    }
}

/// The dice `rolls` and `amounts` are what `draw` can show for the drops
/// `drops`: each roll a result of `draw(1, CHANCE_DIE)`, and each amount
/// that is read (the roll at most the chance, the range not a single
/// value) a result of `draw(min_count, max_count)`.
pub open spec fn drawn_with<F: Fn(i32, i32) -> i32>(
    draw: F,
    drops: Seq<DropItem>,
    rolls: Seq<i32>,
    amounts: Seq<i32>,
) -> bool {
    &&& rolls.len() == drops.len()
    &&& amounts.len() == drops.len()
    &&& forall|j: int|
        0 <= j < drops.len() ==> call_ensures(draw, (1i32, CHANCE_DIE), #[trigger] rolls[j])
    &&& forall|j: int|
        0 <= j < drops.len() && rolls[j] <= drops[j].chance && drops[j].min_count
            != drops[j].max_count ==> call_ensures(
            draw,
            (drops[j].min_count, drops[j].max_count),
            #[trigger] amounts[j],
        )
}

/// Fair dice give an outcome of the drop list.
pub proof fn lemma_rolled_is_outcome(drops: Seq<DropItem>, rolls: Seq<i32>, amounts: Seq<i32>)
    requires
        fair_dice(drops, rolls, amounts),
    ensures
        is_drop_outcome(drops, rolled_drops(drops, rolls, amounts)),
    decreases drops.len(),
{
    if drops.len() > 0 {
        let n = drops.len() - 1;
        let dl = drops.drop_last();
        let rl = rolls.drop_last();
        let al = amounts.drop_last();
        assert forall|j: int| 0 <= j < dl.len() implies 1 <= #[trigger] rl[j] <= CHANCE_DIE by {
            assert(rl[j] == rolls[j]);
        }
        assert forall|j: int|
            0 <= j < dl.len() && rl[j] <= dl[j].chance && dl[j].min_count != dl[j].max_count implies dl[j].min_count
                <= #[trigger] al[j] <= dl[j].max_count by {
            assert(rl[j] == rolls[j] && al[j] == amounts[j] && dl[j] == drops[j]);
        }
        assert(fair_dice(dl, rl, al));
        lemma_rolled_is_outcome(dl, rl, al);
        let d = drops.last();
        assert(1 <= rolls[n] <= CHANCE_DIE);
        let got: Option<(i32, i32)> = if rolls.last() <= d.chance {
            Some((d.item_id, if d.min_count == d.max_count { d.min_count } else { amounts.last() }))
        } else {
            None
        };
        if rolls.last() <= d.chance && d.min_count != d.max_count {
            assert(d.min_count <= amounts[n] <= d.max_count);
        }
        lemma_outcome_extend(dl, rolled_drops(dl, rl, al), d, got);
        assert(dl.push(d) =~= drops);
        match got {
            Some(r) => {
                assert(rolled_drops(drops, rolls, amounts) =~= rolled_drops(dl, rl, al).push(r));
            },
            None => {
                assert(rolled_drops(drops, rolls, amounts) =~= rolled_drops(dl, rl, al));
            },
        }
    }
}

/// Drop lists keyed by monster id.
pub struct DropTable {
    pub data: HashMap<i32, Vec<DropItem>>,
}

impl DropTable {
    /// The drops of monster `mob_id`, none if it has no list.
    pub open spec fn drops_of(&self, mob_id: i32) -> Seq<DropItem> {
        if self.data@.contains_key(mob_id) {
            self.data@[mob_id]@
        } else {
            Seq::empty()
        }
    }

    /// A table without drop lists.
    pub fn new() -> (t: Self)
        ensures
            t.data@ == Map::<i32, Vec<DropItem>>::empty(),
    {
        Self { data: HashMap::new() }
    }

    /// Appends `item` to the list of its monster, starting the list if needed.
    pub fn insert_drop(&mut self, item: DropItem)
        ensures
            final(self).data@.dom() == old(self).data@.dom().insert(item.mob_id),
            forall|m: i32|
                m != item.mob_id ==> #[trigger] final(self).drops_of(m) == old(self).drops_of(m),
            final(self).drops_of(item.mob_id) == old(self).drops_of(item.mob_id).push(item),
    {
        let mut list = match self.data.remove(&item.mob_id) {
            Some(v) => v,
            None => Vec::new(),
        };
        list.push(item);
        self.data.insert(item.mob_id, list);
        assert(self.data@.dom() =~= old(self).data@.dom().insert(item.mob_id));
    }

    /// The table that groups `items` by monster: each monster that some item
    /// names gets the list of its items, in the order given.
    pub fn from_drops(items: Vec<DropItem>) -> (t: Self)
        ensures
            forall|m: i32| #[trigger] t.drops_of(m) == drops_for(items@, m),
            forall|m: i32|
                #[trigger] t.data@.contains_key(m) <==> exists|j: int|
                    0 <= j < items@.len() && items@[j].mob_id == m,
    {
        let mut t = DropTable::new();
        let n = items.len();
        let mut i: usize = 0;
        while i < n
            invariant
                i <= n,
                n == items@.len(),
                forall|m: i32| #[trigger] t.drops_of(m) == drops_for(items@.take(i as int), m),
                forall|m: i32|
                    #[trigger] t.data@.contains_key(m) <==> exists|j: int|
                        0 <= j < i && items@[j].mob_id == m,
            decreases n - i,
        {
            let item = items[i];
            let ghost before = t;
            t.insert_drop(item);
            proof {
                let pre = items@.take(i as int);
                assert(items@.take(i + 1) =~= pre.push(item));
                assert forall|m: i32| #[trigger] t.drops_of(m) == drops_for(
                    items@.take(i + 1),
                    m,
                ) by {
                    pre.lemma_filter_push(item, |d: DropItem| d.mob_id == m);
                    if m != item.mob_id {
                        assert(t.drops_of(m) == before.drops_of(m));
                    }
                }
                assert forall|m: i32|
                    #[trigger] t.data@.contains_key(m) <==> exists|j: int|
                        0 <= j < i + 1 && items@[j].mob_id == m by {
                    if t.data@.contains_key(m) && m != item.mob_id {
                        assert(before.data@.contains_key(m));
                    }
                    if exists|j: int| 0 <= j < i + 1 && items@[j].mob_id == m {
                        let j = choose|j: int| 0 <= j < i + 1 && items@[j].mob_id == m;
                        if j < i {
                            assert(before.data@.contains_key(m));
                        }
                    }
                }
            }
            i = i + 1;
        }
        assert(items@.take(n as int) =~= items@);
        t
    }

    /// The drop list of monster `mob_id`, if it has one.
    pub fn get_drops(&self, mob_id: i32) -> (r: Option<&Vec<DropItem>>)
        ensures
            match r {
                Some(v) => self.data@.contains_key(mob_id) && *v == self.data@[mob_id],
                None => !self.data@.contains_key(mob_id),
            },
    {
        self.data.get(&mob_id)
    }

    /// Rolls every drop of monster `mob_id` once with the die `draw` and
    /// returns, in list order, the item id and amount of each one that drops:
    /// a drop falls when `draw(1, CHANCE_DIE)` shows at most its chance, and
    /// an amount that varies is `draw(min_count, max_count)`.
    pub fn calculate_drops_with<F: Fn(i32, i32) -> i32>(&self, mob_id: i32, draw: F) -> (results:
        Vec<(i32, i32)>)
        requires
            counts_ordered(self.drops_of(mob_id)),
            forall|lo: i32, hi: i32| lo <= hi ==> #[trigger] call_requires(draw, (lo, hi)),
            forall|lo: i32, hi: i32, r: i32| #[trigger] call_ensures(draw, (lo, hi), r) ==> lo <= r <= hi,
        ensures
            exists|rolls: Seq<i32>, amounts: Seq<i32>|
                #[trigger] drawn_with(draw, self.drops_of(mob_id), rolls, amounts) && results@
                    == rolled_drops(self.drops_of(mob_id), rolls, amounts),
    {
        let ghost drops = self.drops_of(mob_id);
        let mut results: Vec<(i32, i32)> = Vec::new();
        let ghost mut rolls: Seq<i32> = Seq::empty();
        let ghost mut amounts: Seq<i32> = Seq::empty();
        match self.get_drops(mob_id) {
            None => {
                assert(results@ =~= rolled_drops(drops, rolls, amounts));
                assert(drawn_with(draw, drops, rolls, amounts));
            },
            Some(possible_drops) => {
                let n = possible_drops.len();
                let mut j: usize = 0;
                while j < n
                    invariant
                        j <= n,
                        n == drops.len(),
                        drops == possible_drops@,
                        counts_ordered(drops),
                        forall|lo: i32, hi: i32| lo <= hi ==> #[trigger] call_requires(draw, (lo, hi)),
                        forall|lo: i32, hi: i32, r: i32|
                            #[trigger] call_ensures(draw, (lo, hi), r) ==> lo <= r <= hi,
                        rolls.len() == j,
                        amounts.len() == j,
                        forall|i: int|
                            0 <= i < j ==> call_ensures(draw, (1i32, CHANCE_DIE), #[trigger] rolls[i]),
                        forall|i: int|
                            0 <= i < j && rolls[i] <= drops[i].chance && drops[i].min_count
                                != drops[i].max_count ==> call_ensures(
                                draw,
                                (drops[i].min_count, drops[i].max_count),
                                #[trigger] amounts[i],
                            ),
                        results@ == rolled_drops(drops.take(j as int), rolls, amounts),
                    decreases n - j,
                {
                    let drop = &possible_drops[j];
                    let roll = draw(1, CHANCE_DIE);
                    let amount = if roll <= drop.chance && drop.min_count != drop.max_count {
                        assert(drop.min_count <= drop.max_count);
                        draw(drop.min_count, drop.max_count)
                    } else {
                        drop.min_count
                    };
                    let got = resolve_drop(drop, roll, amount);
                    if let Some(r) = got {
                        results.push(r);
                    }
                    proof {
                        let pre_d = drops.take(j as int);
                        let pre_r = rolls;
                        let pre_a = amounts;
                        rolls = rolls.push(roll);
                        amounts = amounts.push(amount);
                        let d2 = drops.take(j + 1);
                        assert(d2.drop_last() =~= pre_d);
                        assert(d2.last() == *drop);
                        assert(rolls.drop_last() =~= pre_r);
                        assert(amounts.drop_last() =~= pre_a);
                        assert(results@ =~= rolled_drops(d2, rolls, amounts));
                    }
                    j = j + 1;
                }
                assert(drops.take(n as int) =~= drops);
                assert(drawn_with(draw, drops, rolls, amounts));
            },
        }
        results
    }

    /// Rolls every drop of monster `mob_id` once and returns, in list order,
    /// the item id and amount of each one that drops. The dice are the
    /// thread's random generator, the chance die over `1..=CHANCE_DIE`; the
    /// result is some outcome of the drop list.
    pub fn calculate_drops(&self, mob_id: i32) -> (results: Vec<(i32, i32)>)
        requires
            counts_ordered(self.drops_of(mob_id)),
        ensures
            is_drop_outcome(self.drops_of(mob_id), results@),
    {
        let die = |lo: i32, hi: i32| -> (r: i32)
            requires
                lo <= hi,
            ensures
                lo <= r <= hi,
            { random_in(lo, hi) };
        let results = self.calculate_drops_with(mob_id, die);
        proof {
            let drops = self.drops_of(mob_id);
            let (rolls, amounts) = choose|rolls: Seq<i32>, amounts: Seq<i32>|
                #[trigger] drawn_with(die, drops, rolls, amounts) && results@ == rolled_drops(
                    drops,
                    rolls,
                    amounts,
                );
            assert forall|j: int| 0 <= j < drops.len() implies 1 <= #[trigger] rolls[j] <= CHANCE_DIE by {
                assert(call_ensures(die, (1i32, CHANCE_DIE), rolls[j]));
            }
            assert forall|j: int|
                0 <= j < drops.len() && rolls[j] <= drops[j].chance && drops[j].min_count
                    != drops[j].max_count implies drops[j].min_count <= #[trigger] amounts[j]
                <= drops[j].max_count by {
                assert(call_ensures(die, (drops[j].min_count, drops[j].max_count), amounts[j]));
            }
            assert(fair_dice(drops, rolls, amounts));
            lemma_rolled_is_outcome(drops, rolls, amounts);
        }
        results
    }
}

/// Extending an outcome of `drops` by what one more drop gave (its item, or
/// nothing) gives an outcome of the longer list, provided the die could
/// give that.
proof fn lemma_outcome_extend(
    drops: Seq<DropItem>,
    results: Seq<(i32, i32)>,
    d: DropItem,
    got: Option<(i32, i32)>,
)
    requires
        is_drop_outcome(drops, results),
        match got {
            Some(r) => d.chance >= 1 && r.0 == d.item_id && count_fits(d, r.1),
            None => d.chance < CHANCE_DIE,
        },
    ensures
        is_drop_outcome(
            drops.push(d),
            match got {
                Some(r) => results.push(r),
                None => results,
            },
        ),
    decreases drops.len(),
{
    let ext = match got {
        Some(r) => results.push(r),
        None => results,
    };
    let long = drops.push(d);
    assert(long[0] == (if drops.len() == 0 { d } else { drops[0] }));
    if drops.len() == 0 {
        assert(results.len() == 0);
        assert(long.drop_first() =~= Seq::<DropItem>::empty());
        match got {
            Some(r) => {
                assert(ext.drop_first() =~= Seq::<(i32, i32)>::empty());
                assert(is_drop_outcome(long.drop_first(), ext.drop_first()));
            },
            None => {
                assert(ext.len() == 0);
                assert(is_drop_outcome(long.drop_first(), ext));
            },
        }
    } else {
        let d0 = drops[0];
        assert(long.drop_first() =~= drops.drop_first().push(d));
        if d0.chance < CHANCE_DIE && is_drop_outcome(drops.drop_first(), results) {
            lemma_outcome_extend(drops.drop_first(), results, d, got);
            assert(is_drop_outcome(long.drop_first(), ext));
        } else {
            lemma_outcome_extend(drops.drop_first(), results.drop_first(), d, got);
            assert(results.len() > 0);
            match got {
                Some(r) => {
                    assert(ext[0] == results[0]);
                    assert(ext.drop_first() =~= results.drop_first().push(r));
                },
                None => {},
            }
            assert(is_drop_outcome(long.drop_first(), ext.drop_first()));
        }
    }
}

} // verus!
