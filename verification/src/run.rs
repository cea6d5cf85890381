//! What holds of a pig over one tick and over many: how long it lives, and
//! when it is sold.

use vstd::prelude::*;
use crate::economy::{PIG_PAYOUT, PIG_PRICE};
use crate::pig::{
    bumped, expires, lemma_bumped_keeps, lemma_wandered_keeps, outlives, Pig, PIG_LIFETIME,
};
use crate::player::Contact;
use crate::world::{shied, sold_in, survivors, ticked, TickInput, TickOutput, World};

verus! {

/// Some pig of the herd has the identifier `id`.
pub open spec fn holds(pigs: Seq<Pig>, id: u64) -> bool {
    exists|i: int| 0 <= i < pigs.len() && (#[trigger] pigs[i]).id == id
}

/// Some pig of the herd has the identifier `id` and `remaining`
/// milliseconds to live.
pub open spec fn holds_with(pigs: Seq<Pig>, id: u64, remaining: int) -> bool {
    exists|i: int|
        0 <= i < pigs.len() && (#[trigger] pigs[i]).id == id && pigs[i].lifetime.remaining
            == remaining
}

/// Every pig that a tick leaves alive was in the herd before, with more
/// than `dt` milliseconds to live.
pub proof fn lemma_survivor_was_alive(herd: Seq<Pig>, contacts: Seq<Contact>, dt: u16, j: int)
    requires
        0 <= j < survivors(herd, contacts, dt).len(),
    ensures
        exists|i: int|
            0 <= i < herd.len() && dt < (#[trigger] herd[i]).lifetime.remaining && survivors(
                herd,
                contacts,
                dt,
            )[j] == bumped(herd[i], contacts, dt).aged(dt),
{
    let touched = shied(herd, contacts, dt);
    let kept = touched.filter(outlives(dt));
    touched.lemma_filter_pred(outlives(dt), j);
    assert(kept.contains(kept[j]));
    touched.lemma_filter_contains_rev(outlives(dt), kept[j]);
    let i = choose|i: int| 0 <= i < touched.len() && touched[i] == kept[j];
    lemma_bumped_keeps(herd[i], contacts, dt);
    assert(dt < herd[i].lifetime.remaining);
}

/// Every pig sold by a tick was in the herd before, with `dt` milliseconds
/// to live or less.
pub proof fn lemma_sold_was_due(herd: Seq<Pig>, contacts: Seq<Contact>, dt: u16, j: int)
    requires
        0 <= j < sold_in(herd, contacts, dt).len(),
    ensures
        exists|i: int|
            0 <= i < herd.len() && dt >= (#[trigger] herd[i]).lifetime.remaining && sold_in(
                herd,
                contacts,
                dt,
            )[j] == herd[i].id,
{
    let touched = shied(herd, contacts, dt);
    let gone = touched.filter(expires(dt));
    touched.lemma_filter_pred(expires(dt), j);
    assert(gone.contains(gone[j]));
    touched.lemma_filter_contains_rev(expires(dt), gone[j]);
    let i = choose|i: int| 0 <= i < touched.len() && touched[i] == gone[j];
    lemma_bumped_keeps(herd[i], contacts, dt);
    assert(dt >= herd[i].lifetime.remaining);
}

/// A pig with more than `dt` milliseconds to live is alive after a tick of
/// `dt` milliseconds, with that much less to live, whatever touched it.
pub proof fn lemma_tick_keeps_the_living(
    before: World,
    input: TickInput,
    after: World,
    output: TickOutput,
    i: int,
)
    requires
        ticked(before, input, after, output),
        0 <= i < before.pig_parent.pigs@.len(),
        input.dt < before.pig_parent.pigs@[i].lifetime.remaining,
    ensures
        holds_with(
            after.pig_parent.pigs@,
            before.pig_parent.pigs@[i].id,
            before.pig_parent.pigs@[i].lifetime.remaining - input.dt,
        ),
{
    let herd = before.pig_parent.pigs@;
    let dt = input.dt;
    let touched = shied(herd, input.contacts@, dt);
    let kept = touched.filter(outlives(dt));
    let alive = survivors(herd, input.contacts@, dt);
    lemma_bumped_keeps(herd[i], input.contacts@, dt);
    touched.lemma_filter_contains(outlives(dt), i);
    let j = choose|j: int| 0 <= j < kept.len() && kept[j] == touched[i];
    assert(alive[j] == touched[i].aged(dt));
    lemma_wandered_keeps(alive[j], after.pig_parent.pigs@[j], dt);
    assert(after.pig_parent.pigs@[j].id == herd[i].id);
}

/// A pig with `dt` milliseconds to live or less is sold by a tick of `dt`
/// milliseconds, whatever touched it.
pub proof fn lemma_tick_sells_the_due(
    before: World,
    input: TickInput,
    after: World,
    output: TickOutput,
    i: int,
)
    requires
        ticked(before, input, after, output),
        0 <= i < before.pig_parent.pigs@.len(),
        input.dt >= before.pig_parent.pigs@[i].lifetime.remaining,
    ensures
        output.sold@.contains(before.pig_parent.pigs@[i].id),
{
    let herd = before.pig_parent.pigs@;
    let dt = input.dt;
    let touched = shied(herd, input.contacts@, dt);
    let gone = touched.filter(expires(dt));
    lemma_bumped_keeps(herd[i], input.contacts@, dt);
    touched.lemma_filter_contains(expires(dt), i);
    let j = choose|j: int| 0 <= j < gone.len() && gone[j] == touched[i];
    assert(output.sold@[j] == herd[i].id);
}

/// A pig that is in the herd after a tick was in it before, with more than
/// `dt` milliseconds to live, or was bought in that tick.
pub proof fn lemma_tick_makes_no_pigs(
    before: World,
    input: TickInput,
    after: World,
    output: TickOutput,
    j: int,
)
    requires
        ticked(before, input, after, output),
        0 <= j < after.pig_parent.pigs@.len(),
    ensures
        ({
            ||| exists|i: int|
                0 <= i < before.pig_parent.pigs@.len() && (
                #[trigger] before.pig_parent.pigs@[i]).id == after.pig_parent.pigs@[j].id
                    && input.dt < before.pig_parent.pigs@[i].lifetime.remaining
            ||| output.spawned == Some(after.pig_parent.pigs@[j])
                && after.pig_parent.pigs@[j].id == before.pig_parent.next_id
        }),
{
    let herd = before.pig_parent.pigs@;
    let dt = input.dt;
    let alive = survivors(herd, input.contacts@, dt);
    if j < alive.len() {
        lemma_survivor_was_alive(herd, input.contacts@, dt, j);
        let i = choose|i: int|
            0 <= i < herd.len() && dt < (#[trigger] herd[i]).lifetime.remaining && alive[j]
                == bumped(herd[i], input.contacts@, dt).aged(dt);
        lemma_bumped_keeps(herd[i], input.contacts@, dt);
        lemma_wandered_keeps(alive[j], after.pig_parent.pigs@[j], dt);
        assert(herd[i].id == after.pig_parent.pigs@[j].id);
    }
}

/// A tick sells only pigs of the herd whose time is up.
pub proof fn lemma_tick_sells_only_the_due(
    before: World,
    input: TickInput,
    after: World,
    output: TickOutput,
    id: u64,
)
    requires
        ticked(before, input, after, output),
        output.sold@.contains(id),
    ensures
        exists|i: int|
            0 <= i < before.pig_parent.pigs@.len() && (#[trigger] before.pig_parent.pigs@[i]).id
                == id && input.dt >= before.pig_parent.pigs@[i].lifetime.remaining,
{
    let herd = before.pig_parent.pigs@;
    let j = choose|j: int| 0 <= j < output.sold@.len() && output.sold@[j] == id;
    lemma_sold_was_due(herd, input.contacts@, input.dt, j);
}

/// A run of ticks: every world is well formed, and each comes from the one
/// before it by a tick.
pub open spec fn is_run(worlds: Seq<World>, inputs: Seq<TickInput>, outputs: Seq<TickOutput>) -> bool {
    &&& worlds.len() == inputs.len() + 1
    &&& outputs.len() == inputs.len()
    &&& forall|k: int| 0 <= k < worlds.len() ==> (#[trigger] worlds[k]).wf()
    &&& forall|k: int|
        0 <= k < inputs.len() ==> ticked(worlds[k], #[trigger] inputs[k], worlds[k + 1], outputs[k])
}

/// The milliseconds that pass in the ticks from `from` up to, and without,
/// `to`.
pub open spec fn elapsed(inputs: Seq<TickInput>, from: int, to: int) -> int
    decreases to - from,
{
    if to <= from {
        0
    } else {
        elapsed(inputs, from, to - 1) + inputs[to - 1].dt
    }
}

/// A pig lives for `PIG_LIFETIME` milliseconds, whatever touches it.
///
/// Of the pig that the tick `born` of a run bought: before the tick `now`
/// it is in the herd exactly if the ticks since it was bought add up to
/// less than `PIG_LIFETIME`, and it then has the rest of that time to
/// live. Its identifier is never given to another pig.
pub proof fn lemma_pig_lives_its_lifetime(
    worlds: Seq<World>,
    inputs: Seq<TickInput>,
    outputs: Seq<TickOutput>,
    born: int,
    now: int,
)
    requires
        is_run(worlds, inputs, outputs),
        0 <= born < now <= inputs.len(),
        outputs[born].spawned is Some,
    ensures
        ({
            let id = outputs[born].spawned->0.id;
            let lived = elapsed(inputs, born + 1, now);
            let herd = worlds[now].pig_parent.pigs@;
            &&& lived < PIG_LIFETIME ==> holds_with(herd, id, PIG_LIFETIME - lived)
            &&& lived >= PIG_LIFETIME ==> !holds(herd, id)
            &&& id < worlds[now].pig_parent.next_id
        }),
    decreases now - born,
{
    let id = outputs[born].spawned->0.id;
    let lived = elapsed(inputs, born + 1, now);
    let herd = worlds[now].pig_parent.pigs@;
    if now == born + 1 {
        assert(ticked(worlds[born], inputs[born], worlds[born + 1], outputs[born]));
        assert(elapsed(inputs, born + 1, born) == 0);
        assert(herd[herd.len() - 1] == herd.last());
    } else {
        let before = worlds[now - 1];
        let dt = inputs[now - 1].dt;
        let earlier = elapsed(inputs, born + 1, now - 1);
        lemma_elapsed_never_negative(inputs, born + 1, now - 1);
        lemma_pig_lives_its_lifetime(worlds, inputs, outputs, born, now - 1);
        assert(ticked(before, inputs[now - 1], worlds[now], outputs[now - 1]));
        assert(before.wf());
        if earlier < PIG_LIFETIME && lived < PIG_LIFETIME {
            let i = choose|i: int|
                0 <= i < before.pig_parent.pigs@.len() && (#[trigger] before.pig_parent.pigs@[i]).id
                    == id && before.pig_parent.pigs@[i].lifetime.remaining == PIG_LIFETIME
                    - earlier;
            lemma_tick_keeps_the_living(before, inputs[now - 1], worlds[now], outputs[now - 1], i);
        } else {
            if holds(herd, id) {
                let j = choose|j: int| 0 <= j < herd.len() && (#[trigger] herd[j]).id == id;
                lemma_tick_makes_no_pigs(before, inputs[now - 1], worlds[now], outputs[now - 1], j);
                lemma_one_pig_per_id(before, id);
            }
        }
    }
}

/// A pig is sold in the tick in which its lifetime is up, and in no other.
///
/// Of the pig that the tick `born` of a run bought: a later tick sells it
/// exactly if the ticks between the two add up to less than
/// `PIG_LIFETIME`, and to that or more with the later tick itself.
pub proof fn lemma_pig_sold_when_due(
    worlds: Seq<World>,
    inputs: Seq<TickInput>,
    outputs: Seq<TickOutput>,
    born: int,
    tick: int,
)
    requires
        is_run(worlds, inputs, outputs),
        0 <= born < tick < inputs.len(),
        outputs[born].spawned is Some,
    ensures
        outputs[tick].sold@.contains(outputs[born].spawned->0.id) <==> elapsed(
            inputs,
            born + 1,
            tick,
        ) < PIG_LIFETIME <= elapsed(inputs, born + 1, tick + 1),
{
    let id = outputs[born].spawned->0.id;
    let before = worlds[tick];
    let dt = inputs[tick].dt;
    let earlier = elapsed(inputs, born + 1, tick);
    lemma_pig_lives_its_lifetime(worlds, inputs, outputs, born, tick);
    assert(ticked(before, inputs[tick], worlds[tick + 1], outputs[tick]));
    assert(before.wf());
    assert(elapsed(inputs, born + 1, tick + 1) == earlier + dt);
    if outputs[tick].sold@.contains(id) {
        lemma_tick_sells_only_the_due(before, inputs[tick], worlds[tick + 1], outputs[tick], id);
    }
    lemma_one_pig_per_id(before, id);
    if earlier < PIG_LIFETIME {
        let i = choose|i: int|
            0 <= i < before.pig_parent.pigs@.len() && (#[trigger] before.pig_parent.pigs@[i]).id
                == id && before.pig_parent.pigs@[i].lifetime.remaining == PIG_LIFETIME - earlier;
        if dt >= PIG_LIFETIME - earlier {
            lemma_tick_sells_the_due(before, inputs[tick], worlds[tick + 1], outputs[tick], i);
        }
    }
}

/// Time does not run backwards.
pub proof fn lemma_elapsed_never_negative(inputs: Seq<TickInput>, from: int, to: int)
    ensures
        0 <= elapsed(inputs, from, to),
    decreases to - from,
{
    if to > from {
        lemma_elapsed_never_negative(inputs, from, to - 1);
    }
}

/// In a well-formed world two places in the herd that hold the same
/// identifier are the same place.
pub proof fn lemma_one_pig_per_id(world: World, id: u64)
    requires
        world.wf(),
    ensures
        forall|i: int, j: int|
            0 <= i < world.pig_parent.pigs@.len() && 0 <= j < world.pig_parent.pigs@.len() && (
            #[trigger] world.pig_parent.pigs@[i]).id == id && (
            #[trigger] world.pig_parent.pigs@[j]).id == id ==> i == j,
        holds(world.pig_parent.pigs@, id) ==> id < world.pig_parent.next_id,
{
    let herd = world.pig_parent.pigs@;
    assert forall|i: int, j: int|
        0 <= i < herd.len() && 0 <= j < herd.len() && (#[trigger] herd[i]).id == id && (
        #[trigger] herd[j]).id == id implies i == j by {
        if i < j {
            assert(herd[i].id != herd[j].id);
        } else if j < i {
            assert(herd[j].id != herd[i].id);
        }
    }
}

/// Picking pigs out of a herd in which no two share an identifier gives a
/// herd in which no two share one.
pub proof fn lemma_filter_keeps_pigs_apart(pigs: Seq<Pig>, pred: spec_fn(Pig) -> bool)
    requires
        forall|i: int, j: int|
            0 <= i < j < pigs.len() ==> (#[trigger] pigs[i]).id != (#[trigger] pigs[j]).id,
    ensures
        forall|a: int, b: int|
            0 <= a < b < pigs.filter(pred).len() ==> (#[trigger] pigs.filter(pred)[a]).id != (
            #[trigger] pigs.filter(pred)[b]).id,
    decreases pigs.len(),
{
    reveal(Seq::filter);
    if pigs.len() > 0 {
        let rest = pigs.drop_last();
        let kept = rest.filter(pred);
        lemma_filter_keeps_pigs_apart(rest, pred);
        if pred(pigs.last()) {
            assert forall|a: int, b: int| 0 <= a < b < pigs.filter(pred).len() implies (
            #[trigger] pigs.filter(pred)[a]).id != (#[trigger] pigs.filter(pred)[b]).id by {
                if b == kept.len() {
                    assert(kept.contains(kept[a]));
                    rest.lemma_filter_contains_rev(pred, kept[a]);
                    let k = choose|k: int| 0 <= k < rest.len() && rest[k] == kept[a];
                    assert(pigs[k].id != pigs[pigs.len() - 1].id);
                } else {
                    assert(kept[a].id != kept[b].id);
                }
            }
        }
    }
}

/// A tick sells no pig twice.
pub proof fn lemma_tick_sells_each_once(
    before: World,
    input: TickInput,
    after: World,
    output: TickOutput,
)
    requires
        before.wf(),
        ticked(before, input, after, output),
    ensures
        output.sold@.no_duplicates(),
{
    let herd = before.pig_parent.pigs@;
    let touched = shied(herd, input.contacts@, input.dt);
    assert forall|i: int, j: int| 0 <= i < j < touched.len() implies (#[trigger] touched[i]).id
        != (#[trigger] touched[j]).id by {
        lemma_bumped_keeps(herd[i], input.contacts@, input.dt);
        lemma_bumped_keeps(herd[j], input.contacts@, input.dt);
        assert(herd[i].id != herd[j].id);
    }
    lemma_filter_keeps_pigs_apart(touched, expires(input.dt));
    let gone = touched.filter(expires(input.dt));
    assert forall|a: int, b: int|
        0 <= a < output.sold@.len() && 0 <= b < output.sold@.len() && a != b implies output.sold@[a]
        != output.sold@[b] by {
        if a < b {
            assert(gone[a].id != gone[b].id);
        } else {
            assert(gone[b].id != gone[a].id);
        }
    }
}

/// The balance moves by the price of a pig and by the payout for a pig, and
/// by nothing else: a tick adds `PIG_PAYOUT` for each pig that it sells,
/// and takes `PIG_PRICE` if it buys one, which it does only where the
/// balance covers it.
pub proof fn lemma_balance_moves_by_price_and_payout(
    before: World,
    input: TickInput,
    after: World,
    output: TickOutput,
)
    requires
        ticked(before, input, after, output),
    ensures
        after.money.0 == before.money.0 + PIG_PAYOUT * output.sold@.len() - PIG_PRICE * bought(
            output,
        ),
        output.spawned is Some ==> before.money.0 + PIG_PAYOUT * output.sold@.len() >= PIG_PRICE,
        output.spawned is Some ==> input.keys.spawn,
{
}

/// How many pigs a tick bought: one or none.
pub open spec fn bought(output: TickOutput) -> nat {
    if output.spawned is Some {
        1
    } else {
        0
    }
}

/// How many pigs the first `to` ticks sold.
pub open spec fn sold_so_far(outputs: Seq<TickOutput>, to: int) -> nat
    decreases to,
{
    if to <= 0 {
        0
    } else {
        sold_so_far(outputs, to - 1) + outputs[to - 1].sold@.len()
    }
}

/// How many pigs the first `to` ticks bought.
pub open spec fn bought_so_far(outputs: Seq<TickOutput>, to: int) -> nat
    decreases to,
{
    if to <= 0 {
        0
    } else {
        bought_so_far(outputs, to - 1) + bought(outputs[to - 1])
    }
}

/// Over a run the balance is what it was at the start, plus `PIG_PAYOUT`
/// for every pig sold since, less `PIG_PRICE` for every pig bought since.
pub proof fn lemma_balance_over_a_run(
    worlds: Seq<World>,
    inputs: Seq<TickInput>,
    outputs: Seq<TickOutput>,
    now: int,
)
    requires
        is_run(worlds, inputs, outputs),
        0 <= now <= inputs.len(),
    ensures
        worlds[now].money.0 == worlds[0].money.0 + PIG_PAYOUT * sold_so_far(outputs, now)
            - PIG_PRICE * bought_so_far(outputs, now),
    decreases now,
{
    if now > 0 {
        lemma_balance_over_a_run(worlds, inputs, outputs, now - 1);
        assert(ticked(worlds[now - 1], inputs[now - 1], worlds[now], outputs[now - 1]));
        let sold: nat = sold_so_far(outputs, now - 1);
        let more: nat = outputs[now - 1].sold@.len();
        let paid: nat = bought_so_far(outputs, now - 1);
        let pays: nat = bought(outputs[now - 1]);
        assert(PIG_PAYOUT * (sold + more) == PIG_PAYOUT * sold + PIG_PAYOUT * more
            && PIG_PRICE * (paid + pays) == PIG_PRICE * paid + PIG_PRICE * pays)
            by (nonlinear_arith);
    }
}

} // verus!
