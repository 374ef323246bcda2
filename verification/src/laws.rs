//! The engine's cross-operation guarantees, proved once and for all over the
//! session shapes that the store's contracts establish.

use vstd::prelude::*;

use crate::model::{GroupBuy, GroupBuyOrder, GroupBuyStatus, Item};
use crate::store::{items_updated, order_adjusted, post_id_bound, status_updated, version_matches};

verus! {

/// One successful versioned mutation: a menu replacement or a status switch,
/// exactly as the ensures of `update_items` and `update_status` shape it.
pub open spec fn session_advanced(pre: GroupBuy, post: GroupBuy) -> bool {
    ||| (exists|items: Seq<Item>, now: Seq<char>| items_updated(pre, post, items, now))
    ||| (exists|status: GroupBuyStatus, now: Seq<char>| status_updated(pre, post, status, now))
}

/// Any step a session row can take in the store: a versioned mutation, a
/// panel binding, or no change (order mutations leave the row alone).
pub open spec fn session_step(pre: GroupBuy, post: GroupBuy) -> bool {
    ||| session_advanced(pre, post)
    ||| (pre.post_id is None && exists|p: Seq<char>, now: Seq<char>|
        post_id_bound(pre, post, p, now))
    ||| post == pre
}

/// Version monotonicity: across any chain of successful `update_items` /
/// `update_status` calls, the version after the `t`-th call is exactly the
/// starting version plus `t`; in particular it strictly increases, and so do
/// the pre-call versions the audit entries record.
pub proof fn lemma_version_monotonicity(chain: Seq<GroupBuy>)
    requires
        chain.len() > 0,
        forall|t: int|
            0 <= t < chain.len() - 1 ==> session_advanced(
                #[trigger] chain[t],
                chain[t + 1],
            ),
    ensures
        forall|t: int|
            0 <= t < chain.len() ==> (#[trigger] chain[t]).version == chain[0].version + t,
        forall|a: int, b: int|
            0 <= a < b < chain.len() ==> (#[trigger] chain[a]).version < (
            #[trigger] chain[b]).version,
    decreases chain.len(),
{
    if chain.len() > 1 {
        let front = chain.drop_last();
        assert(forall|t: int| 0 <= t < front.len() ==> #[trigger] front[t] == chain[t]);
        lemma_version_monotonicity(front);
        let n = chain.len() - 1;
        assert(session_advanced(chain[n - 1], chain[n]));
        assert(chain[n].version == chain[n - 1].version + 1);
        assert(front[0] == chain[0]);
        assert forall|t: int| 0 <= t < chain.len() implies (#[trigger] chain[t]).version
            == chain[0].version + t by {
            if t < n {
                assert(front[t].version == front[0].version + t);
            } else {
                assert(front[n - 1].version == front[0].version + (n - 1));
            }
        }
    }
}

/// Optimistic exclusivity: once a mutation from version `expected` has
/// applied, no further mutation expecting the same version can match; the
/// store then answers `VersionConflict` and changes no row, as the refusal
/// clauses of `update_items` and `update_status` state.
pub proof fn lemma_optimistic_exclusivity(pre: GroupBuy, post: GroupBuy, expected: int)
    requires
        session_advanced(pre, post),
        version_matches(pre, expected),
    ensures
        !version_matches(post, expected),
{
}

/// A shortage adjustment never clears or rewrites `original_quantity` once
/// it is set: along any chain of adjustments of one order, the value set
/// first is the value kept.
pub proof fn lemma_original_quantity_preserved(chain: Seq<GroupBuyOrder>, qs: Seq<int>)
    requires
        chain.len() == qs.len() + 1,
        forall|t: int|
            0 <= t < qs.len() ==> order_adjusted(#[trigger] chain[t], chain[t + 1], qs[t]),
    ensures
        forall|a: int, b: int|
            0 <= a <= b < chain.len() && (#[trigger] chain[a]).original_quantity is Some ==> (
            #[trigger] chain[b]).original_quantity == chain[a].original_quantity,
{
    assert forall|a: int, b: int|
        0 <= a <= b < chain.len() && (#[trigger] chain[a]).original_quantity is Some implies (
    #[trigger] chain[b]).original_quantity == chain[a].original_quantity by {
        lemma_original_preserved_between(chain, qs, a, b);
    }
}

proof fn lemma_original_preserved_between(chain: Seq<GroupBuyOrder>, qs: Seq<int>, a: int, b: int)
    requires
        chain.len() == qs.len() + 1,
        forall|t: int|
            0 <= t < qs.len() ==> order_adjusted(#[trigger] chain[t], chain[t + 1], qs[t]),
        0 <= a <= b < chain.len(),
        chain[a].original_quantity is Some,
    ensures
        chain[b].original_quantity == chain[a].original_quantity,
    decreases b - a,
{
    if b > a {
        lemma_original_preserved_between(chain, qs, a, b - 1);
        assert(order_adjusted(chain[b - 1], chain[b], qs[b - 1]));
    }
}

/// Post-id one-shot: across any chain of store steps, once the panel post is
/// bound the binding never changes.
pub proof fn lemma_post_id_one_shot(chain: Seq<GroupBuy>)
    requires
        forall|t: int|
            0 <= t < chain.len() - 1 ==> session_step(#[trigger] chain[t], chain[t + 1]),
    ensures
        forall|a: int, b: int|
            0 <= a <= b < chain.len() && (#[trigger] chain[a]).post_id is Some ==> (
            #[trigger] chain[b]).post_id == chain[a].post_id,
{
    assert forall|a: int, b: int|
        0 <= a <= b < chain.len() && (#[trigger] chain[a]).post_id is Some implies (
    #[trigger] chain[b]).post_id == chain[a].post_id by {
        lemma_post_id_preserved_between(chain, a, b);
    }
}

proof fn lemma_post_id_preserved_between(chain: Seq<GroupBuy>, a: int, b: int)
    requires
        forall|t: int|
            0 <= t < chain.len() - 1 ==> session_step(#[trigger] chain[t], chain[t + 1]),
        0 <= a <= b < chain.len(),
        chain[a].post_id is Some,
    ensures
        chain[b].post_id == chain[a].post_id,
    decreases b - a,
{
    if b > a {
        lemma_post_id_preserved_between(chain, a, b - 1);
        assert(session_step(chain[b - 1], chain[b]));
    }
}

} // verus!
