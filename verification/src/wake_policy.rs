//! The wake policy: when the loop should next run, how requests merge into
//! one policy, and how a deadline that is already due is rewritten.

use vstd::prelude::*;
use crate::clock::Instant;

verus! {

/// How far ahead of the clock a deadline still counts as already reached,
/// in nanoseconds.
pub const SANITIZE_MARGIN_NANOS: u64 = 100_000;

/// When the loop should run again.
#[derive(Clone, Copy, Debug, PartialEq, Eq, Structural)]
pub enum WakePolicy {
    /// Run again as soon as possible.
    Now,
    /// Run again no earlier than the instant.
    At(Instant),
    /// Run again only when an external event arrives.
    Idle,
}

impl WakePolicy {
    /// The order of strengths: `Now` above every `At`, an earlier `At` above
    /// a later one, every `At` above `Idle`.
    pub open spec fn at_least_as_strong_as(self, other: WakePolicy) -> bool {
        match (self, other) {
            (WakePolicy::Now, _) => true,
            (WakePolicy::At(t), WakePolicy::At(u)) => t.nanos <= u.nanos,
            (WakePolicy::At(_), WakePolicy::Idle) => true,
            (WakePolicy::Idle, WakePolicy::Idle) => true,
            _ => false,
        }
    }

    /// Whether `self`, proposed while `current` is in force, takes its place:
    /// `Now` always does, an `At` does over `Idle` and over a later `At`,
    /// `Idle` never does.
    pub open spec fn displaces(self, current: WakePolicy) -> bool {
        match self {
            WakePolicy::Now => true,
            WakePolicy::At(t_new) => match current {
                WakePolicy::Now => false,
                WakePolicy::At(t_old) => t_new.nanos < t_old.nanos,
                WakePolicy::Idle => true,
            },
            WakePolicy::Idle => false,
        }
    }

    /// Whether the policy is a deadline that `now` has reached, or will
    /// reach within the margin.
    pub open spec fn is_due(self, now: Instant) -> bool {
        match self {
            WakePolicy::At(t) => t.nanos <= now.nanos + SANITIZE_MARGIN_NANOS,
            _ => false,
        }
    }
}

/// The policy in force after `proposed` was put to `current`, and whether
/// `proposed` was adopted.
pub open spec fn apply_spec(current: WakePolicy, proposed: WakePolicy) -> (WakePolicy, bool) {
    if proposed.displaces(current) {
        (proposed, true)
    } else {
        (current, false)
    }
}

/// The policy that is handed to the platform in place of `policy` at
/// `now`: `Now` for a deadline that is due, `policy` itself otherwise.
pub open spec fn sanitize_spec(policy: WakePolicy, now: Instant) -> WakePolicy {
    if policy.is_due(now) {
        WakePolicy::Now
    } else {
        policy
    }
}

/// The committed policy after `proposed` was put to the committed policy
/// `current` at `now`, and whether `proposed` was adopted. What is adopted
/// is committed sanitized.
pub open spec fn commit_spec(current: WakePolicy, proposed: WakePolicy, now: Instant) -> (
    WakePolicy,
    bool,
) {
    if proposed.displaces(current) {
        (sanitize_spec(proposed, now), true)
    } else {
        (current, false)
    }
}

/// The policy in force after each of `proposals` was put, in order, to what
/// the ones before it left of `start`.
pub open spec fn fold_apply(start: WakePolicy, proposals: Seq<WakePolicy>) -> WakePolicy
    decreases proposals.len(),
{
    if proposals.len() == 0 {
        start
    } else {
        apply_spec(fold_apply(start, proposals.drop_last()), proposals.last()).0
    }
}

/// The committed policy after each of `proposals` was committed in order,
/// each at the instant it comes with, starting from `start`.
pub open spec fn fold_commit(start: WakePolicy, proposals: Seq<(WakePolicy, Instant)>) -> WakePolicy
    decreases proposals.len(),
{
    if proposals.len() == 0 {
        start
    } else {
        commit_spec(
            fold_commit(start, proposals.drop_last()),
            proposals.last().0,
            proposals.last().1,
        ).0
    }
}

/// Whether `policy` is the strongest of `proposals`: it is one of them, or
/// `Idle`, and none of them is stronger.
pub open spec fn is_strongest_of(policy: WakePolicy, proposals: Seq<WakePolicy>) -> bool {
    &&& policy == WakePolicy::Idle || proposals.contains(policy)
    &&& forall|i: int|
        0 <= i < proposals.len() ==> policy.at_least_as_strong_as(#[trigger] proposals[i])
}

/// Puts `proposed` to `current`; returns the policy then in force and
/// whether `proposed` was adopted.
pub fn apply(current: WakePolicy, proposed: WakePolicy) -> (result: (WakePolicy, bool))
    ensures
        result == apply_spec(current, proposed),
{
    match proposed {
        WakePolicy::Now => (proposed, true),
        WakePolicy::At(t_new) => match current {
            WakePolicy::Now => (current, false),
            WakePolicy::At(t_old) => if t_new.nanos < t_old.nanos {
                (proposed, true)
            } else {
                (current, false)
            },
            WakePolicy::Idle => (proposed, true),
        },
        WakePolicy::Idle => (current, false),
    }
}

/// Rewrites a deadline that `now` has reached, or will reach within the
/// margin, to `Now`; any other policy comes back as it is.
pub fn sanitize(policy: WakePolicy, now: Instant) -> (result: WakePolicy)
    ensures
        result == sanitize_spec(policy, now),
        policy.is_due(now) ==> result == WakePolicy::Now,
        !policy.is_due(now) ==> result == policy,
{
    match policy {
        WakePolicy::At(t) => {
            if t.nanos <= now.nanos || t.nanos - now.nanos <= SANITIZE_MARGIN_NANOS {
                WakePolicy::Now
            } else {
                policy
            }
        },
        _ => policy,
    }
}

/// Puts `proposed` to the committed policy `current` at `now`; returns the
/// policy then committed and whether `proposed` was adopted. An adopted
/// policy is sanitized before it is committed; a policy that stays is left
/// as it was.
pub fn commit(current: WakePolicy, proposed: WakePolicy, now: Instant) -> (result: (
    WakePolicy,
    bool,
))
    ensures
        result == commit_spec(current, proposed, now),
{
    let (adopted, changed) = apply(current, proposed);
    if changed {
        (sanitize(adopted, now), true)
    } else {
        (current, false)
    }
}

/// The order of strengths is a total order.
pub proof fn lemma_strength_is_total_order(a: WakePolicy, b: WakePolicy, c: WakePolicy)
    ensures
        a.at_least_as_strong_as(a),
        a.at_least_as_strong_as(b) || b.at_least_as_strong_as(a),
        a.at_least_as_strong_as(b) && b.at_least_as_strong_as(a) ==> a == b,
        a.at_least_as_strong_as(b) && b.at_least_as_strong_as(c) ==> a.at_least_as_strong_as(c),
{
}

/// `apply` keeps the stronger of the two policies, and reports a change
/// exactly when the proposal is `Now` or strictly stronger than the policy
/// in force.
pub proof fn lemma_apply_keeps_the_stronger(current: WakePolicy, proposed: WakePolicy)
    ensures
        ({
            let (kept, changed) = apply_spec(current, proposed);
            &&& kept == current || kept == proposed
            &&& kept.at_least_as_strong_as(current)
            &&& kept.at_least_as_strong_as(proposed)
            &&& changed <==> proposed == WakePolicy::Now || (proposed.at_least_as_strong_as(
                current,
            ) && proposed != current)
        }),
{
}

/// At most one policy is the strongest of a sequence of proposals.
pub proof fn lemma_strongest_is_unique(a: WakePolicy, b: WakePolicy, proposals: Seq<WakePolicy>)
    requires
        is_strongest_of(a, proposals),
        is_strongest_of(b, proposals),
    ensures
        a == b,
{
    if a != WakePolicy::Idle {
        let i = choose|i: int| 0 <= i < proposals.len() && proposals[i] == a;
        assert(b.at_least_as_strong_as(proposals[i]));
    }
    if b != WakePolicy::Idle {
        let j = choose|j: int| 0 <= j < proposals.len() && proposals[j] == b;
        assert(a.at_least_as_strong_as(proposals[j]));
    }
}

/// Whatever the proposals and their order, putting them one after another
/// to `Idle` leaves the strongest of them in force.
pub proof fn lemma_fold_from_idle_is_strongest(proposals: Seq<WakePolicy>)
    ensures
        is_strongest_of(fold_apply(WakePolicy::Idle, proposals), proposals),
    decreases proposals.len(),
{
    if proposals.len() > 0 {
        let earlier = proposals.drop_last();
        let before = fold_apply(WakePolicy::Idle, earlier);
        let after = fold_apply(WakePolicy::Idle, proposals);
        lemma_fold_from_idle_is_strongest(earlier);
        assert(after == apply_spec(before, proposals.last()).0);
        assert forall|i: int| 0 <= i < proposals.len() implies after.at_least_as_strong_as(
            #[trigger] proposals[i],
        ) by {
            if i < earlier.len() {
                assert(proposals[i] == earlier[i]);
                assert(before.at_least_as_strong_as(earlier[i]));
            }
        }
        if after != WakePolicy::Idle {
            if after == proposals.last() {
                assert(proposals[proposals.len() - 1] == after);
            } else {
                let i = choose|i: int| 0 <= i < earlier.len() && earlier[i] == before;
                assert(proposals[i] == after);
            }
        }
    }
}

/// Two orders of the same proposals leave the same policy in force.
pub proof fn lemma_fold_from_idle_ignores_order(first: Seq<WakePolicy>, second: Seq<WakePolicy>)
    requires
        first.to_multiset() == second.to_multiset(),
    ensures
        fold_apply(WakePolicy::Idle, first) == fold_apply(WakePolicy::Idle, second),
{
    let a = fold_apply(WakePolicy::Idle, first);
    let b = fold_apply(WakePolicy::Idle, second);
    lemma_fold_from_idle_is_strongest(first);
    lemma_fold_from_idle_is_strongest(second);
    assert forall|p: WakePolicy| first.contains(p) <==> second.contains(p) by {
        vstd::seq_lib::to_multiset_contains(first, p);
        vstd::seq_lib::to_multiset_contains(second, p);
    }
    assert forall|i: int| 0 <= i < second.len() implies a.at_least_as_strong_as(
        #[trigger] second[i],
    ) by {
        assert(second.contains(second[i]));
        assert(first.contains(second[i]));
    }
    assert(is_strongest_of(a, second));
    lemma_strongest_is_unique(a, b, second);
}

/// While the clock stands still, committing proposals one after another
/// from `Idle` commits the strongest of them, sanitized.
pub proof fn lemma_fold_commit_with_clock_at_rest(proposals: Seq<WakePolicy>, now: Instant)
    ensures
        fold_commit(WakePolicy::Idle, Seq::new(proposals.len(), |i: int| (proposals[i], now)))
            == sanitize_spec(fold_apply(WakePolicy::Idle, proposals), now),
    decreases proposals.len(),
{
    let timed = Seq::new(proposals.len(), |i: int| (proposals[i], now));
    if proposals.len() > 0 {
        let earlier = proposals.drop_last();
        let earlier_timed = Seq::new(earlier.len(), |i: int| (earlier[i], now));
        lemma_fold_commit_with_clock_at_rest(earlier, now);
        assert(timed.drop_last() == earlier_timed);
        assert(timed.last() == (proposals.last(), now));
    }
}

} // verus!
