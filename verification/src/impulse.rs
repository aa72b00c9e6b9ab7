//! Impulse resolution: which of the requests of one tick act on a velocity,
//! and in what order.
//!
//! A request either adds its amount to the target's velocity or, if it is
//! absolute, replaces the velocity by its amount. The vectors are the
//! host's: their type is a parameter, and their sum is a function that the
//! host hands in.

use vstd::prelude::*;

verus! {

/// A one-shot request to change an entity's velocity.
#[derive(Debug, PartialEq)]
pub struct Impulse<V> {
    /// The entity whose velocity is to change.
    pub target: u64,
    /// The vector to add, or to set the velocity to.
    pub amount: V,
    /// Whether the amount replaces the velocity instead of being added.
    pub absolute: bool,
    /// Tag of the force that issued the request.
    pub source: i32,
}

impl<V: Copy> Copy for Impulse<V> {

}

impl<V: Copy> Clone for Impulse<V> {
    fn clone(&self) -> (copy: Self)
        ensures
            copy == *self,
    {
        *self
    }
}

/// No later request of the batch comes from the source of `batch[i]`.
pub open spec fn is_latest_of_source<V>(batch: Seq<Impulse<V>>, i: int) -> bool {
    forall|j: int| i < j < batch.len() ==> batch[j].source != batch[i].source
}

/// An earlier request that its source did not supersede has already set the
/// velocity of the target of `batch[i]` absolutely.
pub open spec fn is_locked_out<V>(batch: Seq<Impulse<V>>, i: int) -> bool {
    exists|j: int|
        0 <= j < i && batch[j].absolute && batch[j].target == batch[i].target
            && is_latest_of_source(batch, j)
}

/// `batch[i]` changes a velocity: it is the last word of its source, and its
/// target has not been set absolutely before it.
pub open spec fn takes_effect<V>(batch: Seq<Impulse<V>>, i: int) -> bool {
    is_latest_of_source(batch, i) && !is_locked_out(batch, i)
}

/// The positions below `n` of the requests that take effect, ascending.
pub open spec fn effective_positions<V>(batch: Seq<Impulse<V>>, n: int) -> Seq<int>
    decreases n,
{
    if n <= 0 {
        Seq::empty()
    } else {
        let earlier = effective_positions(batch, n - 1);
        if takes_effect(batch, n - 1) {
            earlier.push(n - 1)
        } else {
            earlier
        }
    }
}

/// The requests of `batch` that take effect, in batch order.
pub open spec fn effective<V>(batch: Seq<Impulse<V>>) -> Seq<Impulse<V>> {
    effective_positions(batch, batch.len() as int).map_values(|i: int| batch[i])
}

fn latest_of_source<V: Copy>(impulses: &Vec<Impulse<V>>, i: usize) -> (latest: bool)
    requires
        i < impulses.len(),
    ensures
        latest == is_latest_of_source(impulses@, i as int),
{
    let source: i32 = impulses[i].source;
    let mut j: usize = i + 1;
    while j < impulses.len()
        invariant
            i < j <= impulses.len(),
            source == impulses@[i as int].source,
            forall|k: int| i < k < j ==> impulses@[k].source != source,
        decreases impulses.len() - j,
    {
        if impulses[j].source == source {
            return false;
        }
        j += 1;
    }
    true
}

fn holds_target(targets: &Vec<u64>, target: u64) -> (found: bool)
    ensures
        found == targets@.contains(target),
{
    let mut k: usize = 0;
    while k < targets.len()
        invariant
            k <= targets.len(),
            forall|m: int| 0 <= m < k ==> targets@[m] != target,
        decreases targets.len() - k,
    {
        if targets[k] == target {
            return true;
        }
        k += 1;
    }
    false
}

/// `targets` are the targets that the requests before position `n` have set
/// absolutely.
spec fn holds_locked_targets<V>(targets: Seq<u64>, batch: Seq<Impulse<V>>, n: int) -> bool {
    forall|t: u64|
        targets.contains(t) <==> exists|j: int|
            0 <= j < n && batch[j].absolute && batch[j].target == t && is_latest_of_source(
                batch,
                j,
            )
}

proof fn lemma_lock_added<V>(targets: Seq<u64>, batch: Seq<Impulse<V>>, n: int)
    requires
        0 <= n < batch.len(),
        holds_locked_targets(targets, batch, n),
        batch[n].absolute,
        is_latest_of_source(batch, n),
    ensures
        holds_locked_targets(targets.push(batch[n].target), batch, n + 1),
{
    let grown = targets.push(batch[n].target);
    assert forall|t: u64|
        grown.contains(t) <==> exists|j: int|
            0 <= j < n + 1 && batch[j].absolute && batch[j].target == t && is_latest_of_source(
                batch,
                j,
            ) by {
        if grown.contains(t) {
            let m = choose|m: int| 0 <= m < grown.len() && grown[m] == t;
            if m < targets.len() {
                assert(targets.contains(t));
            }
        }
        if exists|j: int|
            0 <= j < n + 1 && batch[j].absolute && batch[j].target == t && is_latest_of_source(
                batch,
                j,
            ) {
            let j = choose|j: int|
                0 <= j < n + 1 && batch[j].absolute && batch[j].target == t
                    && is_latest_of_source(batch, j);
            if j < n {
                assert(targets.contains(t));
                let m = choose|m: int| 0 <= m < targets.len() && targets[m] == t;
                assert(grown[m] == t);
            } else {
                assert(grown[targets.len() as int] == t);
            }
        }
    }
}

/// Resolves the requests submitted since the previous tick.
///
/// Of the requests of one source only the last counts. Those are taken in
/// batch order; once an absolute one has set a target's velocity, every later
/// request for that target is dropped. The result lists the requests that
/// remain, in the order in which `apply_impulses` applies them to the
/// velocity of each entity that has one.
pub fn sum_impulses<V: Copy>(impulses: &Vec<Impulse<V>>) -> (applied: Vec<Impulse<V>>)
    ensures
        applied@ == effective(impulses@),
{
    let mut applied: Vec<Impulse<V>> = Vec::new();
    let mut locked: Vec<u64> = Vec::new();
    let mut i: usize = 0;
    while i < impulses.len()
        invariant
            i <= impulses.len(),
            applied@ == effective_positions(impulses@, i as int).map_values(
                |k: int| impulses@[k],
            ),
            holds_locked_targets(locked@, impulses@, i as int),
        decreases impulses.len() - i,
    {
        let impulse: Impulse<V> = impulses[i];
        let latest = latest_of_source(impulses, i);
        let blocked = holds_target(&locked, impulse.target);
        if latest && !blocked {
            applied.push(impulse);
            if impulse.absolute {
                proof {
                    lemma_lock_added(locked@, impulses@, i as int);
                }
                locked.push(impulse.target);
            }
        }
        i += 1;
    }
    applied
}

/// `end` is what the velocity `start` of the entity `target` can become when
/// the first `n` of the resolved requests are applied in order: a request
/// for another entity leaves it, an absolute one sets it to its amount, and
/// any other hands it and its amount to `sum`.
pub open spec fn becomes<V, F: Fn(V, V) -> V>(
    sum: F,
    target: u64,
    start: V,
    applied: Seq<Impulse<V>>,
    n: nat,
    end: V,
) -> bool
    decreases n,
{
    if n == 0 {
        end == start
    } else {
        let request = applied[n - 1];
        if request.target != target {
            becomes(sum, target, start, applied, (n - 1) as nat, end)
        } else if request.absolute {
            end == request.amount
        } else {
            exists|before: V|
                becomes(sum, target, start, applied, (n - 1) as nat, before) && sum.ensures(
                    (before, request.amount),
                    end,
                )
        }
    }
}

/// Applies the resolved requests to the velocity of the entity `target`,
/// with the host's addition of vectors.
pub fn apply_impulses<V: Copy, F: Fn(V, V) -> V>(
    target: u64,
    velocity: V,
    applied: &Vec<Impulse<V>>,
    sum: F,
) -> (changed: V)
    requires
        forall|a: V, b: V| sum.requires((a, b)),
    ensures
        becomes(sum, target, velocity, applied@, applied.len() as nat, changed),
{
    let mut changed: V = velocity;
    let mut k: usize = 0;
    while k < applied.len()
        invariant
            k <= applied.len(),
            forall|a: V, b: V| sum.requires((a, b)),
            becomes(sum, target, velocity, applied@, k as nat, changed),
        decreases applied.len() - k,
    {
        let request: Impulse<V> = applied[k];
        if request.target == target {
            if request.absolute {
                changed = request.amount;
            } else {
                changed = sum(changed, request.amount);
            }
        }
        k += 1;
    }
    changed
}

/// The positions that `effective_positions` lists are ascending, each is the
/// position of a request that takes effect, and none of those is missing.
pub proof fn lemma_effective_positions<V>(batch: Seq<Impulse<V>>, n: int)
    requires
        0 <= n <= batch.len(),
    ensures
        forall|k: int|
            0 <= k < effective_positions(batch, n).len() ==> {
                &&& 0 <= #[trigger] effective_positions(batch, n)[k] < n
                &&& takes_effect(batch, effective_positions(batch, n)[k])
            },
        forall|k: int, l: int|
            0 <= k < l < effective_positions(batch, n).len() ==> effective_positions(batch, n)[k]
                < effective_positions(batch, n)[l],
        forall|i: int|
            0 <= i < n && takes_effect(batch, i) ==> effective_positions(batch, n).contains(i),
    decreases n,
{
    if n > 0 {
        lemma_effective_positions(batch, n - 1);
        let earlier = effective_positions(batch, n - 1);
        let all = effective_positions(batch, n);
        assert forall|i: int| 0 <= i < n && takes_effect(batch, i) implies all.contains(i) by {
            if i < n - 1 {
                let k = choose|k: int| 0 <= k < earlier.len() && earlier[k] == i;
                assert(all[k] == i);
            } else {
                assert(all[all.len() - 1] == i);
            }
        }
    }
}

/// Every request that `effective` lists is a request of the batch.
pub proof fn lemma_effective_is_drawn_from_batch<V>(batch: Seq<Impulse<V>>)
    ensures
        effective(batch).len() <= batch.len(),
        forall|k: int|
            0 <= k < effective(batch).len() ==> batch.contains(#[trigger] effective(batch)[k]),
{
    let positions = effective_positions(batch, batch.len() as int);
    lemma_effective_positions(batch, batch.len() as int);
    lemma_ascending_fits(positions, batch.len() as int);
}

proof fn lemma_ascending_fits(positions: Seq<int>, n: int)
    requires
        forall|k: int| 0 <= k < positions.len() ==> 0 <= #[trigger] positions[k] < n,
        forall|k: int, l: int| 0 <= k < l < positions.len() ==> positions[k] < positions[l],
    ensures
        positions.len() <= n || positions.len() == 0,
        forall|k: int| 0 <= k < positions.len() ==> k <= #[trigger] positions[k],
    decreases positions.len(),
{
    if positions.len() > 0 {
        let shorter = positions.drop_last();
        lemma_ascending_fits(shorter, n);
        let last = positions.len() - 1;
        if last > 0 {
            assert(shorter[last - 1] == positions[last - 1]);
        }
        assert forall|k: int| 0 <= k < positions.len() implies k <= #[trigger] positions[k] by {
            if k < last {
                assert(shorter[k] == positions[k]);
            }
        }
        assert(last <= positions[last]);
    }
}

/// One source, one request: no two of the requests that take effect come
/// from the same source, and each is the last that its source submitted.
pub proof fn lemma_one_request_per_source<V>(batch: Seq<Impulse<V>>)
    ensures
        forall|k: int, l: int|
            0 <= k < l < effective(batch).len() ==> effective(batch)[k].source != effective(
                batch,
            )[l].source,
        forall|k: int|
            0 <= k < effective(batch).len() ==> exists|i: int|
                0 <= i < batch.len() && batch[i] == #[trigger] effective(batch)[k]
                    && is_latest_of_source(batch, i),
{
    lemma_effective_positions(batch, batch.len() as int);
}

/// An absolute request is exclusive: among the requests that take effect,
/// none for the same target follows it.
pub proof fn lemma_absolute_is_exclusive<V>(batch: Seq<Impulse<V>>)
    ensures
        forall|k: int, l: int|
            0 <= k < l < effective(batch).len() && effective(batch)[k].absolute ==> effective(
                batch,
            )[l].target != effective(batch)[k].target,
{
    lemma_effective_positions(batch, batch.len() as int);
}

/// A request that takes effect is never lost: it stands in the result.
pub proof fn lemma_effective_is_complete<V>(batch: Seq<Impulse<V>>, i: int)
    requires
        0 <= i < batch.len(),
        takes_effect(batch, i),
    ensures
        effective(batch).contains(batch[i]),
{
    let positions = effective_positions(batch, batch.len() as int);
    lemma_effective_positions(batch, batch.len() as int);
    let k = choose|k: int| 0 <= k < positions.len() && positions[k] == i;
    assert(effective(batch)[k] == batch[i]);
}

proof fn lemma_all_take_effect<V>(batch: Seq<Impulse<V>>, n: int)
    requires
        0 <= n <= batch.len(),
        forall|i: int| 0 <= i < batch.len() ==> takes_effect(batch, i),
    ensures
        effective_positions(batch, n) == Seq::new(n as nat, |k: int| k),
    decreases n,
{
    if n > 0 {
        lemma_all_take_effect(batch, n - 1);
    }
}

/// What has been resolved holds no conflict: resolved once more, it stays
/// as it is.
pub proof fn lemma_resolved_batch_is_stable<V>(batch: Seq<Impulse<V>>)
    ensures
        effective(effective(batch)) == effective(batch),
{
    let resolved = effective(batch);
    lemma_one_request_per_source(batch);
    lemma_absolute_is_exclusive(batch);
    lemma_all_take_effect(resolved, resolved.len() as int);
}

/// Two requests from one source: the second supersedes the first, whatever
/// their targets and kinds, so the velocity changes by the second alone.
pub proof fn lemma_same_source_supersedes<V>(first: Impulse<V>, second: Impulse<V>)
    requires
        first.source == second.source,
    ensures
        effective(seq![first, second]) == seq![second],
{
    reveal_with_fuel(effective_positions, 3);
}

/// Two requests from distinct sources, the first not an absolute one for the
/// target of the second: both take effect, in the order of submission. For
/// two additive requests to one target the velocity changes by the sum.
pub proof fn lemma_distinct_sources_compose<V>(first: Impulse<V>, second: Impulse<V>)
    requires
        first.source != second.source,
        !(first.absolute && first.target == second.target),
    ensures
        effective(seq![first, second]) == seq![first, second],
{
    reveal_with_fuel(effective_positions, 3);
}

/// An absolute request followed by a request from another source for the
/// same target: the second is dropped, and the velocity is what the first set.
pub proof fn lemma_absolute_excludes<V>(first: Impulse<V>, second: Impulse<V>)
    requires
        first.source != second.source,
        first.absolute,
        first.target == second.target,
    ensures
        effective(seq![first, second]) == seq![first],
{
    reveal_with_fuel(effective_positions, 3);
    assert(is_latest_of_source(seq![first, second], 0));
}

/// An entity that none of the requests names keeps its velocity.
pub proof fn lemma_unnamed_entity_keeps_its_velocity<V, F: Fn(V, V) -> V>(
    sum: F,
    target: u64,
    start: V,
    applied: Seq<Impulse<V>>,
    n: nat,
    end: V,
)
    requires
        n <= applied.len(),
        forall|k: int| 0 <= k < n ==> applied[k].target != target,
    ensures
        becomes(sum, target, start, applied, n, end) <==> end == start,
    decreases n,
{
    if n > 0 {
        lemma_unnamed_entity_keeps_its_velocity(sum, target, start, applied, (n - 1) as nat, end);
    }
}

/// Two additive requests from one source for one entity: its velocity
/// changes by the second amount alone.
pub proof fn lemma_velocity_after_superseded_request<V, F: Fn(V, V) -> V>(
    sum: F,
    first: Impulse<V>,
    second: Impulse<V>,
    start: V,
    end: V,
)
    requires
        first.source == second.source,
        !second.absolute,
    ensures
        becomes(
            sum,
            second.target,
            start,
            effective(seq![first, second]),
            effective(seq![first, second]).len(),
            end,
        ) <==> sum.ensures((start, second.amount), end),
{
    lemma_same_source_supersedes(first, second);
    reveal_with_fuel(becomes, 2);
}

/// Two additive requests from distinct sources for one entity: its velocity
/// changes by the first amount and then by the second.
pub proof fn lemma_velocity_after_two_additions<V, F: Fn(V, V) -> V>(
    sum: F,
    first: Impulse<V>,
    second: Impulse<V>,
    start: V,
    end: V,
)
    requires
        first.source != second.source,
        first.target == second.target,
        !first.absolute,
        !second.absolute,
    ensures
        becomes(
            sum,
            first.target,
            start,
            effective(seq![first, second]),
            effective(seq![first, second]).len(),
            end,
        ) <==> exists|between: V|
            sum.ensures((start, first.amount), between) && sum.ensures(
                (between, second.amount),
                end,
            ),
{
    lemma_distinct_sources_compose(first, second);
    reveal_with_fuel(becomes, 3);
}

/// An absolute request followed by a request from another source for the
/// same entity: the velocity is exactly the amount of the first.
pub proof fn lemma_velocity_after_absolute_request<V, F: Fn(V, V) -> V>(
    sum: F,
    first: Impulse<V>,
    second: Impulse<V>,
    start: V,
    end: V,
)
    requires
        first.source != second.source,
        first.target == second.target,
        first.absolute,
    ensures
        becomes(
            sum,
            first.target,
            start,
            effective(seq![first, second]),
            effective(seq![first, second]).len(),
            end,
        ) <==> end == first.amount,
{
    lemma_absolute_excludes(first, second);
    reveal_with_fuel(becomes, 2);
}

} // verus!
