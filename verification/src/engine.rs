use vstd::prelude::*;
use vstd::seq_lib::lemma_seq_union_to_multiset_commutative;
use rand::seq::SliceRandom;

verus! {

/// The gifter of each pair, in pair order.
pub open spec fn gifters(pairs: Seq<(i64, i64)>) -> Seq<i64> {
    pairs.map_values(|p: (i64, i64)| p.0)
}

/// The recipient of each pair, in pair order.
pub open spec fn recipients(pairs: Seq<(i64, i64)>) -> Seq<i64> {
    pairs.map_values(|p: (i64, i64)| p.1)
}

/// The position after `i` in a cyclic walk over `n` positions.
pub open spec fn next_idx(i: int, n: int) -> int {
    if i + 1 == n {
        0
    } else {
        i + 1
    }
}

/// Pairs each element of `order` with its cyclic successor.
pub open spec fn rotation_of(order: Seq<i64>) -> Seq<(i64, i64)> {
    Seq::new(order.len(), |i: int| (order[i], order[next_idx(i, order.len() as int)]))
}

/// `pairs` assigns every identifier of `pids` exactly one recipient and
/// exactly one gifter, and never itself: a fixed-point-free bijection
/// written out as (gifter, recipient) pairs.
pub open spec fn derangement_over(pairs: Seq<(i64, i64)>, pids: Seq<i64>) -> bool {
    &&& pairs.len() == pids.len()
    &&& gifters(pairs).to_multiset() == pids.to_multiset()
    &&& recipients(pairs).to_multiset() == pids.to_multiset()
    &&& gifters(pairs).no_duplicates()
    &&& forall|i: int| 0 <= i < pairs.len() ==> (#[trigger] pairs[i]).0 != pairs[i].1
}

/// `pairs` is the cyclic rotation of some rearrangement of `ids`.
pub open spec fn is_shuffle_rotation(pairs: Seq<(i64, i64)>, order: Seq<i64>, ids: Seq<i64>) -> bool {
    &&& order.len() == ids.len()
    &&& order.to_multiset() == ids.to_multiset()
    &&& pairs == rotation_of(order)
}

/// `pairs` came from the rotate-after-shuffle construction over `ids`.
pub open spec fn rotation_result(pairs: Seq<(i64, i64)>, ids: Seq<i64>) -> bool {
    exists|order: Seq<i64>| is_shuffle_rotation(pairs, order, ids)
}

/// Relies on rand's `SliceRandom::shuffle`: a Fisher-Yates walk that only
/// swaps elements of the slice in place, so the contents afterward are a
/// rearrangement of the contents before. Which rearrangement comes out
/// depends on the thread-local generator, so nothing more is stated.
#[verifier::external_body]
fn shuffle(ids: &mut Vec<i64>)
    ensures
        final(ids)@.len() == old(ids)@.len(),
        final(ids)@.to_multiset() == old(ids)@.to_multiset(),
{
    ids.as_mut_slice().shuffle(&mut rand::thread_rng());
}

/// A rearrangement of a duplicate-free sequence is itself duplicate-free.
proof fn lemma_permutation_no_duplicates(a: Seq<i64>, b: Seq<i64>)
    requires
        a.no_duplicates(),
        b.to_multiset() == a.to_multiset(),
    ensures
        b.no_duplicates(),
{
    a.lemma_multiset_has_no_duplicates();
    b.lemma_multiset_has_no_duplicates_conv();
}

/// The rotation of any rearrangement of a duplicate-free roster of at
/// least two identifiers is a derangement of that roster.
proof fn lemma_rotation_derangement(order: Seq<i64>, ids: Seq<i64>)
    requires
        ids.no_duplicates(),
        ids.len() >= 2,
        order.len() == ids.len(),
        order.to_multiset() == ids.to_multiset(),
    ensures
        order.no_duplicates(),
        derangement_over(rotation_of(order), ids),
{
    lemma_permutation_no_duplicates(ids, order);
    let pairs = rotation_of(order);
    let n = order.len() as int;
    assert(gifters(pairs) =~= order);
    let rot = order.subrange(1, n) + order.subrange(0, 1);
    assert(recipients(pairs) =~= rot);
    assert(order =~= order.subrange(0, 1) + order.subrange(1, n));
    lemma_seq_union_to_multiset_commutative(order.subrange(0, 1), order.subrange(1, n));
    assert(rot.to_multiset() == order.to_multiset());
    assert forall|i: int| 0 <= i < pairs.len() implies (#[trigger] pairs[i]).0 != pairs[i].1 by {
        assert(pairs[i].0 == order[i]);
        assert(pairs[i].1 == order[next_idx(i, n)]);
        assert(next_idx(i, n) != i);
    }
}

/// Pairs each element of `order` with its cyclic successor, exactly as
/// `rotation_of` states.
pub fn rotation_pairs(order: &Vec<i64>) -> (pairs: Vec<(i64, i64)>)
    requires
        order@.len() >= 2,
    ensures
        pairs@ == rotation_of(order@),
{
    let n = order.len();
    let mut pairs: Vec<(i64, i64)> = Vec::new();
    let mut i: usize = 0;
    while i < n
        invariant
            2 <= n == order@.len(),
            0 <= i <= n,
            pairs@.len() == i,
            forall|j: int| 0 <= j < i ==> pairs@[j] == (order@[j], order@[next_idx(j, n as int)]),
        decreases n - i,
    {
        let next: usize = if i + 1 == n {
            0
        } else {
            i + 1
        };
        pairs.push((order[i], order[next]));
        i = i + 1;
    }
    proof {
        assert(pairs@ =~= rotation_of(order@));
    }
    pairs
}

/// The assignment engine: uniformly shuffles the roster, then pairs each
/// identifier with its successor in the shuffled order. For any
/// duplicate-free roster of at least two identifiers the result is a
/// derangement — every identifier gifts exactly once, receives exactly
/// once, and never gifts itself — built as one cycle through the whole
/// roster.
pub fn assign(ids: &Vec<i64>) -> (pairs: Vec<(i64, i64)>)
    requires
        ids@.len() >= 2,
        ids@.no_duplicates(),
    ensures
        derangement_over(pairs@, ids@),
        rotation_result(pairs@, ids@),
{
    let n = ids.len();
    let mut order: Vec<i64> = Vec::new();
    let mut i: usize = 0;
    while i < n
        invariant
            0 <= i <= n,
            n == ids@.len(),
            order@ =~= ids@.subrange(0, i as int),
        decreases n - i,
    {
        order.push(ids[i]);
        i = i + 1;
    }
    proof {
        assert(order@ =~= ids@);
    }
    shuffle(&mut order);
    let pairs = rotation_pairs(&order);
    proof {
        lemma_rotation_derangement(order@, ids@);
        assert(is_shuffle_rotation(pairs@, order@, ids@));
    }
    pairs
}

/// The "recipient of" relation of a list of pairs, as a map from gifter
/// to recipient; a later pair for the same gifter wins.
pub open spec fn pair_map(pairs: Seq<(i64, i64)>) -> Map<i64, i64>
    decreases pairs.len(),
{
    if pairs.len() == 0 {
        Map::empty()
    } else {
        pair_map(pairs.drop_last()).insert(pairs.last().0, pairs.last().1)
    }
}

/// Where a walk along `m` stands after `k` steps from `start`.
pub open spec fn follow(m: Map<i64, i64>, start: i64, k: nat) -> i64
    decreases k,
{
    if k == 0 {
        start
    } else {
        m[follow(m, start, (k - 1) as nat)]
    }
}

/// The position reached after `k` cyclic steps from position `i` among
/// `n` positions.
pub open spec fn idx_add(i: int, k: nat, n: int) -> int
    decreases k,
{
    if k == 0 {
        i
    } else {
        next_idx(idx_add(i, (k - 1) as nat, n), n)
    }
}

/// When the gifters are duplicate-free, the pair map sends each pair's
/// gifter to that pair's recipient, and holds nothing else.
proof fn lemma_pair_map_lookup(pairs: Seq<(i64, i64)>)
    requires
        gifters(pairs).no_duplicates(),
    ensures
        forall|j: int|
            0 <= j < pairs.len() ==> pair_map(pairs).dom().contains((#[trigger] pairs[j]).0)
                && pair_map(pairs)[pairs[j].0] == pairs[j].1,
    decreases pairs.len(),
{
    if pairs.len() > 0 {
        let prefix = pairs.drop_last();
        assert(gifters(prefix) =~= gifters(pairs).drop_last());
        assert(gifters(prefix).no_duplicates());
        lemma_pair_map_lookup(prefix);
        assert forall|j: int|
            0 <= j < pairs.len() implies pair_map(pairs).dom().contains((#[trigger] pairs[j]).0)
                && pair_map(pairs)[pairs[j].0] == pairs[j].1 by {
            if j < pairs.len() - 1 {
                assert(prefix[j] == pairs[j]);
                assert(gifters(pairs)[j] == pairs[j].0);
                assert(gifters(pairs)[pairs.len() - 1] == pairs.last().0);
                assert(pairs[j].0 != pairs.last().0);
            }
        }
    }
}

/// Looks a gifter up in a list of pairs: the recipient of the first
/// pair whose gifter matches, which under duplicate-free gifters is
/// exactly what the pair map gives.
pub fn find_recipient(mapping: &Vec<(i64, i64)>, pid: i64) -> (r: Option<i64>)
    ensures
        r is Some <==> gifters(mapping@).contains(pid),
        gifters(mapping@).no_duplicates() && r is Some ==> r == Some(pair_map(mapping@)[pid])
            && pair_map(mapping@).dom().contains(pid),
{
    let n = mapping.len();
    let mut i: usize = 0;
    while i < n
        invariant
            0 <= i <= n,
            n == mapping@.len(),
            forall|j: int| 0 <= j < i ==> (#[trigger] mapping@[j]).0 != pid,
        decreases n - i,
    {
        if mapping[i].0 == pid {
            proof {
                assert(gifters(mapping@)[i as int] == pid);
                if gifters(mapping@).no_duplicates() {
                    lemma_pair_map_lookup(mapping@);
                }
            }
            return Some(mapping[i].1);
        }
        i = i + 1;
    }
    proof {
        assert forall|w: int| 0 <= w < gifters(mapping@).len() implies gifters(mapping@)[w]
            != pid by {
            assert(gifters(mapping@)[w] == mapping@[w].0);
        }
    }
    None
}

/// Closed form of `idx_add`: one wrap at most for `k` up to `n`.
proof fn lemma_idx_add_closed_form(i: int, k: nat, n: int)
    requires
        0 <= i < n,
        k <= n,
    ensures
        idx_add(i, k, n) == if i + k < n {
            i + k
        } else {
            i + k - n
        },
    decreases k,
{
    if k > 0 {
        lemma_idx_add_closed_form(i, (k - 1) as nat, n);
    }
}

/// Walking the pair map of a rotation `k` steps from position `i` of the
/// order lands on position `i + k`, cyclically.
proof fn lemma_follow_rotation(order: Seq<i64>, i: int, k: nat)
    requires
        order.no_duplicates(),
        order.len() >= 2,
        0 <= i < order.len(),
        k <= order.len(),
    ensures
        follow(pair_map(rotation_of(order)), order[i], k) == order[idx_add(i, k, order.len() as int)],
    decreases k,
{
    let n = order.len() as int;
    let pairs = rotation_of(order);
    assert(gifters(pairs) =~= order);
    lemma_pair_map_lookup(pairs);
    if k > 0 {
        lemma_follow_rotation(order, i, (k - 1) as nat);
        let prev = idx_add(i, (k - 1) as nat, n);
        lemma_idx_add_closed_form(i, (k - 1) as nat, n);
        assert(0 <= prev < n);
        assert(pairs[prev] == (order[prev], order[next_idx(prev, n)]));
        assert(pair_map(pairs)[order[prev]] == order[next_idx(prev, n)]);
    }
}

/// The rotate-after-shuffle construction yields a single cycle through
/// the whole roster: from any identifier, following "recipient of" comes
/// back to the start only after exactly `n` steps, visiting everyone on
/// the way.
pub proof fn lemma_assignment_single_cycle(pairs: Seq<(i64, i64)>, ids: Seq<i64>)
    requires
        ids.no_duplicates(),
        ids.len() >= 2,
        rotation_result(pairs, ids),
    ensures
        forall|s: i64, k: nat|
            ids.contains(s) && 1 <= k < ids.len() ==> follow(pair_map(pairs), s, k) != s,
        forall|s: i64| ids.contains(s) ==> follow(pair_map(pairs), s, ids.len() as nat) == s,
{
    let n = ids.len() as int;
    let order = choose|order: Seq<i64>| is_shuffle_rotation(pairs, order, ids);
    lemma_permutation_no_duplicates(ids, order);
    assert forall|s: i64, k: nat|
        ids.contains(s) && 1 <= k < ids.len() implies follow(pair_map(pairs), s, k) != s by {
        let i = lemma_position_of(order, ids, s);
        lemma_follow_rotation(order, i, k);
        lemma_idx_add_closed_form(i, k, n);
        assert(idx_add(i, k, n) != i);
    }
    assert forall|s: i64| ids.contains(s) implies follow(pair_map(pairs), s, ids.len() as nat) == s by {
        let i = lemma_position_of(order, ids, s);
        lemma_follow_rotation(order, i, n as nat);
        lemma_idx_add_closed_form(i, n as nat, n);
        assert(idx_add(i, n as nat, n) == i);
    }
}

/// An identifier of the roster occurs somewhere in any rearrangement of
/// the roster; returns such a position.
proof fn lemma_position_of(order: Seq<i64>, ids: Seq<i64>, s: i64) -> (i: int)
    requires
        order.to_multiset() == ids.to_multiset(),
        ids.contains(s),
    ensures
        0 <= i < order.len(),
        order[i] == s,
{
    broadcast use vstd::seq_lib::to_multiset_contains;

    assert(ids.to_multiset().count(s) > 0);
    assert(order.to_multiset().count(s) > 0);
    assert(order.contains(s));
    choose|i: int| 0 <= i < order.len() && order[i] == s
}

/// With exactly two participants the construction always yields the
/// mutual swap: each of the two gifts the other.
pub proof fn lemma_two_participants_swap(pairs: Seq<(i64, i64)>, ids: Seq<i64>)
    requires
        ids.no_duplicates(),
        ids.len() == 2,
        rotation_result(pairs, ids),
    ensures
        pair_map(pairs)[ids[0]] == ids[1],
        pair_map(pairs)[ids[1]] == ids[0],
{
    let order = choose|order: Seq<i64>| is_shuffle_rotation(pairs, order, ids);
    lemma_permutation_no_duplicates(ids, order);
    broadcast use vstd::seq_lib::to_multiset_contains;

    assert(order.contains(order[0]) && order.contains(order[1]));
    assert(order.to_multiset().count(order[0]) > 0 && order.to_multiset().count(order[1]) > 0);
    assert(ids.to_multiset().count(order[0]) > 0 && ids.to_multiset().count(order[1]) > 0);
    assert(ids.contains(order[0]) && ids.contains(order[1]));
    assert(order[0] == ids[0] || order[0] == ids[1]);
    assert(order[1] == ids[0] || order[1] == ids[1]);
    assert(order[0] != order[1]);
    assert(gifters(rotation_of(order)) =~= order);
    lemma_pair_map_lookup(rotation_of(order));
    assert(rotation_of(order)[0] == (order[0], order[1]));
    assert(rotation_of(order)[1] == (order[1], order[0]));
}

} // verus!
