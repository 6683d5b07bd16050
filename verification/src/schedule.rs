//! Pending alarm requests as a sequence, and what is computed from it.
//!
//! The multiplexer keeps its active requests in the order in which they were
//! armed. Everything it decides is a function of that sequence and of the
//! current counter value: which deadline the hardware must be armed for, which
//! requests are due, and in which order the due ones fire.

use vstd::prelude::*;
use vstd::set_lib::{lemma_int_range, lemma_len_subset, set_int_range};
use crate::ticks::{has_elapsed, lemma_ticks_until_injective, ticks_until};

verus! {

/// One active request: the client that waits, and the counter value it waits
/// for.
#[derive(Clone, Copy, Debug, PartialEq, Eq, Structural)]
pub struct VirtualAlarmRequest {
    /// The request node, and with it the client, that the request belongs to.
    pub client: usize,
    /// Counter value at which the client wants to be called.
    pub deadline: u32,
}

/// Every request belongs to a provisioned client and holds a counter value,
/// and no client has two requests.
pub open spec fn requests_valid(
    pending: Seq<VirtualAlarmRequest>,
    capacity: int,
    modulus: int,
) -> bool {
    &&& forall|i: int|
        0 <= i < pending.len() ==> (#[trigger] pending[i]).client < capacity && pending[i].deadline
            < modulus
    &&& forall|i: int, j: int|
        0 <= i < j < pending.len() ==> (#[trigger] pending[i]).client != (
        #[trigger] pending[j]).client
}

/// The requests of all clients but `client`, in their order.
pub open spec fn without_client(pending: Seq<VirtualAlarmRequest>, client: usize) -> Seq<
    VirtualAlarmRequest,
> {
    pending.filter(|r: VirtualAlarmRequest| r.client != client)
}

/// All requests but `request`, in their order.
pub open spec fn without_request(
    pending: Seq<VirtualAlarmRequest>,
    request: VirtualAlarmRequest,
) -> Seq<VirtualAlarmRequest> {
    pending.filter(
        |r: VirtualAlarmRequest| r.client != request.client || r.deadline != request.deadline,
    )
}

/// The requests whose deadline has not been reached at `now`, in their order.
pub open spec fn not_yet_due(pending: Seq<VirtualAlarmRequest>, now: int, modulus: int) -> Seq<
    VirtualAlarmRequest,
> {
    pending.filter(|r: VirtualAlarmRequest| !has_elapsed(r.deadline as int, now, modulus))
}

/// The deadline closest to firing at `now`, found by going through the
/// requests one by one; `None` when there is no request.
pub open spec fn earliest_deadline(
    pending: Seq<VirtualAlarmRequest>,
    now: int,
    modulus: int,
) -> Option<u32>
    decreases pending.len(),
{
    if pending.len() == 0 {
        None
    } else {
        let last = pending.last().deadline;
        match earliest_deadline(pending.drop_last(), now, modulus) {
            None => Some(last),
            Some(best) => if ticks_until(best as int, now, modulus) <= ticks_until(
                last as int,
                now,
                modulus,
            ) {
                Some(best)
            } else {
                Some(last)
            },
        }
    }
}

/// `armed` is the minimum of the pending deadlines as seen from `now`, or
/// `None` when nothing is pending.
pub open spec fn is_earliest_deadline(
    armed: Option<u32>,
    pending: Seq<VirtualAlarmRequest>,
    now: int,
    modulus: int,
) -> bool {
    match armed {
        None => pending.len() == 0,
        Some(deadline) => {
            &&& exists|i: int| 0 <= i < pending.len() && (#[trigger] pending[i]).deadline == deadline
            &&& forall|i: int|
                0 <= i < pending.len() ==> ticks_until(deadline as int, now, modulus)
                    <= ticks_until((#[trigger] pending[i]).deadline as int, now, modulus)
        },
    }
}

/// `sorted` with `request` put behind every entry that is due no later than
/// it.
pub open spec fn insert_by_deadline(
    sorted: Seq<VirtualAlarmRequest>,
    request: VirtualAlarmRequest,
    now: int,
    modulus: int,
) -> Seq<VirtualAlarmRequest>
    decreases sorted.len(),
{
    if sorted.len() == 0 {
        seq![request]
    } else if ticks_until(sorted.last().deadline as int, now, modulus) <= ticks_until(
        request.deadline as int,
        now,
        modulus,
    ) {
        sorted.push(request)
    } else {
        insert_by_deadline(sorted.drop_last(), request, now, modulus).push(sorted.last())
    }
}

/// The requests that are due at `now`, in the order in which they fire.
pub open spec fn fire_order(pending: Seq<VirtualAlarmRequest>, now: int, modulus: int) -> Seq<
    VirtualAlarmRequest,
>
    decreases pending.len(),
{
    if pending.len() == 0 {
        Seq::empty()
    } else {
        let earlier = fire_order(pending.drop_last(), now, modulus);
        if has_elapsed(pending.last().deadline as int, now, modulus) {
            insert_by_deadline(earlier, pending.last(), now, modulus)
        } else {
            earlier
        }
    }
}

/// `first` fires before `second`: its deadline comes first, or the deadlines
/// are equal and it was armed first.
pub open spec fn fires_before(
    first: VirtualAlarmRequest,
    second: VirtualAlarmRequest,
    pending: Seq<VirtualAlarmRequest>,
    now: int,
    modulus: int,
) -> bool {
    let a = ticks_until(first.deadline as int, now, modulus);
    let b = ticks_until(second.deadline as int, now, modulus);
    a < b || (a == b && pending.index_of(first) < pending.index_of(second))
}

/// `fired` holds exactly the requests of `pending` that are due at `now`,
/// each once, by ascending deadline, and by arming order where deadlines are
/// equal.
pub open spec fn is_fire_order(
    fired: Seq<VirtualAlarmRequest>,
    pending: Seq<VirtualAlarmRequest>,
    now: int,
    modulus: int,
) -> bool {
    &&& forall|r: VirtualAlarmRequest|
        #![trigger fired.contains(r)]
        #![trigger pending.contains(r)]
        fired.contains(r) <==> pending.contains(r) && has_elapsed(r.deadline as int, now, modulus)
    &&& forall|i: int, j: int|
        0 <= i < j < fired.len() ==> fires_before(
            #[trigger] fired[i],
            #[trigger] fired[j],
            pending,
            now,
            modulus,
        )
}

/// Filtering a sequence extended by one element.
pub proof fn lemma_filter_push<A>(s: Seq<A>, last: A, keep: spec_fn(A) -> bool)
    ensures
        s.push(last).filter(keep) == if keep(last) {
            s.filter(keep).push(last)
        } else {
            s.filter(keep)
        },
{
    reveal(Seq::filter);
    assert(s.push(last).drop_last() =~= s);
}

/// Filtering a sequence whose elements all pass leaves it as it is.
pub proof fn lemma_filter_all<A>(s: Seq<A>, keep: spec_fn(A) -> bool)
    requires
        forall|i: int| 0 <= i < s.len() ==> keep(#[trigger] s[i]),
    ensures
        s.filter(keep) == s,
    decreases s.len(),
{
    reveal(Seq::filter);
    if s.len() > 0 {
        let front = s.drop_last();
        assert forall|i: int| 0 <= i < front.len() implies keep(#[trigger] front[i]) by {
            assert(front[i] == s[i]);
        }
        lemma_filter_all(front, keep);
        assert(front.push(s.last()) =~= s);
    }
}

/// What a filtered sequence holds: elements of the original that pass, and
/// every one of them.
pub proof fn lemma_filter_members<A>(s: Seq<A>, keep: spec_fn(A) -> bool)
    ensures
        forall|i: int|
            0 <= i < s.filter(keep).len() ==> s.contains(#[trigger] s.filter(keep)[i]) && keep(
                s.filter(keep)[i],
            ),
        forall|i: int| 0 <= i < s.len() && keep(#[trigger] s[i]) ==> s.filter(keep).contains(s[i]),
    decreases s.len(),
{
    reveal(Seq::filter);
    if s.len() > 0 {
        let front = s.drop_last();
        lemma_filter_members(front, keep);
        let kept_front = front.filter(keep);
        let kept = s.filter(keep);
        assert forall|i: int| 0 <= i < kept.len() implies s.contains(#[trigger] kept[i]) && keep(
            kept[i],
        ) by {
            if i < kept_front.len() {
                assert(kept[i] == kept_front[i]);
                assert(front.contains(kept_front[i]));
                let k = choose|k: int| 0 <= k < front.len() && front[k] == kept_front[i];
                assert(s[k] == kept[i]);
            } else {
                assert(kept[i] == s[s.len() - 1]);
            }
        }
        assert forall|i: int| 0 <= i < s.len() && keep(#[trigger] s[i]) implies kept.contains(
            s[i],
        ) by {
            if i < front.len() {
                assert(front[i] == s[i]);
                assert(kept_front.contains(front[i]));
                let k = choose|k: int| 0 <= k < kept_front.len() && kept_front[k] == front[i];
                assert(kept[k] == s[i]);
            } else {
                assert(kept[kept.len() - 1] == s[i]);
            }
        }
    }
}

/// There are no more active requests than request nodes.
pub proof fn lemma_requests_bounded(
    pending: Seq<VirtualAlarmRequest>,
    capacity: int,
    modulus: int,
)
    requires
        requests_valid(pending, capacity, modulus),
        0 <= capacity,
    ensures
        pending.len() <= capacity,
{
    let clients = pending.map_values(|r: VirtualAlarmRequest| r.client as int);
    assert(clients.no_duplicates()) by {
        assert forall|i: int, j: int|
            0 <= i < clients.len() && 0 <= j < clients.len() && i != j implies clients[i]
            != clients[j] by {
            if i < j {
                assert(pending[i].client != pending[j].client);
            } else {
                assert(pending[j].client != pending[i].client);
            }
        }
    }
    clients.unique_seq_to_set();
    let nodes = set_int_range(0, capacity);
    lemma_int_range(0, capacity);
    assert(clients.to_set().subset_of(nodes)) by {
        assert forall|c: int| clients.to_set().contains(c) implies nodes.contains(c) by {
            let i = choose|i: int| 0 <= i < clients.len() && clients[i] == c;
            assert(pending[i].client < capacity);
        }
    }
    lemma_len_subset(clients.to_set(), nodes);
}

/// A valid sequence stays valid without its last request.
pub proof fn lemma_drop_last_valid(pending: Seq<VirtualAlarmRequest>, capacity: int, modulus: int)
    requires
        requests_valid(pending, capacity, modulus),
        pending.len() > 0,
    ensures
        requests_valid(pending.drop_last(), capacity, modulus),
{
    let front = pending.drop_last();
    assert forall|i: int| 0 <= i < front.len() implies (#[trigger] front[i]).client < capacity
        && front[i].deadline < modulus by {
        assert(front[i] == pending[i]);
    }
    assert forall|i: int, j: int| 0 <= i < j < front.len() implies (#[trigger] front[i]).client
        != (#[trigger] front[j]).client by {
        assert(front[i] == pending[i]);
        assert(front[j] == pending[j]);
    }
}

/// Dropping requests from a valid sequence leaves a valid sequence.
pub proof fn lemma_filter_valid(
    pending: Seq<VirtualAlarmRequest>,
    keep: spec_fn(VirtualAlarmRequest) -> bool,
    capacity: int,
    modulus: int,
)
    requires
        requests_valid(pending, capacity, modulus),
    ensures
        requests_valid(pending.filter(keep), capacity, modulus),
    decreases pending.len(),
{
    reveal(Seq::filter);
    if pending.len() > 0 {
        let front = pending.drop_last();
        lemma_drop_last_valid(pending, capacity, modulus);
        lemma_filter_valid(front, keep, capacity, modulus);
        lemma_filter_members(front, keep);
        let kept_front = front.filter(keep);
        let kept = pending.filter(keep);
        assert forall|i: int| 0 <= i < kept.len() implies (#[trigger] kept[i]).client < capacity
            && kept[i].deadline < modulus by {
            if i < kept_front.len() {
                assert(kept[i] == kept_front[i]);
            } else {
                assert(kept[i] == pending[pending.len() - 1]);
            }
        }
        assert forall|i: int, j: int| 0 <= i < j < kept.len() implies (#[trigger] kept[i]).client
            != (#[trigger] kept[j]).client by {
            assert(kept[i] == kept_front[i]);
            if j < kept_front.len() {
                assert(kept[j] == kept_front[j]);
            } else {
                assert(kept[j] == pending[pending.len() - 1]);
                assert(front.contains(kept_front[i]));
                let k = choose|k: int| 0 <= k < front.len() && front[k] == kept_front[i];
                assert(pending[k] == kept[i]);
            }
        }
    }
}

/// In a valid sequence a request stands at one index only.
pub proof fn lemma_index_of(pending: Seq<VirtualAlarmRequest>, i: int, capacity: int, modulus: int)
    requires
        requests_valid(pending, capacity, modulus),
        0 <= i < pending.len(),
    ensures
        pending.index_of(pending[i]) == i,
{
    let found = pending.index_of(pending[i]);
    assert(0 <= found < pending.len() && pending[found] == pending[i]);
    if found < i {
        assert(pending[found].client != pending[i].client);
    } else if i < found {
        assert(pending[i].client != pending[found].client);
    }
}

/// The deadline found by going through the requests is their minimum.
pub proof fn lemma_earliest_deadline(
    pending: Seq<VirtualAlarmRequest>,
    now: int,
    modulus: int,
)
    ensures
        is_earliest_deadline(earliest_deadline(pending, now, modulus), pending, now, modulus),
    decreases pending.len(),
{
    if pending.len() > 0 {
        let front = pending.drop_last();
        let last = pending.last().deadline;
        lemma_earliest_deadline(front, now, modulus);
        let best = earliest_deadline(pending, now, modulus).unwrap();
        match earliest_deadline(front, now, modulus) {
            None => {
                assert(pending[pending.len() - 1].deadline == best);
            },
            Some(before) => {
                let k = choose|k: int| 0 <= k < front.len() && (#[trigger] front[k]).deadline
                    == before;
                assert(pending[k] == front[k]);
                assert(pending[pending.len() - 1].deadline == last);
                assert forall|i: int| 0 <= i < pending.len() implies ticks_until(
                    best as int,
                    now,
                    modulus,
                ) <= ticks_until((#[trigger] pending[i]).deadline as int, now, modulus) by {
                    if i < front.len() {
                        assert(front[i] == pending[i]);
                    }
                }
            },
        }
    }
}

/// `sorted` is in order of deadline as seen from `now`, equal deadlines
/// allowed.
pub open spec fn sorted_by_deadline(sorted: Seq<VirtualAlarmRequest>, now: int, modulus: int) -> bool {
    forall|i: int, j: int|
        0 <= i < j < sorted.len() ==> ticks_until((#[trigger] sorted[i]).deadline as int, now, modulus)
            <= ticks_until((#[trigger] sorted[j]).deadline as int, now, modulus)
}

/// Where [`insert_by_deadline`] puts a request: at the one index that has
/// every entry due no later than the request before it and every entry due
/// later behind it.
pub proof fn lemma_insert_by_deadline(
    sorted: Seq<VirtualAlarmRequest>,
    request: VirtualAlarmRequest,
    now: int,
    modulus: int,
) -> (at: int)
    requires
        sorted_by_deadline(sorted, now, modulus),
    ensures
        0 <= at <= sorted.len(),
        insert_by_deadline(sorted, request, now, modulus) == sorted.insert(at, request),
        forall|k: int|
            0 <= k < at ==> ticks_until((#[trigger] sorted[k]).deadline as int, now, modulus)
                <= ticks_until(request.deadline as int, now, modulus),
        forall|k: int|
            at <= k < sorted.len() ==> ticks_until(
                (#[trigger] sorted[k]).deadline as int,
                now,
                modulus,
            ) > ticks_until(request.deadline as int, now, modulus),
    decreases sorted.len(),
{
    if sorted.len() == 0 {
        assert(seq![request] =~= sorted.insert(0, request));
        0
    } else if ticks_until(sorted.last().deadline as int, now, modulus) <= ticks_until(
        request.deadline as int,
        now,
        modulus,
    ) {
        let at = sorted.len() as int;
        assert(sorted.push(request) =~= sorted.insert(at, request));
        assert forall|k: int| 0 <= k < at implies ticks_until(
            (#[trigger] sorted[k]).deadline as int,
            now,
            modulus,
        ) <= ticks_until(request.deadline as int, now, modulus) by {
            if k < at - 1 {
                assert(ticks_until(sorted[k].deadline as int, now, modulus) <= ticks_until(
                    sorted[at - 1].deadline as int,
                    now,
                    modulus,
                ));
            }
        }
        at
    } else {
        let front = sorted.drop_last();
        assert(sorted_by_deadline(front, now, modulus)) by {
            assert forall|i: int, j: int| 0 <= i < j < front.len() implies ticks_until(
                (#[trigger] front[i]).deadline as int,
                now,
                modulus,
            ) <= ticks_until((#[trigger] front[j]).deadline as int, now, modulus) by {
                assert(front[i] == sorted[i]);
                assert(front[j] == sorted[j]);
            }
        }
        let at = lemma_insert_by_deadline(front, request, now, modulus);
        assert(front.insert(at, request).push(sorted.last()) =~= sorted.insert(at, request));
        assert forall|k: int| 0 <= k < at implies ticks_until(
            (#[trigger] sorted[k]).deadline as int,
            now,
            modulus,
        ) <= ticks_until(request.deadline as int, now, modulus) by {
            assert(front[k] == sorted[k]);
        }
        assert forall|k: int| at <= k < sorted.len() implies ticks_until(
            (#[trigger] sorted[k]).deadline as int,
            now,
            modulus,
        ) > ticks_until(request.deadline as int, now, modulus) by {
            if k < front.len() {
                assert(front[k] == sorted[k]);
            }
        }
        at
    }
}

/// The sequence that [`fire_order`] builds holds exactly the due requests,
/// by ascending deadline and, among equal deadlines, by arming order.
pub proof fn lemma_fire_order(
    pending: Seq<VirtualAlarmRequest>,
    now: int,
    capacity: int,
    modulus: int,
)
    requires
        requests_valid(pending, capacity, modulus),
    ensures
        is_fire_order(fire_order(pending, now, modulus), pending, now, modulus),
        sorted_by_deadline(fire_order(pending, now, modulus), now, modulus),
    decreases pending.len(),
{
    let fired = fire_order(pending, now, modulus);
    if pending.len() == 0 {
        assert forall|r: VirtualAlarmRequest|
            #![trigger fired.contains(r)]
            #![trigger pending.contains(r)]
            fired.contains(r) <==> pending.contains(r) && has_elapsed(
                r.deadline as int,
                now,
                modulus,
            ) by {}
    } else {
        let front = pending.drop_last();
        let last = pending.last();
        let top = pending.len() - 1;
        lemma_drop_last_valid(pending, capacity, modulus);
        lemma_fire_order(front, now, capacity, modulus);
        let earlier = fire_order(front, now, modulus);
        // A request of the front part stands at the same index in the whole.
        assert forall|r: VirtualAlarmRequest| front.contains(r) implies pending.contains(r)
            && pending.index_of(r) == front.index_of(r) && pending.index_of(r) < top by {
            let k = choose|k: int| 0 <= k < front.len() && front[k] == r;
            assert(pending[k] == r);
            lemma_index_of(front, k, capacity, modulus);
            lemma_index_of(pending, k, capacity, modulus);
        }
        assert forall|r: VirtualAlarmRequest| pending.contains(r) implies front.contains(r) || r
            == last by {
            let k = choose|k: int| 0 <= k < pending.len() && pending[k] == r;
            if k < top {
                assert(front[k] == r);
            }
        }
        assert(pending[top] == last);
        lemma_index_of(pending, top, capacity, modulus);
        assert forall|i: int, j: int| 0 <= i < j < earlier.len() implies fires_before(
            #[trigger] earlier[i],
            #[trigger] earlier[j],
            pending,
            now,
            modulus,
        ) by {
            assert(fires_before(earlier[i], earlier[j], front, now, modulus));
            assert(earlier.contains(earlier[i]));
            assert(earlier.contains(earlier[j]));
        }
        if has_elapsed(last.deadline as int, now, modulus) {
            let at = lemma_insert_by_deadline(earlier, last, now, modulus);
            assert(fired == earlier.insert(at, last));
            assert forall|r: VirtualAlarmRequest|
                #![trigger fired.contains(r)]
                #![trigger pending.contains(r)]
                fired.contains(r) <==> pending.contains(r) && has_elapsed(
                    r.deadline as int,
                    now,
                    modulus,
                ) by {
                if fired.contains(r) {
                    let k = choose|k: int| 0 <= k < fired.len() && fired[k] == r;
                    if k < at {
                        assert(earlier[k] == r);
                    } else if k > at {
                        assert(earlier[k - 1] == r);
                    }
                }
                if pending.contains(r) && has_elapsed(r.deadline as int, now, modulus) {
                    if r == last {
                        assert(fired[at] == r);
                    } else {
                        assert(earlier.contains(r));
                        let k = choose|k: int| 0 <= k < earlier.len() && earlier[k] == r;
                        if k < at {
                            assert(fired[k] == r);
                        } else {
                            assert(fired[k + 1] == r);
                        }
                    }
                }
            }
            assert forall|i: int, j: int| 0 <= i < j < fired.len() implies fires_before(
                #[trigger] fired[i],
                #[trigger] fired[j],
                pending,
                now,
                modulus,
            ) by {
                if j < at {
                    assert(fired[i] == earlier[i] && fired[j] == earlier[j]);
                } else if j == at {
                    assert(fired[i] == earlier[i]);
                    assert(earlier.contains(earlier[i]));
                    assert(front.contains(earlier[i]));
                } else if i < at {
                    assert(fired[i] == earlier[i] && fired[j] == earlier[j - 1]);
                } else if i == at {
                    assert(fired[j] == earlier[j - 1]);
                } else {
                    assert(fired[i] == earlier[i - 1] && fired[j] == earlier[j - 1]);
                }
            }
            assert forall|i: int, j: int| 0 <= i < j < fired.len() implies ticks_until(
                (#[trigger] fired[i]).deadline as int,
                now,
                modulus,
            ) <= ticks_until((#[trigger] fired[j]).deadline as int, now, modulus) by {
                assert(fires_before(fired[i], fired[j], pending, now, modulus));
            }
        } else {
            assert(fired == earlier);
            assert forall|r: VirtualAlarmRequest|
                #![trigger fired.contains(r)]
                #![trigger pending.contains(r)]
                fired.contains(r) <==> pending.contains(r) && has_elapsed(
                    r.deadline as int,
                    now,
                    modulus,
                ) by {}
        }
    }
}

/// `sorted` is strictly ascending in firing order.
pub open spec fn ascending_in_fire_order(
    sorted: Seq<VirtualAlarmRequest>,
    pending: Seq<VirtualAlarmRequest>,
    now: int,
    modulus: int,
) -> bool {
    forall|i: int, j: int|
        0 <= i < j < sorted.len() ==> fires_before(
            #[trigger] sorted[i],
            #[trigger] sorted[j],
            pending,
            now,
            modulus,
        )
}

/// Two sequences that hold the same requests, both ascending in firing
/// order, are the same sequence.
pub proof fn lemma_ascending_same_members(
    first: Seq<VirtualAlarmRequest>,
    second: Seq<VirtualAlarmRequest>,
    pending: Seq<VirtualAlarmRequest>,
    now: int,
    modulus: int,
)
    requires
        ascending_in_fire_order(first, pending, now, modulus),
        ascending_in_fire_order(second, pending, now, modulus),
        forall|r: VirtualAlarmRequest| first.contains(r) <==> second.contains(r),
    ensures
        first == second,
    decreases first.len(),
{
    if first.len() == 0 {
        if second.len() > 0 {
            assert(second.contains(second[0]));
        }
        assert(first =~= second);
    } else {
        let head = first[0];
        assert(first.contains(head));
        let k = choose|k: int| 0 <= k < second.len() && second[k] == head;
        if k > 0 {
            let other = second[0];
            assert(fires_before(second[0], second[k], pending, now, modulus));
            assert(second.contains(other));
            let m = choose|m: int| 0 <= m < first.len() && first[m] == other;
            if m > 0 {
                assert(fires_before(first[0], first[m], pending, now, modulus));
            }
        }
        assert(second[0] == head);
        let first_rest = first.skip(1);
        let second_rest = second.skip(1);
        assert forall|i: int, j: int| 0 <= i < j < first_rest.len() implies fires_before(
            #[trigger] first_rest[i],
            #[trigger] first_rest[j],
            pending,
            now,
            modulus,
        ) by {
            assert(fires_before(first[i + 1], first[j + 1], pending, now, modulus));
        }
        assert forall|i: int, j: int| 0 <= i < j < second_rest.len() implies fires_before(
            #[trigger] second_rest[i],
            #[trigger] second_rest[j],
            pending,
            now,
            modulus,
        ) by {
            assert(fires_before(second[i + 1], second[j + 1], pending, now, modulus));
        }
        assert forall|r: VirtualAlarmRequest| first_rest.contains(r) <==> second_rest.contains(
            r,
        ) by {
            if first_rest.contains(r) {
                let i = choose|i: int| 0 <= i < first_rest.len() && first_rest[i] == r;
                assert(fires_before(first[0], first[i + 1], pending, now, modulus));
                assert(first.contains(first[i + 1]));
                let j = choose|j: int| 0 <= j < second.len() && second[j] == r;
                assert(second_rest[j - 1] == r);
            }
            if second_rest.contains(r) {
                let i = choose|i: int| 0 <= i < second_rest.len() && second_rest[i] == r;
                assert(fires_before(second[0], second[i + 1], pending, now, modulus));
                assert(second.contains(second[i + 1]));
                let j = choose|j: int| 0 <= j < first.len() && first[j] == r;
                assert(first_rest[j - 1] == r);
            }
        }
        lemma_ascending_same_members(first_rest, second_rest, pending, now, modulus);
        assert(first =~= second) by {
            assert(first.len() == second.len()) by {
                assert(first_rest.len() == second_rest.len());
            }
            assert forall|i: int| 0 <= i < first.len() implies first[i] == second[i] by {
                if i > 0 {
                    assert(first_rest[i - 1] == second_rest[i - 1]);
                }
            }
        }
    }
}

/// There is one firing order only: whatever meets [`is_fire_order`] is the
/// sequence that [`fire_order`] builds.
pub proof fn lemma_fire_order_unique(
    fired: Seq<VirtualAlarmRequest>,
    pending: Seq<VirtualAlarmRequest>,
    now: int,
    capacity: int,
    modulus: int,
)
    requires
        requests_valid(pending, capacity, modulus),
        is_fire_order(fired, pending, now, modulus),
    ensures
        fired == fire_order(pending, now, modulus),
{
    lemma_fire_order(pending, now, capacity, modulus);
    lemma_ascending_same_members(
        fired,
        fire_order(pending, now, modulus),
        pending,
        now,
        modulus,
    );
}

/// At most one deadline is the earliest: the hardware cannot rightly be armed
/// for two different ones.
pub proof fn lemma_earliest_deadline_unique(
    first: Option<u32>,
    second: Option<u32>,
    pending: Seq<VirtualAlarmRequest>,
    now: int,
    capacity: int,
    modulus: int,
)
    requires
        requests_valid(pending, capacity, modulus),
        2 <= modulus,
        modulus % 2 == 0,
        0 <= now < modulus,
        is_earliest_deadline(first, pending, now, modulus),
        is_earliest_deadline(second, pending, now, modulus),
    ensures
        first == second,
{
    match (first, second) {
        (Some(a), Some(b)) => {
            let i = choose|i: int| 0 <= i < pending.len() && (#[trigger] pending[i]).deadline == a;
            let j = choose|j: int| 0 <= j < pending.len() && (#[trigger] pending[j]).deadline == b;
            lemma_ticks_until_injective(a as int, b as int, now, modulus);
        },
        _ => {},
    }
}

/// Two requests with the same deadline fire in the order in which they were
/// armed.
pub proof fn lemma_equal_deadlines_fire_in_arming_order(
    pending: Seq<VirtualAlarmRequest>,
    now: int,
    capacity: int,
    modulus: int,
    i: int,
    j: int,
)
    requires
        requests_valid(pending, capacity, modulus),
        0 <= i < j < pending.len(),
        pending[i].deadline == pending[j].deadline,
        has_elapsed(pending[i].deadline as int, now, modulus),
    ensures
        fire_order(pending, now, modulus).contains(pending[i]),
        fire_order(pending, now, modulus).contains(pending[j]),
        fire_order(pending, now, modulus).index_of(pending[i]) < fire_order(
            pending,
            now,
            modulus,
        ).index_of(pending[j]),
{
    let fired = fire_order(pending, now, modulus);
    lemma_fire_order(pending, now, capacity, modulus);
    assert(pending.contains(pending[i]));
    assert(pending.contains(pending[j]));
    lemma_index_of(pending, i, capacity, modulus);
    lemma_index_of(pending, j, capacity, modulus);
    let a = fired.index_of(pending[i]);
    let b = fired.index_of(pending[j]);
    assert(0 <= a < fired.len() && fired[a] == pending[i]);
    assert(0 <= b < fired.len() && fired[b] == pending[j]);
    if b < a {
        assert(fires_before(fired[b], fired[a], pending, now, modulus));
    }
}

} // verus!
