//! The reverse-lookup lists: which bills a cycle has and which cycles a user
//! has. The ledger keeps no such lists; it reads them off its records, and
//! what is proved here is that they are what kept lists would be.

use vstd::prelude::*;
use crate::bill_lemmas::added_slots;
use crate::model::{bill_ids_upto, cycle_ids_upto, Ledger};
use crate::types::{BillCycle, BillView, Identity, NewBillView};

verus! {

/// Whether a list of ids is in strictly ascending order.
pub open spec fn ascending(ids: Seq<u64>) -> bool {
    forall|i: int, j: int| 0 <= i < j < ids.len() ==> ids[i] < ids[j]
}

/// The ids that a batch of `count` new bills takes, after `existing` bills.
pub open spec fn next_ids(existing: nat, count: nat) -> Seq<u64> {
    Seq::new(count, |i: int| (existing + i + 1) as u64)
}

/// The list of a cycle's bills among the first `n` slots holds, in
/// ascending order, exactly the ids up to `n` of the bills that exist and
/// belong to the cycle.
pub proof fn lemma_bill_ids(bills: Seq<Option<BillView>>, cycle_id: u64, n: int)
    requires
        0 <= n <= bills.len() <= u64::MAX,
    ensures
        ascending(bill_ids_upto(bills, cycle_id, n)),
        forall|id: u64|
            bill_ids_upto(bills, cycle_id, n).contains(id) <==> (1 <= id <= n && bills[id - 1]
                is Some && bills[id - 1]->0.cycle_id == cycle_id),
    decreases n,
{
    let full = bill_ids_upto(bills, cycle_id, n);
    if n > 0 {
        let rest = bill_ids_upto(bills, cycle_id, n - 1);
        lemma_bill_ids(bills, cycle_id, n - 1);
        let listed = bills[n - 1] is Some && bills[n - 1]->0.cycle_id == cycle_id;
        assert(full == if listed {
            rest.push(n as u64)
        } else {
            rest
        });
        assert forall|k: int| 0 <= k < rest.len() implies rest[k] < n by {
            assert(rest.contains(rest[k]));
        }
        assert forall|id: u64| full.contains(id) <==> (1 <= id <= n && bills[id - 1] is Some
            && bills[id - 1]->0.cycle_id == cycle_id) by {
            if full.contains(id) {
                let k = choose|k: int| 0 <= k < full.len() && full[k] == id;
                if k < rest.len() {
                    assert(rest[k] == id);
                    assert(rest.contains(id));
                }
            }
            if 1 <= id <= n && bills[id - 1] is Some && bills[id - 1]->0.cycle_id == cycle_id {
                if id == n {
                    assert(full[full.len() - 1] == id);
                } else {
                    assert(rest.contains(id));
                    let k = choose|k: int| 0 <= k < rest.len() && rest[k] == id;
                    assert(full[k] == id);
                }
            }
        }
    }
}

/// The list of a user's cycles among the first `n` holds, in ascending
/// order, exactly the ids up to `n` of the cycles that are the user's.
pub proof fn lemma_cycle_ids(cycles: Seq<BillCycle>, user: Identity, n: int)
    requires
        0 <= n <= cycles.len() <= u64::MAX,
    ensures
        ascending(cycle_ids_upto(cycles, user, n)),
        forall|id: u64|
            cycle_ids_upto(cycles, user, n).contains(id) <==> (1 <= id <= n && cycles[id
                - 1].user == user),
    decreases n,
{
    let full = cycle_ids_upto(cycles, user, n);
    if n > 0 {
        let rest = cycle_ids_upto(cycles, user, n - 1);
        lemma_cycle_ids(cycles, user, n - 1);
        let listed = cycles[n - 1].user == user;
        assert(full == if listed {
            rest.push(n as u64)
        } else {
            rest
        });
        assert forall|k: int| 0 <= k < rest.len() implies rest[k] < n by {
            assert(rest.contains(rest[k]));
        }
        assert forall|id: u64| full.contains(id) <==> (1 <= id <= n && cycles[id - 1].user
            == user) by {
            if full.contains(id) {
                let k = choose|k: int| 0 <= k < full.len() && full[k] == id;
                if k < rest.len() {
                    assert(rest[k] == id);
                    assert(rest.contains(id));
                }
            }
            if 1 <= id <= n && cycles[id - 1].user == user {
                if id == n {
                    assert(full[full.len() - 1] == id);
                } else {
                    assert(rest.contains(id));
                    let k = choose|k: int| 0 <= k < rest.len() && rest[k] == id;
                    assert(full[k] == id);
                }
            }
        }
    }
}

/// Slots that agree give the same list.
pub proof fn lemma_bill_ids_same(
    before: Seq<Option<BillView>>,
    after: Seq<Option<BillView>>,
    cycle_id: u64,
    n: int,
)
    requires
        0 <= n <= before.len(),
        n <= after.len(),
        forall|i: int| 0 <= i < n ==> #[trigger] after[i] == before[i],
    ensures
        bill_ids_upto(after, cycle_id, n) == bill_ids_upto(before, cycle_id, n),
    decreases n,
{
    if n > 0 {
        lemma_bill_ids_same(before, after, cycle_id, n - 1);
        assert(after[n - 1] == before[n - 1]);
    }
}

/// Cycles that agree give the same list.
pub proof fn lemma_cycle_ids_same(
    before: Seq<BillCycle>,
    after: Seq<BillCycle>,
    user: Identity,
    n: int,
)
    requires
        0 <= n <= before.len(),
        n <= after.len(),
        forall|i: int| 0 <= i < n ==> (#[trigger] after[i]).user == before[i].user,
    ensures
        cycle_ids_upto(after, user, n) == cycle_ids_upto(before, user, n),
    decreases n,
{
    if n > 0 {
        lemma_cycle_ids_same(before, after, user, n - 1);
        assert(after[n - 1].user == before[n - 1].user);
    }
}

/// New bills join the list of their cycle in the order declared, and no
/// other list.
pub proof fn lemma_bill_ids_added(
    s: Ledger,
    cycle_id: u64,
    entries: Seq<NewBillView>,
    other: u64,
    k: int,
)
    requires
        0 <= k <= entries.len(),
        s.bills.len() + entries.len() <= u64::MAX,
    ensures
        bill_ids_upto(s.bills + added_slots(s, cycle_id, entries), other, s.bills.len() + k)
            == if other == cycle_id {
            s.cycle_bill_ids(other) + next_ids(s.bills.len(), k as nat)
        } else {
            s.cycle_bill_ids(other)
        },
    decreases k,
{
    let all = s.bills + added_slots(s, cycle_id, entries);
    if k == 0 {
        lemma_bill_ids_same(s.bills, all, other, s.bills.len() as int);
        assert(s.cycle_bill_ids(other) + next_ids(s.bills.len(), 0) =~= s.cycle_bill_ids(other));
    } else {
        lemma_bill_ids_added(s, cycle_id, entries, other, k - 1);
        assert(all[s.bills.len() + k - 1] == Some(s.added_bill(cycle_id, entries[k - 1], k - 1)));
        if other == cycle_id {
            assert((s.cycle_bill_ids(other) + next_ids(s.bills.len(), (k - 1) as nat)).push(
                (s.bills.len() + k) as u64,
            ) =~= s.cycle_bill_ids(other) + next_ids(s.bills.len(), k as nat));
        }
    }
}

/// The list of a cycle's bills holds, in ascending order, exactly the ids of
/// the bills that exist and belong to the cycle.
pub proof fn law_bill_index(s: Ledger, cycle_id: u64)
    requires
        s.bills.len() <= u64::MAX,
    ensures
        ascending(s.cycle_bill_ids(cycle_id)),
        forall|id: u64|
            s.cycle_bill_ids(cycle_id).contains(id) <==> (s.has_bill(id) && s.bill(id).cycle_id
                == cycle_id),
{
    lemma_bill_ids(s.bills, cycle_id, s.bills.len() as int);
}

/// The list of a user's cycles holds, in ascending order, exactly the ids of
/// the cycles that are the user's.
pub proof fn law_user_index(s: Ledger, user: Identity)
    requires
        s.cycles.len() <= u64::MAX,
    ensures
        ascending(s.user_cycle_ids(user)),
        forall|id: u64|
            s.user_cycle_ids(user).contains(id) <==> (s.has_cycle(id) && s.cycle(id).user
                == user),
{
    lemma_cycle_ids(s.cycles, user, s.cycles.len() as int);
}

/// A new cycle is appended to the list of its user and to the list of all
/// cycles, leaves the list of every other user as it was, and starts with no
/// bills.
pub proof fn law_creation_extends_indexes(
    s: Ledger,
    user: Identity,
    other: Identity,
    duration_months: u32,
    amount: i128,
    now: u64,
)
    requires
        s.wf(),
        s.cycles.len() < u64::MAX,
        other != user,
    ensures
        ({
            let t = s.create_cycle_next(user, duration_months, amount, now);
            let cycle_id = (s.cycles.len() + 1) as u64;
            &&& t.user_cycle_ids(user) == s.user_cycle_ids(user).push(cycle_id)
            &&& t.user_cycle_ids(other) == s.user_cycle_ids(other)
            &&& t.all_cycle_ids() == s.all_cycle_ids().push(cycle_id)
            &&& t.cycle_bill_ids(cycle_id) == Seq::<u64>::empty()
        }),
{
    let t = s.create_cycle_next(user, duration_months, amount, now);
    let cycle_id = (s.cycles.len() + 1) as u64;
    lemma_cycle_ids_same(s.cycles, t.cycles, user, s.cycles.len() as int);
    lemma_cycle_ids_same(s.cycles, t.cycles, other, s.cycles.len() as int);
    assert(t.all_cycle_ids() =~= s.all_cycle_ids().push(cycle_id));
    lemma_bill_ids(t.bills, cycle_id, t.bills.len() as int);
    let none = t.cycle_bill_ids(cycle_id);
    if none.len() > 0 {
        assert(none.contains(none[0]));
        assert(s.bill_ok(none[0] - 1));
    }
    assert(none =~= Seq::<u64>::empty());
}

/// The bills of a batch that is taken are appended to the list of their
/// cycle in the order declared, and the list of every other cycle stays as
/// it was.
pub proof fn law_added_bills_extend_index(
    s: Ledger,
    cycle_id: u64,
    other: u64,
    entries: Seq<NewBillView>,
)
    requires
        s.bills.len() + entries.len() <= u64::MAX,
        other != cycle_id,
    ensures
        s.add_bills_next(cycle_id, entries).cycle_bill_ids(cycle_id) == s.cycle_bill_ids(
            cycle_id,
        ) + next_ids(s.bills.len(), entries.len()),
        s.add_bills_next(cycle_id, entries).cycle_bill_ids(other) == s.cycle_bill_ids(other),
{
    let t = s.add_bills_next(cycle_id, entries);
    assert(t.bills =~= s.bills + added_slots(s, cycle_id, entries));
    lemma_bill_ids_added(s, cycle_id, entries, cycle_id, entries.len() as int);
    lemma_bill_ids_added(s, cycle_id, entries, other, entries.len() as int);
}

/// A bill that is deleted leaves the list of its cycle, and nothing else
/// changes in any list: afterwards a list holds exactly the ids it held,
/// less that of the bill.
pub proof fn law_deleted_bill_leaves_index(s: Ledger, bill_id: u64, month: u32, cycle_id: u64)
    requires
        s.bills.len() <= u64::MAX,
        s.has_bill(bill_id),
    ensures
        ascending(s.delete_bill_next(bill_id, month).cycle_bill_ids(cycle_id)),
        forall|id: u64|
            s.delete_bill_next(bill_id, month).cycle_bill_ids(cycle_id).contains(id) <==> (
            s.cycle_bill_ids(cycle_id).contains(id) && id != bill_id),
{
    let t = s.delete_bill_next(bill_id, month);
    law_bill_index(s, cycle_id);
    law_bill_index(t, cycle_id);
    assert forall|id: u64|
        t.cycle_bill_ids(cycle_id).contains(id) <==> (s.cycle_bill_ids(cycle_id).contains(id) && id
            != bill_id) by {
        assert(t.cycle_bill_ids(cycle_id).contains(id) <==> (t.has_bill(id) && t.bill(id).cycle_id
            == cycle_id));
        assert(s.cycle_bill_ids(cycle_id).contains(id) <==> (s.has_bill(id) && s.bill(id).cycle_id
            == cycle_id));
        if 1 <= id <= s.bills.len() && id != bill_id {
            assert(t.bills[id - 1] == s.bills[id - 1]);
        }
    }
}

} // verus!
