use vstd::prelude::*;

use crate::ids::{Address, GroupId};
use crate::model::{copy_payments, PaymentHistory, PaymentView};
use crate::store::{history_at, Store, StoreView};
use crate::table::Table;

verus! {

/// The record of one purchase of usages.
pub open spec fn payment_record(
    user: Seq<u8>,
    group_id: Seq<u8>,
    usages: u32,
    amount: i128,
    now: u64,
) -> PaymentView {
    PaymentView { user, group_id, usages_purchased: usages, amount_paid: amount, timestamp: now }
}

/// Storage after a purchase is appended to the buyer's history and to the
/// group's history.
pub open spec fn record_payment_spec(
    s: StoreView,
    user: Seq<u8>,
    group_id: Seq<u8>,
    usages: u32,
    amount: i128,
    now: u64,
) -> StoreView {
    let rec = payment_record(user, group_id, usages, amount, now);
    StoreView {
        user_history: s.user_history.insert(user, history_at(s.user_history, user).push(rec)),
        group_history: s.group_history.insert(group_id, history_at(s.group_history, group_id).push(rec)),
        ..s
    }
}

/// The records under `key`, a copy; empty when the entry is absent.
fn history_in(t: &Table<Vec<PaymentHistory>>, key: &Vec<u8>) -> (r: Vec<PaymentHistory>)
    requires
        t.wf(),
    ensures
        r.deep_view() == history_at(t.map(), key@),
{
    match t.get(key) {
        Some(h) => copy_payments(h),
        None => {
            let v: Vec<PaymentHistory> = Vec::new();
            assert(v.deep_view() =~= Seq::<PaymentView>::empty());
            v
        },
    }
}

/// Appends the record of a purchase to the buyer's and the group's history.
pub fn record_payment(
    store: &mut Store,
    user: &Address,
    group_id: &GroupId,
    usages_purchased: u32,
    amount_paid: i128,
    timestamp: u64,
)
    requires
        old(store).wf(),
    ensures
        final(store).wf(),
        final(store)@ == record_payment_spec(
            old(store)@,
            user@,
            group_id@,
            usages_purchased,
            amount_paid,
            timestamp,
        ),
{
    let ghost pre = store@;
    let ghost rec = payment_record(user@, group_id@, usages_purchased, amount_paid, timestamp);
    let payment = PaymentHistory {
        user: user.duplicate(),
        group_id: group_id.duplicate(),
        usages_purchased,
        amount_paid,
        timestamp,
    };
    let mut user_records = history_in(&store.user_history, &user.bytes);
    let ghost before = user_records.deep_view();
    user_records.push(payment.duplicate());
    assert(user_records.deep_view() =~= before.push(rec));
    store.user_history.set(user.duplicate().bytes, user_records);

    let mut group_records = history_in(&store.group_history, &group_id.bytes);
    let ghost before2 = group_records.deep_view();
    group_records.push(payment);
    assert(group_records.deep_view() =~= before2.push(rec));
    store.group_history.set(group_id.duplicate().bytes, group_records);
    assert(store@ =~= record_payment_spec(pre, user@, group_id@, usages_purchased, amount_paid, timestamp));
}

/// Every purchase made by `user`, oldest first.
pub fn get_user_payment_history(store: &Store, user: &Address) -> (r: Vec<PaymentHistory>)
    requires
        store.wf(),
    ensures
        r.deep_view() == history_at(store@.user_history, user@),
{
    history_in(&store.user_history, &user.bytes)
}

/// Every purchase made for group `id`, oldest first.
pub fn get_group_payment_history(store: &Store, id: &GroupId) -> (r: Vec<PaymentHistory>)
    requires
        store.wf(),
    ensures
        r.deep_view() == history_at(store@.group_history, id@),
{
    history_in(&store.group_history, &id.bytes)
}

} // verus!
