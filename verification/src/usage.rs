use vstd::prelude::*;

use crate::admin::get_paused_status;
use crate::groups::{store_group, usage_cost, with_group};
use crate::history::{record_payment, record_payment_spec};
use crate::ids::{Address, GroupId};
use crate::model::{outcome_view, Action, ActionView, Error, GroupView};
use crate::store::{fee_of, follows, paused_of, settles, tokens_of, Store, StoreView};
use crate::tokens::{get_usage_fee, is_token_supported};

verus! {

/// Whether a top-up passes every check and comes to adding the usages.
pub open spec fn topup_reaches_update(s: StoreView, id: Seq<u8>, additional: u32, token: Seq<u8>) -> bool {
    &&& !paused_of(s)
    &&& additional != 0
    &&& s.groups.contains_key(id)
    &&& tokens_of(s).contains(token)
}

/// Whether adding the usages would overflow a group's `u32` counters.
pub open spec fn topup_overflows(s: StoreView, id: Seq<u8>, additional: u32, token: Seq<u8>) -> bool {
    &&& topup_reaches_update(s, id, additional, token)
    &&& (s.groups[id].usage_count + additional > u32::MAX || s.groups[id].total_usages_paid + additional
        > u32::MAX)
}

pub open spec fn topup_subscription_spec(
    s: StoreView,
    id: Seq<u8>,
    additional: u32,
    token: Seq<u8>,
    payer: Seq<u8>,
    now: u64,
) -> Result<(StoreView, Seq<ActionView>), Error> {
    if paused_of(s) {
        Err(Error::ContractPaused)
    } else if additional == 0 {
        Err(Error::InvalidUsageCount)
    } else if !s.groups.contains_key(id) {
        Err(Error::NotFound)
    } else if !tokens_of(s).contains(token) {
        Err(Error::UnsupportedToken)
    } else {
        let g = s.groups[id];
        let cost = usage_cost(additional, fee_of(s));
        let g2 = GroupView {
            usage_count: (g.usage_count + additional) as u32,
            total_usages_paid: (g.total_usages_paid + additional) as u32,
            ..g
        };
        Ok(
            (
                record_payment_spec(with_group(s, id, g2), payer, id, additional, cost, now),
                seq![ActionView::Collect { token, from: payer, amount: cost }],
            ),
        )
    }
}

pub open spec fn reduce_usage_spec(s: StoreView, id: Seq<u8>) -> Result<StoreView, Error> {
    if !s.groups.contains_key(id) {
        Err(Error::NotFound)
    } else if s.groups[id].usage_count == 0 {
        Err(Error::NoUsagesRemaining)
    } else {
        let g = s.groups[id];
        Ok(with_group(s, id, GroupView { usage_count: (g.usage_count - 1) as u32, ..g }))
    }
}

/// Buys `additional_usages` more usages for group `id`, paid by `payer` in
/// `payment_token`. On success it asks for the payment to be collected.
/// (The caller has already required `payer`'s authorization.)
pub fn topup_subscription(
    store: &mut Store,
    id: GroupId,
    additional_usages: u32,
    payment_token: Address,
    payer: Address,
    now: u64,
) -> (r: Result<Vec<Action>, Error>)
    requires
        old(store).wf(),
        !topup_overflows(old(store)@, id@, additional_usages, payment_token@),
    ensures
        final(store).wf(),
        follows(
            topup_subscription_spec(old(store)@, id@, additional_usages, payment_token@, payer@, now),
            old(store)@,
            final(store)@,
            outcome_view(r),
        ),
{
    let ghost pre = store@;
    if get_paused_status(store) {
        return Err(Error::ContractPaused);
    }
    if additional_usages == 0 {
        return Err(Error::InvalidUsageCount);
    }
    let mut details = match store.groups.get(&id.bytes) {
        Some(d) => d.duplicate(),
        None => {
            return Err(Error::NotFound);
        },
    };
    if !is_token_supported(store, &payment_token) {
        return Err(Error::UnsupportedToken);
    }
    let fee = get_usage_fee(store);
    assert(0 <= (additional_usages as int) * (fee as int) <= 0xffff_ffff * 0xffff_ffff) by (nonlinear_arith)
        requires
            additional_usages <= 0xffff_ffff,
            fee <= 0xffff_ffff,
    ;
    let total_cost: i128 = (additional_usages as i128) * (fee as i128);
    let ghost cost = usage_cost(additional_usages, fee_of(pre));
    assert(total_cost == cost);
    let mut acts: Vec<Action> = Vec::new();
    acts.push(Action::Collect { token: payment_token, from: payer.duplicate(), amount: total_cost });

    let ghost g = details@;
    details.usage_count = details.usage_count + additional_usages;
    details.total_usages_paid = details.total_usages_paid + additional_usages;
    assert(details@ =~= GroupView {
        usage_count: (g.usage_count + additional_usages) as u32,
        total_usages_paid: (g.total_usages_paid + additional_usages) as u32,
        ..g
    });
    store_group(store, details);
    record_payment(store, &payer, &id, additional_usages, total_cost, now);
    assert(acts.deep_view() =~= seq![
        ActionView::Collect { token: payment_token@, from: payer@, amount: cost },
    ]);
    Ok(acts)
}

/// Whether `topup_subscription` with these arguments would overflow a
/// group's usage counters (see `topup_overflows`).
pub fn topup_would_overflow(store: &Store, id: &GroupId, additional_usages: u32, payment_token: &Address) -> (r:
    bool)
    requires
        store.wf(),
    ensures
        r == topup_overflows(store@, id@, additional_usages, payment_token@),
{
    if get_paused_status(store) || additional_usages == 0 {
        return false;
    }
    match store.groups.get(&id.bytes) {
        None => false,
        Some(d) => {
            if !is_token_supported(store, payment_token) {
                return false;
            }
            (d.usage_count as u64) + (additional_usages as u64) > 4294967295u64
                || (d.total_usages_paid as u64) + (additional_usages as u64) > 4294967295u64
        },
    }
}

/// The usages group `id` has left, or `NotFound`.
pub fn get_remaining_usages(store: &Store, id: &GroupId) -> (r: Result<u32, Error>)
    requires
        store.wf(),
    ensures
        match r {
            Ok(n) => store@.groups.contains_key(id@) && n == store@.groups[id@].usage_count,
            Err(e) => !store@.groups.contains_key(id@) && e == Error::NotFound,
        },
{
    match store.groups.get(&id.bytes) {
        Some(d) => Ok(d.usage_count),
        None => Err(Error::NotFound),
    }
}

/// The usages ever paid for group `id`, or `NotFound`.
pub fn get_total_usages_paid(store: &Store, id: &GroupId) -> (r: Result<u32, Error>)
    requires
        store.wf(),
    ensures
        match r {
            Ok(n) => store@.groups.contains_key(id@) && n == store@.groups[id@].total_usages_paid,
            Err(e) => !store@.groups.contains_key(id@) && e == Error::NotFound,
        },
{
    match store.groups.get(&id.bytes) {
        Some(d) => Ok(d.total_usages_paid),
        None => Err(Error::NotFound),
    }
}

/// Uses up one of group `id`'s remaining usages.
pub fn reduce_usage(store: &mut Store, id: GroupId) -> (r: Result<(), Error>)
    requires
        old(store).wf(),
    ensures
        final(store).wf(),
        settles(reduce_usage_spec(old(store)@, id@), old(store)@, final(store)@, r),
{
    let mut details = match store.groups.get(&id.bytes) {
        Some(d) => d.duplicate(),
        None => {
            return Err(Error::NotFound);
        },
    };
    if details.usage_count == 0 {
        return Err(Error::NoUsagesRemaining);
    }
    let ghost g = details@;
    details.usage_count = details.usage_count - 1;
    assert(details@ =~= GroupView { usage_count: (g.usage_count - 1) as u32, ..g });
    store_group(store, details);
    Ok(())
}

} // verus!
