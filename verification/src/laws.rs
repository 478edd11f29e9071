use vstd::prelude::*;

use crate::admin::{
    initialize_admin_spec, is_admin, pause_spec, transfer_admin_spec, unpause_spec,
};
use crate::groups::{
    groups_by_creator, listed_groups, usage_cost, with_group, add_group_member_spec, add_member_reaches_check, create_autoshare_spec, creator_may_edit,
    new_group, set_active_spec, update_members_spec,
};
use crate::members::{
    has_duplicate, members_overflow, share_sum, validate_members_spec,
};
use crate::model::{Error, GroupView, MemberView, PaymentView};
use crate::history::{payment_record, record_payment_spec};
use crate::store::{empty_store, fee_of, group_ids_of, history_at, paused_of, tokens_of, StoreView};
use crate::tokens::{
    add_supported_token_spec, remove_supported_token_spec, set_usage_fee_spec, without_token,
};
use crate::usage::{reduce_usage_spec, topup_overflows, topup_subscription_spec};
use crate::treasury::withdraw_spec;

verus! {

/// Every operation that changes storage, with its arguments.
pub enum Op {
    InitializeAdmin { admin: Seq<u8> },
    TransferAdmin { current: Seq<u8>, new_admin: Seq<u8> },
    Pause { admin: Seq<u8> },
    Unpause { admin: Seq<u8> },
    AddSupportedToken { token: Seq<u8>, admin: Seq<u8> },
    RemoveSupportedToken { token: Seq<u8>, admin: Seq<u8> },
    SetUsageFee { fee: u32, admin: Seq<u8> },
    Create { id: Seq<u8>, name: Seq<u8>, creator: Seq<u8>, usage_count: u32, token: Seq<u8>, now: u64 },
    AddMember { id: Seq<u8>, address: Seq<u8>, percentage: u32 },
    UpdateMembers { id: Seq<u8>, caller: Seq<u8>, members: Seq<MemberView> },
    SetActive { id: Seq<u8>, caller: Seq<u8>, active: bool },
    Topup { id: Seq<u8>, additional: u32, token: Seq<u8>, payer: Seq<u8>, now: u64 },
    ReduceUsage { id: Seq<u8> },
}

/// The storage after `op`, when it succeeds.
pub open spec fn apply(s: StoreView, op: Op) -> Option<StoreView> {
    match op {
        Op::InitializeAdmin { admin } => Some(initialize_admin_spec(s, admin)),
        Op::TransferAdmin { current, new_admin } => match transfer_admin_spec(s, current, new_admin) {
            Ok((s2, _)) => Some(s2),
            Err(_) => None,
        },
        Op::Pause { admin } => match pause_spec(s, admin) {
            Ok((s2, _)) => Some(s2),
            Err(_) => None,
        },
        Op::Unpause { admin } => match unpause_spec(s, admin) {
            Ok((s2, _)) => Some(s2),
            Err(_) => None,
        },
        Op::AddSupportedToken { token, admin } => match add_supported_token_spec(s, token, admin) {
            Ok(s2) => Some(s2),
            Err(_) => None,
        },
        Op::RemoveSupportedToken { token, admin } => match remove_supported_token_spec(s, token, admin) {
            Ok(s2) => Some(s2),
            Err(_) => None,
        },
        Op::SetUsageFee { fee, admin } => match set_usage_fee_spec(s, fee, admin) {
            Ok(s2) => Some(s2),
            Err(_) => None,
        },
        Op::Create { id, name, creator, usage_count, token, now } => match create_autoshare_spec(
            s,
            id,
            name,
            creator,
            usage_count,
            token,
            now,
        ) {
            Ok((s2, _)) => Some(s2),
            Err(_) => None,
        },
        Op::AddMember { id, address, percentage } => match add_group_member_spec(s, id, address, percentage) {
            Ok(s2) => Some(s2),
            Err(_) => None,
        },
        Op::UpdateMembers { id, caller, members } => match update_members_spec(s, id, caller, members) {
            Ok((s2, _)) => Some(s2),
            Err(_) => None,
        },
        Op::SetActive { id, caller, active } => match set_active_spec(s, id, caller, active) {
            Ok((s2, _)) => Some(s2),
            Err(_) => None,
        },
        Op::Topup { id, additional, token, payer, now } => match topup_subscription_spec(
            s,
            id,
            additional,
            token,
            payer,
            now,
        ) {
            Ok((s2, _)) => Some(s2),
            Err(_) => None,
        },
        Op::ReduceUsage { id } => match reduce_usage_spec(s, id) {
            Ok(s2) => Some(s2),
            Err(_) => None,
        },
    }
}

/// The inputs on which the operation runs without overflowing (the
/// executable functions require this).
pub open spec fn admissible(s: StoreView, op: Op) -> bool {
    match op {
        Op::AddMember { id, address, percentage } => add_member_reaches_check(s, id, address)
            ==> !members_overflow(s.groups[id].members.push(MemberView { address, percentage })),
        Op::UpdateMembers { id, caller, members } => creator_may_edit(s, id, caller) ==> !members_overflow(
            members,
        ),
        Op::Topup { id, additional, token, .. } => !topup_overflows(s, id, additional, token),
        _ => true,
    }
}

/// A group's member list is either empty or a valid split: no address
/// twice, percentages adding up to 100.
pub open spec fn members_valid(ms: Seq<MemberView>) -> bool {
    ms.len() == 0 || (!has_duplicate(ms) && share_sum(ms) == 100)
}

/// The number of usages bought in a list of payment records.
pub open spec fn usages_bought(h: Seq<PaymentView>) -> int
    decreases h.len(),
{
    if h.len() == 0 {
        0
    } else {
        usages_bought(h.drop_last()) + h.last().usages_purchased
    }
}

/// What holds of the contract's complete storage at all times:
/// every group has at most as many usages left as were ever paid for;
/// every group's member list is empty or a valid split; the list of all
/// groups names each stored group exactly once and nothing else; payment
/// records exist only for stored groups, each group's paid usages are the
/// usages bought in its payment records, and every record sits in the
/// history of its own buyer and its own group; every group sits under its
/// own id; the token allow-list names no token twice; and the usage fee in
/// force is at least 1.
pub open spec fn consistent(s: StoreView) -> bool {
    &&& forall|k: Seq<u8>| #[trigger] s.groups.contains_key(k) ==> s.groups[k].id == k
    &&& tokens_of(s).no_duplicates()
    &&& fee_of(s) >= 1
    &&& forall|k: Seq<u8>| #[trigger]
        s.groups.contains_key(k) ==> s.groups[k].usage_count <= s.groups[k].total_usages_paid
    &&& forall|k: Seq<u8>| #[trigger] s.groups.contains_key(k) ==> members_valid(s.groups[k].members)
    &&& forall|k: Seq<u8>| #[trigger] s.groups.contains_key(k) <==> group_ids_of(s).contains(k)
    &&& group_ids_of(s).no_duplicates()
    &&& forall|k: Seq<u8>| #[trigger] s.group_history.contains_key(k) ==> s.groups.contains_key(k)
    &&& forall|k: Seq<u8>| #[trigger]
        s.groups.contains_key(k) ==> s.groups[k].total_usages_paid == usages_bought(
            history_at(s.group_history, k),
        )
    &&& forall|k: Seq<u8>, i: int|
        s.group_history.contains_key(k) && 0 <= i < s.group_history[k].len() ==> (#[trigger] s.group_history[k][i]).group_id
            == k
    &&& forall|k: Seq<u8>, i: int|
        s.user_history.contains_key(k) && 0 <= i < s.user_history[k].len() ==> (#[trigger] s.user_history[k][i]).user
            == k
}

proof fn lemma_usages_bought_push(h: Seq<PaymentView>, r: PaymentView)
    ensures
        usages_bought(h.push(r)) == usages_bought(h) + r.usages_purchased,
{
    assert(h.push(r).drop_last() =~= h);
}

/// Appending a purchase keeps the payment records consistent with the
/// groups they belong to.
proof fn lemma_record_keeps_consistency(
    s: StoreView,
    s1: StoreView,
    user: Seq<u8>,
    id: Seq<u8>,
    usages: u32,
    amount: i128,
    now: u64,
)
    requires
        s1 == record_payment_spec(s, user, id, usages, amount, now),
        s.groups.contains_key(id),
        forall|k: Seq<u8>| #[trigger] s.group_history.contains_key(k) ==> s.groups.contains_key(k),
        forall|k: Seq<u8>, i: int|
            s.group_history.contains_key(k) && 0 <= i < s.group_history[k].len() ==> (#[trigger] s.group_history[k][i]).group_id
                == k,
        forall|k: Seq<u8>, i: int|
            s.user_history.contains_key(k) && 0 <= i < s.user_history[k].len() ==> (#[trigger] s.user_history[k][i]).user
                == k,
    ensures
        forall|k: Seq<u8>| #[trigger] s1.group_history.contains_key(k) ==> s1.groups.contains_key(k),
        forall|k: Seq<u8>, i: int|
            s1.group_history.contains_key(k) && 0 <= i < s1.group_history[k].len() ==> (#[trigger] s1.group_history[k][i]).group_id
                == k,
        forall|k: Seq<u8>, i: int|
            s1.user_history.contains_key(k) && 0 <= i < s1.user_history[k].len() ==> (#[trigger] s1.user_history[k][i]).user
                == k,
        forall|k: Seq<u8>| k != id ==> history_at(s1.group_history, k) == history_at(s.group_history, k),
        history_at(s1.group_history, id) == history_at(s.group_history, id).push(
            payment_record(user, id, usages, amount, now),
        ),
{
    let rec = payment_record(user, id, usages, amount, now);
    assert forall|k: Seq<u8>, i: int|
        s1.group_history.contains_key(k) && 0 <= i < s1.group_history[k].len() implies (#[trigger] s1.group_history[k][i]).group_id
            == k by {
        if k == id {
            let h = history_at(s.group_history, id);
            if i < h.len() {
                assert(s1.group_history[k][i] == h[i]);
                assert(s.group_history.contains_key(k));
            }
        }
    }
    assert forall|k: Seq<u8>, i: int|
        s1.user_history.contains_key(k) && 0 <= i < s1.user_history[k].len() implies (#[trigger] s1.user_history[k][i]).user
            == k by {
        if k == user {
            let h = history_at(s.user_history, user);
            if i < h.len() {
                assert(s1.user_history[k][i] == h[i]);
                assert(s.user_history.contains_key(k));
            }
        }
    }
}

/// A contract on which nothing has been done is consistent.
pub proof fn lemma_empty_store_consistent()
    ensures
        consistent(empty_store()),
{
}

proof fn lemma_without_token_from(xs: Seq<Seq<u8>>, t: Seq<u8>, e: Seq<u8>)
    requires
        without_token(xs, t).contains(e),
    ensures
        xs.contains(e),
    decreases xs.len(),
{
    reveal(Seq::filter);
    if xs.len() > 0 {
        let rest = xs.drop_last();
        let fr = without_token(rest, t);
        assert(without_token(xs, t) == (if xs.last() != t {
            fr.push(xs.last())
        } else {
            fr
        }));
        if e == xs.last() {
            assert(xs[xs.len() - 1] == e);
        } else {
            if xs.last() != t {
                let k = choose|k: int| 0 <= k < without_token(xs, t).len() && without_token(xs, t)[k] == e;
                assert(fr[k] == e);
            }
            lemma_without_token_from(rest, t, e);
            let k = choose|k: int| 0 <= k < rest.len() && rest[k] == e;
            assert(xs[k] == e);
        }
    }
}

proof fn lemma_filter_no_duplicates(xs: Seq<Seq<u8>>, t: Seq<u8>)
    requires
        xs.no_duplicates(),
    ensures
        without_token(xs, t).no_duplicates(),
    decreases xs.len(),
{
    reveal(Seq::filter);
    if xs.len() > 0 {
        let rest = xs.drop_last();
        let last = xs.last();
        assert forall|i: int, j: int| 0 <= i < rest.len() && 0 <= j < rest.len() && i != j implies rest[i]
            != rest[j] by {
            assert(rest[i] == xs[i] && rest[j] == xs[j]);
        }
        lemma_filter_no_duplicates(rest, t);
        let fr = without_token(rest, t);
        assert(without_token(xs, t) == (if last != t {
            fr.push(last)
        } else {
            fr
        }));
        if last != t {
            if fr.contains(last) {
                lemma_without_token_from(rest, t, last);
                let k = choose|k: int| 0 <= k < rest.len() && rest[k] == last;
                assert(xs[k] == xs[xs.len() - 1]);
            }
            let f = fr.push(last);
            assert forall|a: int, b: int| 0 <= a < f.len() && 0 <= b < f.len() && a != b implies f[a] != f[b] by {
                if a == fr.len() {
                    assert(f[b] == fr[b]);
                    if f[a] == f[b] {
                        assert(fr.contains(last));
                    }
                } else if b == fr.len() {
                    assert(f[a] == fr[a]);
                    if f[a] == f[b] {
                        assert(fr.contains(last));
                    }
                } else {
                    assert(f[a] == fr[a] && f[b] == fr[b]);
                }
            }
        }
    }
}

/// Every operation keeps the storage consistent.
pub proof fn lemma_operations_keep_consistency(s: StoreView, op: Op)
    requires
        consistent(s),
        admissible(s, op),
        apply(s, op) is Some,
    ensures
        consistent(apply(s, op)->Some_0),
{
    let s2 = apply(s, op)->Some_0;
    lemma_op_keeps_tokens_distinct(s, op);
    match op {
        Op::Create { id, name, creator, usage_count, token, now } => {
            let cost = usage_cost(usage_count, fee_of(s));
            let s1 = StoreView {
                groups: s.groups.insert(id, new_group(id, name, creator, usage_count)),
                all_groups: Some(group_ids_of(s).push(id)),
                ..s
            };
            assert(s2 == record_payment_spec(s1, creator, id, usage_count, cost, now));
            lemma_record_keeps_consistency(s1, s2, creator, id, usage_count, cost, now);
            assert(!s.group_history.contains_key(id));
            lemma_usages_bought_push(history_at(s.group_history, id), payment_record(creator, id, usage_count, cost, now));
            assert(usages_bought(Seq::<PaymentView>::empty()) == 0);
            assert(group_ids_of(s2) == group_ids_of(s).push(id));
            assert forall|k: Seq<u8>| #[trigger] s2.groups.contains_key(k) <==> group_ids_of(s2).contains(k) by {
                if group_ids_of(s2).contains(k) && k != id {
                    let j = choose|j: int| 0 <= j < group_ids_of(s2).len() && group_ids_of(s2)[j] == k;
                    assert(group_ids_of(s)[j] == k);
                }
                if s.groups.contains_key(k) {
                    let j = choose|j: int| 0 <= j < group_ids_of(s).len() && group_ids_of(s)[j] == k;
                    assert(group_ids_of(s2)[j] == k);
                }
                if k == id {
                    assert(group_ids_of(s2)[group_ids_of(s).len() as int] == k);
                }
            }
            assert(!group_ids_of(s).contains(id));
            assert forall|k: Seq<u8>| #[trigger] s2.groups.contains_key(k) implies members_valid(
                s2.groups[k].members,
            ) by {
                if k == id {
                    assert(s2.groups[k].members.len() == 0);
                }
            }
        },
        Op::AddMember { id, address, percentage } => {
            let g = s.groups[id];
            let ms = g.members.push(MemberView { address, percentage });
            assert(validate_members_spec(ms) is Ok);
        },
        Op::UpdateMembers { id, caller, members } => {
            assert(validate_members_spec(members) is Ok);
        },
        Op::Topup { id, additional, token, payer, now } => {
            let g = s.groups[id];
            let cost = usage_cost(additional, fee_of(s));
            let g2 = GroupView {
                usage_count: (g.usage_count + additional) as u32,
                total_usages_paid: (g.total_usages_paid + additional) as u32,
                ..g
            };
            let s1 = with_group(s, id, g2);
            assert(s2 == record_payment_spec(s1, payer, id, additional, cost, now));
            lemma_record_keeps_consistency(s1, s2, payer, id, additional, cost, now);
            lemma_usages_bought_push(history_at(s.group_history, id), payment_record(payer, id, additional, cost, now));
        },
        _ => {},
    }
}

// ---------------------------------------------------------------------------
// Round trips and read-after-write
// ---------------------------------------------------------------------------

/// Pausing and then unpausing succeeds and leaves the contract unpaused,
/// with nothing else changed.
pub proof fn lemma_pause_then_unpause(s: StoreView, admin: Seq<u8>)
    requires
        pause_spec(s, admin) is Ok,
    ensures
        ({
            let s1 = pause_spec(s, admin)->Ok_0.0;
            &&& paused_of(s1)
            &&& unpause_spec(s1, admin) is Ok
            &&& unpause_spec(s1, admin)->Ok_0.0 == StoreView { paused: Some(false), ..s }
            &&& !paused_of(unpause_spec(s1, admin)->Ok_0.0)
        }),
{
    let s1 = pause_spec(s, admin)->Ok_0.0;
    assert(unpause_spec(s1, admin)->Ok_0.0 =~= StoreView { paused: Some(false), ..s });
}

/// Once paused, a second pause is refused with `AlreadyPaused`.
pub proof fn lemma_pause_twice(s: StoreView, admin: Seq<u8>)
    requires
        pause_spec(s, admin) is Ok,
    ensures
        pause_spec(pause_spec(s, admin)->Ok_0.0, admin) == Err::<(StoreView, Seq<crate::model::ActionView>), Error>(
            Error::AlreadyPaused,
        ),
{
}

/// While paused, every operation that checks the pause is refused with
/// `ContractPaused` and changes nothing.
pub proof fn lemma_paused_refuses(s: StoreView, op: Op)
    requires
        paused_of(s),
        op is Create || op is AddMember || op is UpdateMembers || op is SetActive || op is Topup,
    ensures
        apply(s, op) is None,
{
}

/// After a successful hand-over only the new admin is recognised.
pub proof fn lemma_transfer_admin(s: StoreView, current: Seq<u8>, new_admin: Seq<u8>, other: Seq<u8>)
    requires
        transfer_admin_spec(s, current, new_admin) is Ok,
    ensures
        ({
            let s1 = transfer_admin_spec(s, current, new_admin)->Ok_0.0;
            &&& is_admin(s1, new_admin)
            &&& other != new_admin ==> !is_admin(s1, other)
            &&& other != new_admin ==> pause_spec(s1, other) == Err::<
                (StoreView, Seq<crate::model::ActionView>),
                Error,
            >(Error::Unauthorized)
        }),
{
}

/// Only the first `initialize_admin` has an effect.
pub proof fn lemma_initialize_admin_once(s: StoreView, a: Seq<u8>, b: Seq<u8>)
    ensures
        initialize_admin_spec(initialize_admin_spec(s, a), b) == initialize_admin_spec(s, a),
        s.admin is None ==> is_admin(initialize_admin_spec(s, a), a),
{
}

proof fn lemma_filter_keeps_all(xs: Seq<Seq<u8>>, t: Seq<u8>)
    requires
        !xs.contains(t),
    ensures
        without_token(xs, t) == xs,
    decreases xs.len(),
{
    reveal(Seq::filter);
    if xs.len() > 0 {
        assert(!xs.drop_last().contains(t)) by {
            if xs.drop_last().contains(t) {
                let j = choose|j: int| 0 <= j < xs.drop_last().len() && xs.drop_last()[j] == t;
                assert(xs[j] == t);
            }
        }
        lemma_filter_keeps_all(xs.drop_last(), t);
        assert(xs.last() != t) by {
            if xs.last() == t {
                assert(xs[xs.len() - 1] == t);
            }
        }
        assert(xs.drop_last().push(xs.last()) =~= xs);
    }
}

/// Adding a token that was not allowed and removing it again restores the
/// allow-list; in between the token is allowed, afterwards it is not.
pub proof fn lemma_add_then_remove_token(s: StoreView, token: Seq<u8>, admin: Seq<u8>)
    requires
        add_supported_token_spec(s, token, admin) is Ok,
    ensures
        ({
            let s1 = add_supported_token_spec(s, token, admin)->Ok_0;
            &&& tokens_of(s1).contains(token)
            &&& remove_supported_token_spec(s1, token, admin) is Ok
            &&& remove_supported_token_spec(s1, token, admin)->Ok_0 == StoreView {
                supported_tokens: Some(tokens_of(s)),
                ..s
            }
            &&& !tokens_of(remove_supported_token_spec(s1, token, admin)->Ok_0).contains(token)
        }),
{
    let s1 = add_supported_token_spec(s, token, admin)->Ok_0;
    let xs = tokens_of(s);
    assert(tokens_of(s1) == xs.push(token));
    assert(tokens_of(s1)[xs.len() as int] == token);
    reveal(Seq::filter);
    assert(xs.push(token).drop_last() =~= xs);
    lemma_filter_keeps_all(xs, token);
    assert(without_token(xs.push(token), token) == without_token(xs, token));
}

/// After a removal the token is no longer allowed.
pub proof fn lemma_removed_token_not_supported(s: StoreView, token: Seq<u8>, admin: Seq<u8>)
    requires
        remove_supported_token_spec(s, token, admin) is Ok,
    ensures
        !tokens_of(remove_supported_token_spec(s, token, admin)->Ok_0).contains(token),
{
    let xs = tokens_of(s);
    let pred = |t: Seq<u8>| t != token;
    let ys = xs.filter(pred);
    if ys.contains(token) {
        let j = choose|j: int| 0 <= j < ys.len() && ys[j] == token;
        xs.lemma_filter_pred(pred, j);
    }
}

/// Deactivating a group and activating it again restores the storage.
pub proof fn lemma_deactivate_then_activate(s: StoreView, id: Seq<u8>, caller: Seq<u8>)
    requires
        set_active_spec(s, id, caller, false) is Ok,
    ensures
        ({
            let s1 = set_active_spec(s, id, caller, false)->Ok_0.0;
            &&& !s1.groups[id].is_active
            &&& set_active_spec(s1, id, caller, true) is Ok
            &&& set_active_spec(s1, id, caller, true)->Ok_0.0 == s
        }),
{
    let s1 = set_active_spec(s, id, caller, false)->Ok_0.0;
    let s2 = set_active_spec(s1, id, caller, true)->Ok_0.0;
    assert(s2.groups[id] =~= s.groups[id]);
    assert(s2.groups =~= s.groups);
    assert(s2 =~= s);
}

/// A created group reads back as created: active, no members, as many
/// usages left as were paid for, listed last among all groups.
pub proof fn lemma_create_then_read(
    s: StoreView,
    id: Seq<u8>,
    name: Seq<u8>,
    creator: Seq<u8>,
    usage_count: u32,
    token: Seq<u8>,
    now: u64,
)
    requires
        create_autoshare_spec(s, id, name, creator, usage_count, token, now) is Ok,
    ensures
        ({
            let s1 = create_autoshare_spec(s, id, name, creator, usage_count, token, now)->Ok_0.0;
            &&& s1.groups.contains_key(id)
            &&& s1.groups[id] == new_group(id, name, creator, usage_count)
            &&& s1.groups[id].usage_count == s1.groups[id].total_usages_paid
            &&& group_ids_of(s1).last() == id
            &&& forall|k: Seq<u8>| k != id ==> (#[trigger] s1.groups.contains_key(k)) == s.groups.contains_key(k)
        }),
{
}

/// A top-up adds the same number of usages to those left and those paid.
pub proof fn lemma_topup_adds_usages(
    s: StoreView,
    id: Seq<u8>,
    additional: u32,
    token: Seq<u8>,
    payer: Seq<u8>,
    now: u64,
)
    requires
        !topup_overflows(s, id, additional, token),
        topup_subscription_spec(s, id, additional, token, payer, now) is Ok,
    ensures
        ({
            let s1 = topup_subscription_spec(s, id, additional, token, payer, now)->Ok_0.0;
            &&& s1.groups[id].usage_count == s.groups[id].usage_count + additional
            &&& s1.groups[id].total_usages_paid == s.groups[id].total_usages_paid + additional
        }),
{
}

/// Using a usage takes exactly one from those left and none from those paid;
/// it is refused exactly when none is left.
pub proof fn lemma_reduce_usage(s: StoreView, id: Seq<u8>)
    requires
        s.groups.contains_key(id),
    ensures
        (reduce_usage_spec(s, id) is Ok) == (s.groups[id].usage_count > 0),
        reduce_usage_spec(s, id) is Ok ==> {
            let s1 = reduce_usage_spec(s, id)->Ok_0;
            &&& s1.groups[id].usage_count == s.groups[id].usage_count - 1
            &&& s1.groups[id].total_usages_paid == s.groups[id].total_usages_paid
        },
{
}

/// Replaced members read back as given.
pub proof fn lemma_update_then_read(s: StoreView, id: Seq<u8>, caller: Seq<u8>, ms: Seq<MemberView>)
    requires
        update_members_spec(s, id, caller, ms) is Ok,
    ensures
        update_members_spec(s, id, caller, ms)->Ok_0.0.groups[id].members == ms,
        share_sum(ms) == 100,
        !has_duplicate(ms),
{
}

/// A fee once set is the fee in force.
pub proof fn lemma_set_then_get_fee(s: StoreView, fee: u32, admin: Seq<u8>)
    requires
        set_usage_fee_spec(s, fee, admin) is Ok,
    ensures
        crate::store::fee_of(set_usage_fee_spec(s, fee, admin)->Ok_0) == fee,
        fee > 0,
{
}


/// The groups listed for a creator are all that creator's.
pub proof fn lemma_groups_by_creator_are_theirs(gs: Seq<GroupView>, creator: Seq<u8>, i: int)
    requires
        0 <= i < groups_by_creator(gs, creator).len(),
    ensures
        groups_by_creator(gs, creator)[i].creator == creator,
{
    gs.lemma_filter_pred(|g: GroupView| g.creator == creator, i);
}

/// A withdrawal that goes through pays out a positive amount no larger than
/// the contract's balance, and only on the admin's order.
pub proof fn lemma_withdraw_bounded(
    s: StoreView,
    admin: Seq<u8>,
    token: Seq<u8>,
    amount: i128,
    recipient: Seq<u8>,
    balance: i128,
)
    requires
        withdraw_spec(s, admin, token, amount, recipient, balance) is Ok,
    ensures
        0 < amount <= balance,
        is_admin(s, admin),
{
}


proof fn lemma_listed_groups_all_stored(ids: Seq<Seq<u8>>, groups: Map<Seq<u8>, GroupView>)
    requires
        forall|i: int| 0 <= i < ids.len() ==> groups.contains_key(#[trigger] ids[i]),
    ensures
        listed_groups(ids, groups) == ids.map_values(|k: Seq<u8>| groups[k]),
    decreases ids.len(),
{
    if ids.len() > 0 {
        let rest = ids.drop_last();
        assert forall|i: int| 0 <= i < rest.len() implies groups.contains_key(#[trigger] rest[i]) by {
            assert(rest[i] == ids[i]);
        }
        lemma_listed_groups_all_stored(rest, groups);
        assert(groups.contains_key(ids[ids.len() - 1]));
        assert(ids.map_values(|k: Seq<u8>| groups[k]) =~= rest.map_values(|k: Seq<u8>| groups[k]).push(
            groups[ids.last()],
        ));
    }
}

/// In consistent storage, listing all groups gives every stored group
/// exactly once, in the order the groups were created.
pub proof fn lemma_all_groups_complete(s: StoreView)
    requires
        consistent(s),
    ensures
        listed_groups(group_ids_of(s), s.groups) == group_ids_of(s).map_values(|k: Seq<u8>| s.groups[k]),
        listed_groups(group_ids_of(s), s.groups).len() == group_ids_of(s).len(),
{
    let ids = group_ids_of(s);
    assert forall|i: int| 0 <= i < ids.len() implies s.groups.contains_key(#[trigger] ids[i]) by {
        assert(ids.contains(ids[i]));
    }
    lemma_listed_groups_all_stored(ids, s.groups);
}


// ---------------------------------------------------------------------------
// Runs of operations from a fresh contract
// ---------------------------------------------------------------------------

/// The storage after `op` is attempted: its result when it succeeds, the
/// storage unchanged when it is refused.
pub open spec fn step(s: StoreView, op: Op) -> StoreView {
    match apply(s, op) {
        Some(t) => t,
        None => s,
    }
}

/// The storage after the operations `ops` are attempted in order.
pub open spec fn run(s: StoreView, ops: Seq<Op>) -> StoreView
    decreases ops.len(),
{
    if ops.len() == 0 {
        s
    } else {
        step(run(s, ops.drop_last()), ops.last())
    }
}

/// Every operation of the run is attempted on inputs where it does not
/// overflow.
pub open spec fn admissible_run(s: StoreView, ops: Seq<Op>) -> bool
    decreases ops.len(),
{
    if ops.len() == 0 {
        true
    } else {
        admissible_run(s, ops.drop_last()) && admissible(run(s, ops.drop_last()), ops.last())
    }
}

/// The ids of the groups whose creation succeeded during the run, in order.
pub open spec fn created_ids(s: StoreView, ops: Seq<Op>) -> Seq<Seq<u8>>
    decreases ops.len(),
{
    if ops.len() == 0 {
        Seq::empty()
    } else {
        let before = created_ids(s, ops.drop_last());
        match ops.last() {
            Op::Create { id, .. } => if apply(run(s, ops.drop_last()), ops.last()) is Some {
                before.push(id)
            } else {
                before
            },
            _ => before,
        }
    }
}

/// The fee of the last successful `set_usage_fee` of the run, or the
/// default when there was none.
pub open spec fn last_fee_set(s: StoreView, ops: Seq<Op>) -> u32
    decreases ops.len(),
{
    if ops.len() == 0 {
        crate::store::DEFAULT_USAGE_FEE
    } else {
        match ops.last() {
            Op::SetUsageFee { fee, .. } => if apply(run(s, ops.drop_last()), ops.last()) is Some {
                fee
            } else {
                last_fee_set(s, ops.drop_last())
            },
            _ => last_fee_set(s, ops.drop_last()),
        }
    }
}

/// Storage reached from a fresh contract by any run whose operations do not
/// overflow is consistent (see `consistent`).
pub proof fn lemma_runs_stay_consistent(ops: Seq<Op>)
    requires
        admissible_run(empty_store(), ops),
    ensures
        consistent(run(empty_store(), ops)),
    decreases ops.len(),
{
    if ops.len() == 0 {
        lemma_empty_store_consistent();
    } else {
        let pre = run(empty_store(), ops.drop_last());
        lemma_runs_stay_consistent(ops.drop_last());
        if apply(pre, ops.last()) is Some {
            lemma_operations_keep_consistency(pre, ops.last());
        }
    }
}

/// Adding, removing and every other operation keep the token allow-list
/// free of repeats.
pub proof fn lemma_op_keeps_tokens_distinct(s: StoreView, op: Op)
    requires
        tokens_of(s).no_duplicates(),
    ensures
        tokens_of(step(s, op)).no_duplicates(),
{
    if apply(s, op) is Some {
        let s2 = apply(s, op)->Some_0;
        match op {
            Op::AddSupportedToken { token, admin } => {
                let xs = tokens_of(s);
                assert(tokens_of(s2) == xs.push(token));
                assert forall|i: int, j: int|
                    0 <= i < xs.push(token).len() && 0 <= j < xs.push(token).len() && i != j implies xs.push(
                        token,
                    )[i] != xs.push(token)[j] by {
                    if i == xs.len() {
                        assert(xs[j] == xs.push(token)[j]);
                        if xs[j] == token {
                            assert(xs.contains(token));
                        }
                    } else if j == xs.len() {
                        assert(xs[i] == xs.push(token)[i]);
                        if xs[i] == token {
                            assert(xs.contains(token));
                        }
                    }
                }
            },
            Op::RemoveSupportedToken { token, admin } => {
                lemma_filter_no_duplicates(tokens_of(s), token);
            },
            Op::InitializeAdmin { admin } => {
                assert(tokens_of(s2).no_duplicates());
            },
            _ => {},
        }
    }
}

/// Whatever operations are attempted from a fresh contract, the token
/// allow-list never names a token twice.
pub proof fn lemma_tokens_never_repeat(ops: Seq<Op>)
    ensures
        tokens_of(run(empty_store(), ops)).no_duplicates(),
    decreases ops.len(),
{
    if ops.len() > 0 {
        lemma_tokens_never_repeat(ops.drop_last());
        lemma_op_keeps_tokens_distinct(run(empty_store(), ops.drop_last()), ops.last());
    }
}

/// The list of all groups is exactly the ids of the successful creations,
/// in the order they were made.
pub proof fn lemma_group_list_is_creations(ops: Seq<Op>)
    ensures
        group_ids_of(run(empty_store(), ops)) == created_ids(empty_store(), ops),
    decreases ops.len(),
{
    if ops.len() > 0 {
        lemma_group_list_is_creations(ops.drop_last());
        let pre = run(empty_store(), ops.drop_last());
        let op = ops.last();
        if apply(pre, op) is Some {
            match op {
                Op::Create { id, name, creator, usage_count, token, now } => {
                    assert(group_ids_of(apply(pre, op)->Some_0) == group_ids_of(pre).push(id));
                },
                _ => {
                    assert(group_ids_of(apply(pre, op)->Some_0) == group_ids_of(pre));
                },
            }
        }
    }
}

/// Listing all groups, after any run from a fresh contract whose operations
/// do not overflow, gives the created groups in creation order, each as
/// stored under its id.
pub proof fn lemma_listing_is_creations(ops: Seq<Op>)
    requires
        admissible_run(empty_store(), ops),
    ensures
        ({
            let s = run(empty_store(), ops);
            let ids = created_ids(empty_store(), ops);
            &&& listed_groups(group_ids_of(s), s.groups) == ids.map_values(|k: Seq<u8>| s.groups[k])
            &&& listed_groups(group_ids_of(s), s.groups).map_values(|g: GroupView| g.id) == ids
        }),
{
    let s = run(empty_store(), ops);
    let ids = created_ids(empty_store(), ops);
    lemma_group_list_is_creations(ops);
    lemma_runs_stay_consistent(ops);
    lemma_all_groups_complete(s);
    let l = listed_groups(group_ids_of(s), s.groups);
    assert forall|i: int| 0 <= i < ids.len() implies l.map_values(|g: GroupView| g.id)[i] == ids[i] by {
        assert(ids.contains(ids[i]));
        assert(s.groups.contains_key(ids[i]));
    }
    assert(l.map_values(|g: GroupView| g.id) =~= ids);
}

/// After any run from a fresh contract the fee in force is the fee of the
/// last successful `set_usage_fee`, or the default; it is never below 1.
pub proof fn lemma_fee_is_last_set(ops: Seq<Op>)
    ensures
        fee_of(run(empty_store(), ops)) == last_fee_set(empty_store(), ops),
        fee_of(run(empty_store(), ops)) >= 1,
        run(empty_store(), ops).admin is None ==> run(empty_store(), ops).usage_fee is None,
    decreases ops.len(),
{
    if ops.len() > 0 {
        lemma_fee_is_last_set(ops.drop_last());
        let pre = run(empty_store(), ops.drop_last());
        let op = ops.last();
        if apply(pre, op) is Some {
            let post = apply(pre, op)->Some_0;
            match op {
                Op::SetUsageFee { fee, admin } => {},
                Op::InitializeAdmin { admin } => {},
                _ => {
                    assert(post.usage_fee == pre.usage_fee);
                    assert(post.admin is None ==> pre.admin is None);
                },
            }
        }
    }
}


// ---------------------------------------------------------------------------
// What the operations owe
// ---------------------------------------------------------------------------

/// A member list is accepted exactly when it is non-empty, names no address
/// twice and its percentages add up to 100; nothing else about the members
/// (such as equal percentages) matters.
pub proof fn lemma_valid_split_accepted(ms: Seq<MemberView>)
    ensures
        (validate_members_spec(ms) is Ok) <==> (ms.len() > 0 && !has_duplicate(ms) && share_sum(ms) == 100),
{
}

/// The creator of an active group in an unpaused contract can always
/// replace its members by a valid split, which is then stored as given and
/// announced.
pub proof fn lemma_creator_can_set_valid_split(s: StoreView, id: Seq<u8>, caller: Seq<u8>, ms: Seq<MemberView>)
    requires
        !paused_of(s),
        s.groups.contains_key(id),
        s.groups[id].creator == caller,
        s.groups[id].is_active,
        ms.len() > 0,
        !has_duplicate(ms),
        share_sum(ms) == 100,
    ensures
        update_members_spec(s, id, caller, ms) is Ok,
        update_members_spec(s, id, caller, ms)->Ok_0.0.groups[id].members == ms,
        update_members_spec(s, id, caller, ms)->Ok_0.1.len() == 1,
{
}

/// Listing by creator keeps exactly the creator's groups, active or not,
/// each as often as it is listed and in the same order: every listed group
/// is the creator's, every group of the creator is listed, and taking away
/// the others from the list loses none of the creator's.
pub proof fn lemma_groups_by_creator_complete(gs: Seq<GroupView>, c: Seq<u8>, i: int)
    requires
        0 <= i < gs.len(),
        gs[i].creator == c,
    ensures
        groups_by_creator(gs, c).contains(gs[i]),
        groups_by_creator(gs.push(gs[i]), c) == groups_by_creator(gs, c).push(gs[i]),
{
    reveal(Seq::filter);
    gs.lemma_filter_contains(|g: GroupView| g.creator == c, i);
    assert(gs.push(gs[i]).drop_last() =~= gs);
}

/// A group that is not the creator's does not change the creator's list.
pub proof fn lemma_groups_by_creator_skips_others(gs: Seq<GroupView>, c: Seq<u8>, g: GroupView)
    requires
        g.creator != c,
    ensures
        groups_by_creator(gs.push(g), c) == groups_by_creator(gs, c),
{
    reveal(Seq::filter);
    assert(gs.push(g).drop_last() =~= gs);
}

/// In consistent storage every stored group of a creator, deactivated or
/// not, is among that creator's listed groups.
pub proof fn lemma_every_group_of_creator_listed(s: StoreView, k: Seq<u8>)
    requires
        consistent(s),
        s.groups.contains_key(k),
    ensures
        groups_by_creator(listed_groups(group_ids_of(s), s.groups), s.groups[k].creator).contains(s.groups[k]),
{
    lemma_all_groups_complete(s);
    let ids = group_ids_of(s);
    assert(ids.contains(k));
    let j = choose|j: int| 0 <= j < ids.len() && ids[j] == k;
    let gs = listed_groups(ids, s.groups);
    assert(gs[j] == s.groups[k]);
    lemma_groups_by_creator_complete(gs, s.groups[k].creator, j);
}

/// A successful top-up charges the fee in force for each usage bought,
/// collects it from the payer in the given token and nothing else, and
/// appends one record with that amount and the call's time to the payer's
/// and to the group's history.
pub proof fn lemma_topup_charges_fee_in_force(
    s: StoreView,
    id: Seq<u8>,
    n: u32,
    token: Seq<u8>,
    payer: Seq<u8>,
    now: u64,
)
    requires
        topup_subscription_spec(s, id, n, token, payer, now) is Ok,
    ensures
        ({
            let (s1, acts) = topup_subscription_spec(s, id, n, token, payer, now)->Ok_0;
            let amount = (n as int * fee_of(s) as int) as i128;
            let rec = PaymentView {
                user: payer,
                group_id: id,
                usages_purchased: n,
                amount_paid: amount,
                timestamp: now,
            };
            &&& amount as int == n as int * fee_of(s) as int
            &&& acts == seq![crate::model::ActionView::Collect { token, from: payer, amount }]
            &&& history_at(s1.user_history, payer) == history_at(s.user_history, payer).push(rec)
            &&& history_at(s1.group_history, id) == history_at(s.group_history, id).push(rec)
        }),
{
    assert(0 <= n as int * fee_of(s) as int <= 0xffff_ffff * 0xffff_ffff) by (nonlinear_arith)
        requires
            n <= 0xffff_ffff,
            fee_of(s) <= 0xffff_ffff,
    ;
}

/// A successful creation charges the fee in force for each usage bought and
/// records that amount with the call's time for the creator and the group.
pub proof fn lemma_create_charges_fee_in_force(
    s: StoreView,
    id: Seq<u8>,
    name: Seq<u8>,
    creator: Seq<u8>,
    n: u32,
    token: Seq<u8>,
    now: u64,
)
    requires
        create_autoshare_spec(s, id, name, creator, n, token, now) is Ok,
    ensures
        ({
            let (s1, acts) = create_autoshare_spec(s, id, name, creator, n, token, now)->Ok_0;
            let amount = (n as int * fee_of(s) as int) as i128;
            let rec = PaymentView {
                user: creator,
                group_id: id,
                usages_purchased: n,
                amount_paid: amount,
                timestamp: now,
            };
            &&& amount as int == n as int * fee_of(s) as int
            &&& acts[0] == crate::model::ActionView::Collect { token, from: creator, amount }
            &&& history_at(s1.user_history, creator) == history_at(s.user_history, creator).push(rec)
            &&& history_at(s1.group_history, id) == history_at(s.group_history, id).push(rec)
        }),
{
    assert(0 <= n as int * fee_of(s) as int <= 0xffff_ffff * 0xffff_ffff) by (nonlinear_arith)
        requires
            n <= 0xffff_ffff,
            fee_of(s) <= 0xffff_ffff,
    ;
}

/// A top-up right after the admin sets the fee to `fee` charges `fee` per
/// usage.
pub proof fn lemma_topup_after_set_fee(
    s: StoreView,
    fee: u32,
    admin: Seq<u8>,
    id: Seq<u8>,
    n: u32,
    token: Seq<u8>,
    payer: Seq<u8>,
    now: u64,
)
    requires
        set_usage_fee_spec(s, fee, admin) is Ok,
        topup_subscription_spec(set_usage_fee_spec(s, fee, admin)->Ok_0, id, n, token, payer, now) is Ok,
    ensures
        topup_subscription_spec(set_usage_fee_spec(s, fee, admin)->Ok_0, id, n, token, payer, now)->Ok_0.1
            == seq![
            (crate::model::ActionView::Collect { token, from: payer, amount: (n as int * fee as int) as i128 }),
        ],
{
    lemma_set_then_get_fee(s, fee, admin);
    lemma_topup_charges_fee_in_force(set_usage_fee_spec(s, fee, admin)->Ok_0, id, n, token, payer, now);
}

/// The admin can always withdraw a positive amount up to the contract's
/// balance, in any token, whether or not the token is on the allow-list:
/// the amount is paid to the recipient and the withdrawal is announced.
pub proof fn lemma_admin_may_withdraw(
    s: StoreView,
    admin: Seq<u8>,
    token: Seq<u8>,
    amount: i128,
    recipient: Seq<u8>,
    balance: i128,
    tokens: Option<Seq<Seq<u8>>>,
)
    requires
        is_admin(s, admin),
        0 < amount <= balance,
    ensures
        withdraw_spec(s, admin, token, amount, recipient, balance) is Ok,
        withdraw_spec(s, admin, token, amount, recipient, balance)->Ok_0.len() == 2,
        withdraw_spec(s, admin, token, amount, recipient, balance)->Ok_0[0]
            == (crate::model::ActionView::Payout { token, to: recipient, amount }),
        withdraw_spec(s, admin, token, amount, recipient, balance) == withdraw_spec(
            (StoreView { supported_tokens: tokens, ..s }),
            admin,
            token,
            amount,
            recipient,
            balance,
        ),
{
}

} // verus!
