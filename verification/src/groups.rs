use vstd::prelude::*;

use crate::admin::get_paused_status;
use crate::history::{record_payment, record_payment_spec};
use crate::ids::{Address, GroupId};
use crate::members::{
    lists_address, members_overflow, members_would_overflow, validate_members,
    validate_members_spec,
};
use crate::model::{
    copy_members, outcome_view, Action, DataKey, ActionView, AutoShareDetails, Error, Event, EventView,
    GroupMember, GroupView, MemberView, NotificationCategory, NotificationPriority,
};
use crate::store::{
    fee_of, follows, group_ids_of, paused_of, settles, tokens_of, Store, StoreView,
};
use crate::tokens::{get_usage_fee, is_token_supported};

verus! {

/// The price of `usages` usages at `fee` per usage.
pub open spec fn usage_cost(usages: u32, fee: u32) -> i128 {
    (usages * fee) as i128
}

/// A freshly created group: active, no members, all paid usages remaining.
pub open spec fn new_group(id: Seq<u8>, name: Seq<u8>, creator: Seq<u8>, usage_count: u32) -> GroupView {
    GroupView {
        id,
        name,
        creator,
        usage_count,
        total_usages_paid: usage_count,
        members: Seq::empty(),
        is_active: true,
    }
}

/// Storage with `g` stored as group `id`.
pub open spec fn with_group(s: StoreView, id: Seq<u8>, g: GroupView) -> StoreView {
    StoreView { groups: s.groups.insert(id, g), ..s }
}

pub open spec fn create_autoshare_spec(
    s: StoreView,
    id: Seq<u8>,
    name: Seq<u8>,
    creator: Seq<u8>,
    usage_count: u32,
    token: Seq<u8>,
    now: u64,
) -> Result<(StoreView, Seq<ActionView>), Error> {
    if paused_of(s) {
        Err(Error::ContractPaused)
    } else if s.groups.contains_key(id) {
        Err(Error::AlreadyExists)
    } else if usage_count == 0 {
        Err(Error::InvalidUsageCount)
    } else if !tokens_of(s).contains(token) {
        Err(Error::UnsupportedToken)
    } else {
        let cost = usage_cost(usage_count, fee_of(s));
        let s1 = StoreView {
            groups: s.groups.insert(id, new_group(id, name, creator, usage_count)),
            all_groups: Some(group_ids_of(s).push(id)),
            ..s
        };
        Ok(
            (
                record_payment_spec(s1, creator, id, usage_count, cost, now),
                seq![
                    ActionView::Collect { token, from: creator, amount: cost },
                    ActionView::Publish(
                        EventView::AutoshareCreated {
                            creator,
                            category: NotificationCategory::Group,
                            priority: NotificationPriority::Medium,
                            id,
                        },
                    ),
                ],
            ),
        )
    }
}

/// The stored groups whose ids are listed, in list order; ids without a
/// stored group are passed over.
pub open spec fn listed_groups(ids: Seq<Seq<u8>>, groups: Map<Seq<u8>, GroupView>) -> Seq<GroupView>
    decreases ids.len(),
{
    if ids.len() == 0 {
        Seq::empty()
    } else {
        let rest = listed_groups(ids.drop_last(), groups);
        if groups.contains_key(ids.last()) {
            rest.push(groups[ids.last()])
        } else {
            rest
        }
    }
}

/// The groups that `creator` created, in list order.
pub open spec fn groups_by_creator(gs: Seq<GroupView>, creator: Seq<u8>) -> Seq<GroupView> {
    gs.filter(|g: GroupView| g.creator == creator)
}

pub open spec fn add_member_reaches_check(s: StoreView, id: Seq<u8>, address: Seq<u8>) -> bool {
    &&& !paused_of(s)
    &&& s.groups.contains_key(id)
    &&& !lists_address(s.groups[id].members, address)
}

pub open spec fn add_group_member_spec(s: StoreView, id: Seq<u8>, address: Seq<u8>, percentage: u32) -> Result<
    StoreView,
    Error,
> {
    if paused_of(s) {
        Err(Error::ContractPaused)
    } else if !s.groups.contains_key(id) {
        Err(Error::NotFound)
    } else if lists_address(s.groups[id].members, address) {
        Err(Error::AlreadyExists)
    } else {
        let g = s.groups[id];
        let ms = g.members.push(MemberView { address, percentage });
        match validate_members_spec(ms) {
            Err(e) => Err(e),
            Ok(_) => Ok(with_group(s, id, GroupView { members: ms, ..g })),
        }
    }
}

/// Whether the group exists, `caller` created it, and it is active: the
/// checks that the creator-only operations make before anything else.
pub open spec fn creator_may_edit(s: StoreView, id: Seq<u8>, caller: Seq<u8>) -> bool {
    &&& !paused_of(s)
    &&& s.groups.contains_key(id)
    &&& s.groups[id].creator == caller
    &&& s.groups[id].is_active
}

pub open spec fn update_members_spec(
    s: StoreView,
    id: Seq<u8>,
    caller: Seq<u8>,
    ms: Seq<MemberView>,
) -> Result<(StoreView, Seq<ActionView>), Error> {
    if paused_of(s) {
        Err(Error::ContractPaused)
    } else if !s.groups.contains_key(id) {
        Err(Error::NotFound)
    } else if s.groups[id].creator != caller {
        Err(Error::Unauthorized)
    } else if !s.groups[id].is_active {
        Err(Error::GroupInactive)
    } else {
        match validate_members_spec(ms) {
            Err(e) => Err(e),
            Ok(_) => Ok(
                (
                    with_group(s, id, GroupView { members: ms, ..s.groups[id] }),
                    seq![
                        ActionView::Publish(
                            EventView::AutoshareUpdated {
                                updater: caller,
                                category: NotificationCategory::Group,
                                priority: NotificationPriority::Medium,
                                id,
                            },
                        ),
                    ],
                ),
            ),
        }
    }
}

/// Switching group `id` to `active`, by `caller`: `deactivate_group` when
/// `active` is false, `activate_group` when it is true.
pub open spec fn set_active_spec(s: StoreView, id: Seq<u8>, caller: Seq<u8>, active: bool) -> Result<
    (StoreView, Seq<ActionView>),
    Error,
> {
    if paused_of(s) {
        Err(Error::ContractPaused)
    } else if !s.groups.contains_key(id) {
        Err(Error::NotFound)
    } else if s.groups[id].creator != caller {
        Err(Error::Unauthorized)
    } else if s.groups[id].is_active == active {
        Err(if active { Error::GroupAlreadyActive } else { Error::GroupAlreadyInactive })
    } else {
        Ok(
            (
                with_group(s, id, GroupView { is_active: active, ..s.groups[id] }),
                seq![
                    ActionView::Publish(
                        if active {
                            EventView::GroupActivated {
                                creator: caller,
                                category: NotificationCategory::Group,
                                priority: NotificationPriority::Low,
                                id,
                            }
                        } else {
                            EventView::GroupDeactivated {
                                creator: caller,
                                category: NotificationCategory::Group,
                                priority: NotificationPriority::Low,
                                id,
                            }
                        },
                    ),
                ],
            ),
        )
    }
}

/// Stores `details` under its own id.
pub fn store_group(store: &mut Store, details: AutoShareDetails)
    requires
        old(store).wf(),
    ensures
        final(store).wf(),
        final(store)@ == with_group(old(store)@, details.id@, details@),
{
    let ghost pre = store@;
    let ghost dv = details@;
    let key = details.id.duplicate().bytes;
    store.groups.set(key, details);
    assert(store@ =~= with_group(pre, dv.id, dv));
}

/// Creates group `id`, paid for `usage_count` usages in `payment_token` by
/// its creator. On success it asks for the payment to be collected and the
/// creation to be announced.
/// (The caller has already required `creator`'s authorization.)
pub fn create_autoshare(
    store: &mut Store,
    id: GroupId,
    name: Vec<u8>,
    creator: Address,
    usage_count: u32,
    payment_token: Address,
    now: u64,
) -> (r: Result<Vec<Action>, Error>)
    requires
        old(store).wf(),
    ensures
        final(store).wf(),
        follows(
            create_autoshare_spec(old(store)@, id@, name@, creator@, usage_count, payment_token@, now),
            old(store)@,
            final(store)@,
            outcome_view(r),
        ),
{
    let ghost pre = store@;
    if get_paused_status(store) {
        return Err(Error::ContractPaused);
    }
    // The group's entry must not exist yet; it is never overwritten.
    let key = DataKey::AutoShare(id.duplicate());
    if store.has(&key) {
        return Err(Error::AlreadyExists);
    }
    if usage_count == 0 {
        return Err(Error::InvalidUsageCount);
    }
    if !is_token_supported(store, &payment_token) {
        return Err(Error::UnsupportedToken);
    }
    let fee = get_usage_fee(store);
    assert(0 <= (usage_count as int) * (fee as int) <= 0xffff_ffff * 0xffff_ffff) by (nonlinear_arith)
        requires
            usage_count <= 0xffff_ffff,
            fee <= 0xffff_ffff,
    ;
    let total_cost: i128 = (usage_count as i128) * (fee as i128);
    let ghost cost = usage_cost(usage_count, fee_of(pre));
    assert(total_cost == cost);

    let mut acts: Vec<Action> = Vec::new();
    acts.push(
        Action::Collect { token: payment_token.duplicate(), from: creator.duplicate(), amount: total_cost },
    );

    let details = AutoShareDetails {
        id: id.duplicate(),
        name,
        creator: creator.duplicate(),
        usage_count,
        total_usages_paid: usage_count,
        members: Vec::new(),
        is_active: true,
    };
    assert(details@ =~= new_group(id@, details@.name, creator@, usage_count));
    store_group(store, details);

    let mut ids = match &store.all_groups {
        Some(g) => crate::model::copy_group_ids(g),
        None => {
            let v: Vec<GroupId> = Vec::new();
            assert(v.deep_view() =~= Seq::<Seq<u8>>::empty());
            v
        },
    };
    let ghost before = ids.deep_view();
    ids.push(id.duplicate());
    assert(ids.deep_view() =~= before.push(id@));
    store.all_groups = Some(ids);
    let ghost s1 = store@;
    assert(s1 =~= StoreView {
        groups: pre.groups.insert(id@, new_group(id@, name@, creator@, usage_count)),
        all_groups: Some(group_ids_of(pre).push(id@)),
        ..pre
    });
    proof {
        assert forall|k: Seq<u8>| #[trigger] store.groups.map().contains_key(k) implies store.groups.map()[k].id == k by {
            if k != id@ {
                assert(pre.groups.contains_key(k));
            }
        }
    }

    record_payment(store, &creator, &id, usage_count, total_cost, now);
    acts.push(
        Action::Publish(
            Event::AutoshareCreated { creator, category: NotificationCategory::Group, priority: NotificationPriority::Medium, id },
        ),
    );
    assert(acts.deep_view() =~= seq![
        ActionView::Collect { token: payment_token@, from: creator@, amount: cost },
        ActionView::Publish(
            EventView::AutoshareCreated {
                creator: creator@,
                category: NotificationCategory::Group,
                priority: NotificationPriority::Medium,
                id: id@,
            },
        ),
    ]);
    Ok(acts)
}


/// The details of group `id`, or `NotFound`.
pub fn get_autoshare(store: &Store, id: &GroupId) -> (r: Result<AutoShareDetails, Error>)
    requires
        store.wf(),
    ensures
        match r {
            Ok(d) => store@.groups.contains_key(id@) && d@ == store@.groups[id@],
            Err(e) => !store@.groups.contains_key(id@) && e == Error::NotFound,
        },
{
    match store.groups.get(&id.bytes) {
        Some(d) => Ok(d.duplicate()),
        None => Err(Error::NotFound),
    }
}

/// Every listed group that is stored, in the order the groups were created.
pub fn get_all_groups(store: &Store) -> (r: Vec<AutoShareDetails>)
    requires
        store.wf(),
    ensures
        r.deep_view() == listed_groups(group_ids_of(store@), store@.groups),
{
    let ghost ids = group_ids_of(store@);
    let ghost groups = store@.groups;
    let mut result: Vec<AutoShareDetails> = Vec::new();
    let id_list = match &store.all_groups {
        Some(g) => g,
        None => {
            assert(result.deep_view() =~= listed_groups(ids, groups));
            return result;
        },
    };
    assert(id_list.deep_view() == ids);
    let n = id_list.len();
    let mut i: usize = 0;
    while i < n
        invariant
            n == id_list.len(),
            ids == id_list.deep_view(),
            groups == store@.groups,
            store.wf(),
            i <= n,
            result.deep_view() =~= listed_groups(ids.take(i as int), groups),
        decreases n - i,
    {
        assert(ids.take(i + 1).drop_last() =~= ids.take(i as int));
        assert(ids.take(i + 1).last() == id_list[i as int]@);
        let ghost before = result.deep_view();
        if let Ok(details) = get_autoshare(store, &id_list[i]) {
            result.push(details);
            assert(result.deep_view() =~= before.push(groups[id_list[i as int]@]));
        }
        i = i + 1;
    }
    assert(ids.take(n as int) =~= ids);
    result
}

/// The groups created by `creator`, in the order they were created.
pub fn get_groups_by_creator(store: &Store, creator: &Address) -> (r: Vec<AutoShareDetails>)
    requires
        store.wf(),
    ensures
        r.deep_view() == groups_by_creator(listed_groups(group_ids_of(store@), store@.groups), creator@),
{
    let all_groups = get_all_groups(store);
    let ghost all = all_groups.deep_view();
    let ghost pred = |g: GroupView| g.creator == creator@;
    let mut result: Vec<AutoShareDetails> = Vec::new();
    let n = all_groups.len();
    let mut i: usize = 0;
    while i < n
        invariant
            n == all_groups.len(),
            all == all_groups.deep_view(),
            pred == (|g: GroupView| g.creator == creator@),
            i <= n,
            result.deep_view() =~= all.take(i as int).filter(pred),
        decreases n - i,
    {
        proof {
            reveal(Seq::filter);
            assert(all.take(i + 1).drop_last() =~= all.take(i as int));
            assert(all.take(i + 1).last() == all[i as int]);
        }
        let ghost before = result.deep_view();
        if all_groups[i].creator.equals(creator) {
            result.push(all_groups[i].duplicate());
            assert(result.deep_view() =~= before.push(all[i as int]));
        }
        i = i + 1;
    }
    assert(all.take(n as int) =~= all);
    result
}

/// Whether `address` is a member of group `id`; `NotFound` when there is no
/// such group.
pub fn is_group_member(store: &Store, id: &GroupId, address: &Address) -> (r: Result<bool, Error>)
    requires
        store.wf(),
    ensures
        match r {
            Ok(b) => store@.groups.contains_key(id@) && b == lists_address(
                store@.groups[id@].members,
                address@,
            ),
            Err(e) => !store@.groups.contains_key(id@) && e == Error::NotFound,
        },
{
    match store.groups.get(&id.bytes) {
        None => Err(Error::NotFound),
        Some(details) => Ok(has_member(&details.members, address)),
    }
}

/// Whether `address` is the address of one of `members`.
fn has_member(members: &Vec<GroupMember>, address: &Address) -> (r: bool)
    ensures
        r == lists_address(members.deep_view(), address@),
{
    let ghost ms = members.deep_view();
    let n = members.len();
    let mut i: usize = 0;
    while i < n
        invariant
            n == members.len(),
            ms == members.deep_view(),
            i <= n,
            forall|j: int| 0 <= j < i ==> ms[j].address != address@,
        decreases n - i,
    {
        if members[i].address.equals(address) {
            assert(ms[i as int].address == address@);
            return true;
        }
        i = i + 1;
    }
    false
}

/// The members of group `id`, or `NotFound`.
pub fn get_group_members(store: &Store, id: &GroupId) -> (r: Result<Vec<GroupMember>, Error>)
    requires
        store.wf(),
    ensures
        match r {
            Ok(ms) => store@.groups.contains_key(id@) && ms.deep_view() == store@.groups[id@].members,
            Err(e) => !store@.groups.contains_key(id@) && e == Error::NotFound,
        },
{
    match store.groups.get(&id.bytes) {
        Some(d) => Ok(copy_members(&d.members)),
        None => Err(Error::NotFound),
    }
}

/// Adds `address` to group `id` with `percentage`; the resulting member list
/// must pass `validate_members`.
pub fn add_group_member(store: &mut Store, id: GroupId, address: Address, percentage: u32) -> (r: Result<
    (),
    Error,
>)
    requires
        old(store).wf(),
        add_member_reaches_check(old(store)@, id@, address@) ==> !members_overflow(
            old(store)@.groups[id@].members.push(MemberView { address: address@, percentage }),
        ),
    ensures
        final(store).wf(),
        settles(add_group_member_spec(old(store)@, id@, address@, percentage), old(store)@, final(store)@, r),
{
    let ghost pre = store@;
    if get_paused_status(store) {
        return Err(Error::ContractPaused);
    }
    let mut details = match store.groups.get(&id.bytes) {
        Some(d) => d.duplicate(),
        None => {
            return Err(Error::NotFound);
        },
    };
    if has_member(&details.members, &address) {
        return Err(Error::AlreadyExists);
    }
    let ghost g = details@;
    let ghost mv = MemberView { address: address@, percentage };
    details.members.push(GroupMember { address, percentage });
    assert(details.members.deep_view() =~= g.members.push(mv));
    if let Err(e) = validate_members(&details.members) {
        return Err(e);
    }
    assert(details@ =~= GroupView { members: g.members.push(mv), ..g });
    store_group(store, details);
    Ok(())
}

/// Replaces the members of group `id`; only its creator may, only while it
/// is active, and the new list must pass `validate_members`. On success it
/// asks for the update to be announced.
/// (The caller has already required `caller`'s authorization.)
pub fn update_members(store: &mut Store, id: GroupId, caller: Address, new_members: Vec<GroupMember>) -> (r:
    Result<Vec<Action>, Error>)
    requires
        old(store).wf(),
        creator_may_edit(old(store)@, id@, caller@) ==> !members_overflow(new_members.deep_view()),
    ensures
        final(store).wf(),
        follows(
            update_members_spec(old(store)@, id@, caller@, new_members.deep_view()),
            old(store)@,
            final(store)@,
            outcome_view(r),
        ),
{
    let ghost pre = store@;
    if get_paused_status(store) {
        return Err(Error::ContractPaused);
    }
    let mut details = match store.groups.get(&id.bytes) {
        Some(d) => d.duplicate(),
        None => {
            return Err(Error::NotFound);
        },
    };
    if !details.creator.equals(&caller) {
        return Err(Error::Unauthorized);
    }
    if !details.is_active {
        return Err(Error::GroupInactive);
    }
    if let Err(e) = validate_members(&new_members) {
        return Err(e);
    }
    let ghost g = details@;
    let ghost ms = new_members.deep_view();
    details.members = new_members;
    assert(details@ =~= GroupView { members: ms, ..g });
    store_group(store, details);
    let mut acts: Vec<Action> = Vec::new();
    acts.push(
        Action::Publish(
            Event::AutoshareUpdated { updater: caller, category: NotificationCategory::Group, priority: NotificationPriority::Medium, id },
        ),
    );
    assert(acts.deep_view() =~= seq![
        ActionView::Publish(
            EventView::AutoshareUpdated {
                updater: caller@,
                category: NotificationCategory::Group,
                priority: NotificationPriority::Medium,
                id: id@,
            },
        ),
    ]);
    Ok(acts)
}

/// Shared body of `activate_group` and `deactivate_group`.
fn set_group_active(store: &mut Store, id: GroupId, caller: Address, active: bool) -> (r: Result<
    Vec<Action>,
    Error,
>)
    requires
        old(store).wf(),
    ensures
        final(store).wf(),
        follows(set_active_spec(old(store)@, id@, caller@, active), old(store)@, final(store)@, outcome_view(r)),
{
    let ghost pre = store@;
    if get_paused_status(store) {
        return Err(Error::ContractPaused);
    }
    let mut details = match store.groups.get(&id.bytes) {
        Some(d) => d.duplicate(),
        None => {
            return Err(Error::NotFound);
        },
    };
    if !details.creator.equals(&caller) {
        return Err(Error::Unauthorized);
    }
    if details.is_active == active {
        return Err(if active { Error::GroupAlreadyActive } else { Error::GroupAlreadyInactive });
    }
    let ghost g = details@;
    details.is_active = active;
    assert(details@ =~= GroupView { is_active: active, ..g });
    store_group(store, details);
    let event = if active {
        Event::GroupActivated { creator: caller, category: NotificationCategory::Group, priority: NotificationPriority::Low, id }
    } else {
        Event::GroupDeactivated { creator: caller, category: NotificationCategory::Group, priority: NotificationPriority::Low, id }
    };
    let ghost ev = event@;
    let mut acts: Vec<Action> = Vec::new();
    acts.push(Action::Publish(event));
    assert(acts.deep_view() =~= seq![ActionView::Publish(ev)]);
    Ok(acts)
}

/// Deactivates group `id`; only its creator may. On success it asks for the
/// deactivation to be announced.
/// (The caller has already required `caller`'s authorization.)
pub fn deactivate_group(store: &mut Store, id: GroupId, caller: Address) -> (r: Result<Vec<Action>, Error>)
    requires
        old(store).wf(),
    ensures
        final(store).wf(),
        follows(set_active_spec(old(store)@, id@, caller@, false), old(store)@, final(store)@, outcome_view(r)),
{
    set_group_active(store, id, caller, false)
}

/// Reactivates group `id`; only its creator may. On success it asks for the
/// activation to be announced.
/// (The caller has already required `caller`'s authorization.)
pub fn activate_group(store: &mut Store, id: GroupId, caller: Address) -> (r: Result<Vec<Action>, Error>)
    requires
        old(store).wf(),
    ensures
        final(store).wf(),
        follows(set_active_spec(old(store)@, id@, caller@, true), old(store)@, final(store)@, outcome_view(r)),
{
    set_group_active(store, id, caller, true)
}

/// Whether group `id` is active, or `NotFound`.
pub fn is_group_active(store: &Store, id: &GroupId) -> (r: Result<bool, Error>)
    requires
        store.wf(),
    ensures
        match r {
            Ok(b) => store@.groups.contains_key(id@) && b == store@.groups[id@].is_active,
            Err(e) => !store@.groups.contains_key(id@) && e == Error::NotFound,
        },
{
    match store.groups.get(&id.bytes) {
        Some(d) => Ok(d.is_active),
        None => Err(Error::NotFound),
    }
}


/// Whether `update_members` with these arguments would overflow the running
/// total of the new members' percentages: it passes the checks before the
/// member list is examined, and the list overflows (see `members_overflow`).
pub fn update_members_would_overflow(
    store: &Store,
    id: &GroupId,
    caller: &Address,
    new_members: &Vec<GroupMember>,
) -> (r: bool)
    requires
        store.wf(),
    ensures
        r == (creator_may_edit(store@, id@, caller@) && members_overflow(new_members.deep_view())),
{
    if get_paused_status(store) {
        return false;
    }
    match store.groups.get(&id.bytes) {
        None => false,
        Some(d) => d.creator.equals(caller) && d.is_active && members_would_overflow(new_members),
    }
}

/// Whether `add_group_member` with these arguments would overflow the
/// running total of the extended member list's percentages.
pub fn add_member_would_overflow(store: &Store, id: &GroupId, address: &Address, percentage: u32) -> (r: bool)
    requires
        store.wf(),
    ensures
        r == (add_member_reaches_check(store@, id@, address@) && members_overflow(
            store@.groups[id@].members.push(MemberView { address: address@, percentage }),
        )),
{
    if get_paused_status(store) {
        return false;
    }
    match store.groups.get(&id.bytes) {
        None => false,
        Some(d) => {
            if has_member(&d.members, address) {
                return false;
            }
            let mut ms = copy_members(&d.members);
            let ghost before = ms.deep_view();
            ms.push(GroupMember { address: address.duplicate(), percentage });
            assert(ms.deep_view() =~= before.push(MemberView { address: address@, percentage }));
            members_would_overflow(&ms)
        },
    }
}

} // verus!
