use autoshare::admin::{get_admin, get_paused_status, initialize_admin, pause, transfer_admin, unpause};
use autoshare::categories::{is_category_registered, register_category};
use autoshare::groups::{
    activate_group, add_group_member, add_member_would_overflow, create_autoshare, deactivate_group,
    get_all_groups, get_autoshare, get_group_members, get_groups_by_creator, is_group_active,
    is_group_member, update_members, update_members_would_overflow,
};
use autoshare::history::{get_group_payment_history, get_user_payment_history};
use autoshare::ids::{Address, GroupId};
use autoshare::members::{members_would_overflow, validate_members};
use autoshare::model::{
    Action, DataKey, Error, Event, GroupMember, NotificationCategory, NotificationPriority,
};
use autoshare::store::Store;
use autoshare::tokens::{
    add_supported_token, get_supported_tokens, get_usage_fee, is_token_supported,
    remove_supported_token, set_usage_fee,
};
use autoshare::treasury::{withdraw, withdraw_needs_balance};
use autoshare::usage::{
    get_remaining_usages, get_total_usages_paid, reduce_usage, topup_subscription, topup_would_overflow,
};

fn addr(tag: u8) -> Address {
    let mut bytes = vec![b'C'; 56];
    bytes[2] = tag;
    Address::from_bytes(bytes)
}

fn gid(tag: u8) -> GroupId {
    let mut bytes = vec![7u8; 32];
    bytes[31] = tag;
    GroupId::from_bytes(bytes)
}

fn member(tag: u8, percentage: u32) -> GroupMember {
    GroupMember { address: addr(tag), percentage }
}

/// Storage with an admin (tag 1) and one allowed token (tag 50).
fn ready_store() -> Store {
    let mut s = Store::new();
    initialize_admin(&mut s, addr(1));
    add_supported_token(&mut s, addr(50), addr(1)).unwrap();
    s
}

fn new_group(s: &mut Store, tag: u8, creator: u8, usages: u32) -> GroupId {
    let id = gid(tag);
    create_autoshare(s, id.clone(), format!("group {}", tag).into_bytes(), addr(creator), usages, addr(50), 1_000).unwrap();
    id
}

// ----- laws on concrete values ---------------------------------------------

#[test]
fn pause_then_unpause_restores_unpaused() {
    let mut s = ready_store();
    assert!(!get_paused_status(&s));
    pause(&mut s, addr(1)).unwrap();
    assert!(get_paused_status(&s));
    unpause(&mut s, addr(1)).unwrap();
    assert!(!get_paused_status(&s));
}

#[test]
fn paused_contract_refuses_group_operations() {
    let mut s = ready_store();
    let id = new_group(&mut s, 1, 10, 2);
    pause(&mut s, addr(1)).unwrap();
    assert_eq!(
        create_autoshare(&mut s, gid(2), Vec::new(), addr(10), 1, addr(50), 0),
        Err(Error::ContractPaused)
    );
    assert_eq!(add_group_member(&mut s, id.clone(), addr(20), 100), Err(Error::ContractPaused));
    assert_eq!(update_members(&mut s, id.clone(), addr(10), vec![member(20, 100)]), Err(Error::ContractPaused));
    assert_eq!(deactivate_group(&mut s, id.clone(), addr(10)), Err(Error::ContractPaused));
    assert_eq!(topup_subscription(&mut s, id.clone(), 1, addr(50), addr(10), 0), Err(Error::ContractPaused));
    // Using a usage is not blocked by the pause.
    assert_eq!(reduce_usage(&mut s, id.clone()), Ok(()));
    assert_eq!(get_remaining_usages(&s, &id), Ok(1));
}

#[test]
fn deactivate_then_activate_restores_group() {
    let mut s = ready_store();
    let id = new_group(&mut s, 1, 10, 2);
    let before = get_autoshare(&s, &id).unwrap();
    deactivate_group(&mut s, id.clone(), addr(10)).unwrap();
    assert_eq!(is_group_active(&s, &id), Ok(false));
    activate_group(&mut s, id.clone(), addr(10)).unwrap();
    assert_eq!(get_autoshare(&s, &id).unwrap(), before);
}

#[test]
fn add_then_remove_token_restores_list() {
    let mut s = ready_store();
    let before = get_supported_tokens(&s);
    add_supported_token(&mut s, addr(51), addr(1)).unwrap();
    assert!(is_token_supported(&s, &addr(51)));
    assert_eq!(get_supported_tokens(&s), vec![addr(50), addr(51)]);
    remove_supported_token(&mut s, addr(51), addr(1)).unwrap();
    assert!(!is_token_supported(&s, &addr(51)));
    assert_eq!(get_supported_tokens(&s), before);
}

#[test]
fn remove_token_keeps_order_of_others() {
    let mut s = ready_store();
    add_supported_token(&mut s, addr(51), addr(1)).unwrap();
    add_supported_token(&mut s, addr(52), addr(1)).unwrap();
    remove_supported_token(&mut s, addr(51), addr(1)).unwrap();
    assert_eq!(get_supported_tokens(&s), vec![addr(50), addr(52)]);
    assert_eq!(remove_supported_token(&mut s, addr(51), addr(1)), Err(Error::NotFound));
}

#[test]
fn transfer_admin_hands_over_the_role() {
    let mut s = ready_store();
    transfer_admin(&mut s, addr(1), addr(2)).unwrap();
    assert_eq!(get_admin(&s), Ok(addr(2)));
    assert_eq!(pause(&mut s, addr(1)), Err(Error::Unauthorized));
    assert!(pause(&mut s, addr(2)).is_ok());
}

#[test]
fn initialize_admin_only_once() {
    let mut s = Store::new();
    assert_eq!(get_admin(&s), Err(Error::NotFound));
    initialize_admin(&mut s, addr(1));
    set_usage_fee(&mut s, 25, addr(1)).unwrap();
    initialize_admin(&mut s, addr(2));
    assert_eq!(get_admin(&s), Ok(addr(1)));
    assert_eq!(get_usage_fee(&s), 25);
}

#[test]
fn create_then_read_back() {
    let mut s = ready_store();
    let id = new_group(&mut s, 1, 10, 4);
    let d = get_autoshare(&s, &id).unwrap();
    assert_eq!(d.id, id);
    assert_eq!(d.creator, addr(10));
    assert_eq!(d.name, b"group 1".to_vec());
    assert_eq!(d.usage_count, 4);
    assert_eq!(d.total_usages_paid, 4);
    assert!(d.members.is_empty());
    assert!(d.is_active);
    assert_eq!(get_remaining_usages(&s, &id), Ok(4));
    assert_eq!(get_total_usages_paid(&s, &id), Ok(4));
    assert_eq!(get_group_members(&s, &id), Ok(vec![]));
    assert!(s.has(&DataKey::AutoShare(id.clone())));
    assert!(s.has(&DataKey::AllGroups));
    assert!(s.has(&DataKey::UserPaymentHistory(addr(10))));
    assert!(s.has(&DataKey::GroupPaymentHistory(id.clone())));
    assert!(!s.has(&DataKey::AutoShare(gid(99))));
}

#[test]
fn create_charges_usages_times_fee() {
    let mut s = ready_store();
    set_usage_fee(&mut s, 7, addr(1)).unwrap();
    let acts = create_autoshare(&mut s, gid(1), Vec::new(), addr(10), 3, addr(50), 5).unwrap();
    assert_eq!(acts[0], Action::Collect { token: addr(50), from: addr(10), amount: 21 });
    let h = get_user_payment_history(&s, &addr(10));
    assert_eq!(h.len(), 1);
    assert_eq!(h[0].amount_paid, 21);
    assert_eq!(h[0].usages_purchased, 3);
    assert_eq!(h[0].timestamp, 5);
    assert_eq!(h[0].group_id, gid(1));
    assert_eq!(get_group_payment_history(&s, &gid(1)), h);
}

#[test]
fn largest_cost_does_not_overflow() {
    let mut s = ready_store();
    set_usage_fee(&mut s, u32::MAX, addr(1)).unwrap();
    let acts = create_autoshare(&mut s, gid(1), Vec::new(), addr(10), u32::MAX, addr(50), 0).unwrap();
    assert_eq!(
        acts[0],
        Action::Collect { token: addr(50), from: addr(10), amount: (u32::MAX as i128) * (u32::MAX as i128) }
    );
}

#[test]
fn topup_adds_to_remaining_and_paid() {
    let mut s = ready_store();
    let id = new_group(&mut s, 1, 10, 2);
    reduce_usage(&mut s, id.clone()).unwrap();
    let acts = topup_subscription(&mut s, id.clone(), 3, addr(50), addr(11), 9).unwrap();
    assert_eq!(acts, vec![Action::Collect { token: addr(50), from: addr(11), amount: 30 }]);
    assert_eq!(get_remaining_usages(&s, &id), Ok(4));
    assert_eq!(get_total_usages_paid(&s, &id), Ok(5));
    assert_eq!(get_user_payment_history(&s, &addr(11)).len(), 1);
    assert_eq!(get_group_payment_history(&s, &id).len(), 2);
}

#[test]
fn topup_overflow_is_detected() {
    let mut s = ready_store();
    let id = new_group(&mut s, 1, 10, u32::MAX - 1);
    assert!(!topup_would_overflow(&s, &id, 1, &addr(50)));
    assert!(topup_would_overflow(&s, &id, 2, &addr(50)));
    // Not reached when the token is not allowed.
    assert!(!topup_would_overflow(&s, &id, 2, &addr(51)));
}

#[test]
fn reduce_usage_counts_down_to_zero() {
    let mut s = ready_store();
    let id = new_group(&mut s, 1, 10, 1);
    assert_eq!(reduce_usage(&mut s, id.clone()), Ok(()));
    assert_eq!(get_remaining_usages(&s, &id), Ok(0));
    assert_eq!(get_total_usages_paid(&s, &id), Ok(1));
    assert_eq!(reduce_usage(&mut s, id.clone()), Err(Error::NoUsagesRemaining));
    assert_eq!(reduce_usage(&mut s, gid(9)), Err(Error::NotFound));
}

#[test]
fn update_then_read_members() {
    let mut s = ready_store();
    let id = new_group(&mut s, 1, 10, 1);
    let ms = vec![member(20, 60), member(21, 40)];
    update_members(&mut s, id.clone(), addr(10), ms.clone()).unwrap();
    assert_eq!(get_group_members(&s, &id), Ok(ms));
    assert_eq!(is_group_member(&s, &id, &addr(21)), Ok(true));
    assert_eq!(is_group_member(&s, &id, &addr(22)), Ok(false));
    assert_eq!(is_group_member(&s, &gid(9), &addr(21)), Err(Error::NotFound));
}

#[test]
fn update_members_refusals() {
    let mut s = ready_store();
    let id = new_group(&mut s, 1, 10, 1);
    assert_eq!(update_members(&mut s, gid(9), addr(10), vec![member(20, 100)]), Err(Error::NotFound));
    assert_eq!(update_members(&mut s, id.clone(), addr(11), vec![member(20, 100)]), Err(Error::Unauthorized));
    assert_eq!(update_members(&mut s, id.clone(), addr(10), vec![]), Err(Error::EmptyMembers));
    assert_eq!(
        update_members(&mut s, id.clone(), addr(10), vec![member(20, 50), member(20, 50)]),
        Err(Error::DuplicateMember)
    );
    assert_eq!(
        update_members(&mut s, id.clone(), addr(10), vec![member(20, 50), member(21, 49)]),
        Err(Error::InvalidTotalPercentage)
    );
    deactivate_group(&mut s, id.clone(), addr(10)).unwrap();
    assert_eq!(update_members(&mut s, id.clone(), addr(10), vec![member(20, 100)]), Err(Error::GroupInactive));
}

#[test]
fn add_group_member_validates_the_extended_list() {
    let mut s = ready_store();
    let id = new_group(&mut s, 1, 10, 1);
    assert_eq!(add_group_member(&mut s, id.clone(), addr(20), 50), Err(Error::InvalidTotalPercentage));
    assert_eq!(get_group_members(&s, &id), Ok(vec![]));
    assert_eq!(add_group_member(&mut s, id.clone(), addr(20), 100), Ok(()));
    assert_eq!(add_group_member(&mut s, id.clone(), addr(20), 0), Err(Error::AlreadyExists));
    assert_eq!(add_group_member(&mut s, id.clone(), addr(21), 0), Ok(()));
    assert_eq!(get_group_members(&s, &id), Ok(vec![member(20, 100), member(21, 0)]));
    assert_eq!(add_group_member(&mut s, gid(9), addr(21), 0), Err(Error::NotFound));
}

#[test]
fn member_overflow_checks() {
    let big = vec![member(20, u32::MAX), member(21, 1)];
    assert!(members_would_overflow(&big));
    // A repeated address stops the check before the overflowing addition.
    let dup_first = vec![member(20, 1), member(20, 1), member(21, u32::MAX)];
    assert!(!members_would_overflow(&dup_first));
    assert_eq!(validate_members(&dup_first), Err(Error::DuplicateMember));
    let fine = vec![member(20, 30), member(21, 70)];
    assert!(!members_would_overflow(&fine));
    assert_eq!(validate_members(&fine), Ok(()));

    let mut s = ready_store();
    let id = new_group(&mut s, 1, 10, 1);
    assert!(update_members_would_overflow(&s, &id, &addr(10), &big));
    assert!(!update_members_would_overflow(&s, &id, &addr(11), &big));
    add_group_member(&mut s, id.clone(), addr(20), 100).unwrap();
    assert!(add_member_would_overflow(&s, &id, &addr(21), u32::MAX));
    assert!(!add_member_would_overflow(&s, &id, &addr(20), u32::MAX));
}

#[test]
fn set_then_get_fee() {
    let mut s = ready_store();
    assert_eq!(get_usage_fee(&s), 10);
    assert_eq!(set_usage_fee(&mut s, 0, addr(1)), Err(Error::InvalidAmount));
    assert_eq!(set_usage_fee(&mut s, 3, addr(2)), Err(Error::Unauthorized));
    set_usage_fee(&mut s, 3, addr(1)).unwrap();
    assert_eq!(get_usage_fee(&s), 3);
}

#[test]
fn default_fee_without_admin() {
    let s = Store::new();
    assert_eq!(get_usage_fee(&s), 10);
    assert!(get_supported_tokens(&s).is_empty());
    assert!(!get_paused_status(&s));
}

#[test]
fn create_refusals() {
    let mut s = ready_store();
    new_group(&mut s, 1, 10, 1);
    assert_eq!(
        create_autoshare(&mut s, gid(1), Vec::new(), addr(11), 1, addr(50), 0),
        Err(Error::AlreadyExists)
    );
    assert_eq!(
        create_autoshare(&mut s, gid(2), Vec::new(), addr(11), 1, addr(51), 0),
        Err(Error::UnsupportedToken)
    );
    assert_eq!(
        create_autoshare(&mut s, gid(2), Vec::new(), addr(11), 0, addr(51), 0),
        Err(Error::InvalidUsageCount)
    );
}

#[test]
fn topup_refusals() {
    let mut s = ready_store();
    let id = new_group(&mut s, 1, 10, 1);
    assert_eq!(topup_subscription(&mut s, id.clone(), 0, addr(50), addr(10), 0), Err(Error::InvalidUsageCount));
    assert_eq!(topup_subscription(&mut s, gid(9), 1, addr(50), addr(10), 0), Err(Error::NotFound));
    assert_eq!(topup_subscription(&mut s, id.clone(), 1, addr(51), addr(10), 0), Err(Error::UnsupportedToken));
}

#[test]
fn activation_refusals() {
    let mut s = ready_store();
    let id = new_group(&mut s, 1, 10, 1);
    assert_eq!(activate_group(&mut s, id.clone(), addr(10)), Err(Error::GroupAlreadyActive));
    assert_eq!(deactivate_group(&mut s, id.clone(), addr(11)), Err(Error::Unauthorized));
    assert_eq!(deactivate_group(&mut s, gid(9), addr(10)), Err(Error::NotFound));
    deactivate_group(&mut s, id.clone(), addr(10)).unwrap();
    assert_eq!(deactivate_group(&mut s, id.clone(), addr(10)), Err(Error::GroupAlreadyInactive));
    assert_eq!(is_group_active(&s, &gid(9)), Err(Error::NotFound));
}

#[test]
fn admin_refusals() {
    let mut s = ready_store();
    assert_eq!(unpause(&mut s, addr(1)), Err(Error::NotPaused));
    assert_eq!(unpause(&mut s, addr(2)), Err(Error::Unauthorized));
    assert_eq!(add_supported_token(&mut s, addr(50), addr(1)), Err(Error::AlreadyExists));
    assert_eq!(add_supported_token(&mut s, addr(53), addr(2)), Err(Error::Unauthorized));
    assert_eq!(remove_supported_token(&mut s, addr(50), addr(2)), Err(Error::Unauthorized));
    let mut fresh = Store::new();
    assert_eq!(pause(&mut fresh, addr(1)), Err(Error::Unauthorized));
}

#[test]
fn withdraw_checks_amount_and_balance() {
    let s = ready_store();
    assert_eq!(withdraw(&s, addr(2), addr(50), 5, addr(9), 100), Err(Error::Unauthorized));
    assert_eq!(withdraw(&s, addr(1), addr(50), 0, addr(9), 100), Err(Error::InvalidAmount));
    assert_eq!(withdraw(&s, addr(1), addr(50), -3, addr(9), 100), Err(Error::InvalidAmount));
    assert_eq!(withdraw(&s, addr(1), addr(50), 101, addr(9), 100), Err(Error::InsufficientContractBalance));
    let acts = withdraw(&s, addr(1), addr(50), 100, addr(9), 100).unwrap();
    assert_eq!(
        acts,
        vec![
            Action::Payout { token: addr(50), to: addr(9), amount: 100 },
            Action::Publish(Event::Withdrawal {
                token: addr(50),
                recipient: addr(9),
                category: NotificationCategory::Financial,
                priority: NotificationPriority::High,
                amount: 100,
            }),
        ]
    );
    assert!(withdraw_needs_balance(&s, &addr(1), 1));
    assert!(!withdraw_needs_balance(&s, &addr(1), 0));
    assert!(!withdraw_needs_balance(&s, &addr(2), 1));
}

#[test]
fn groups_are_listed_in_creation_order_and_by_creator() {
    let mut s = ready_store();
    let a = new_group(&mut s, 3, 10, 1);
    let b = new_group(&mut s, 1, 11, 1);
    let c = new_group(&mut s, 2, 10, 1);
    let all: Vec<GroupId> = get_all_groups(&s).into_iter().map(|d| d.id).collect();
    assert_eq!(all, vec![a.clone(), b.clone(), c.clone()]);
    let mine: Vec<GroupId> = get_groups_by_creator(&s, &addr(10)).into_iter().map(|d| d.id).collect();
    assert_eq!(mine, vec![a, c]);
    assert!(get_groups_by_creator(&s, &addr(12)).is_empty());
}

#[test]
fn listed_ids_without_details_are_passed_over() {
    let mut s = ready_store();
    new_group(&mut s, 1, 10, 1);
    let mut ids = s.all_groups.clone().unwrap();
    ids.insert(0, gid(42));
    s.all_groups = Some(ids);
    let all: Vec<GroupId> = get_all_groups(&s).into_iter().map(|d| d.id).collect();
    assert_eq!(all, vec![gid(1)]);
}

#[test]
fn usages_left_never_exceed_usages_paid() {
    let mut s = ready_store();
    let id = new_group(&mut s, 1, 10, 3);
    for _ in 0..3 {
        reduce_usage(&mut s, id.clone()).unwrap();
        let d = get_autoshare(&s, &id).unwrap();
        assert!(d.usage_count <= d.total_usages_paid);
    }
    topup_subscription(&mut s, id.clone(), 2, addr(50), addr(10), 0).unwrap();
    let d = get_autoshare(&s, &id).unwrap();
    assert_eq!((d.usage_count, d.total_usages_paid), (2, 5));
}

#[test]
fn categories_register_once() {
    let mut s = ready_store();
    assert!(!is_category_registered(&s, NotificationCategory::Admin));
    assert_eq!(
        register_category(&mut s, addr(2), NotificationCategory::Admin),
        Err(Error::Unauthorized)
    );
    register_category(&mut s, addr(1), NotificationCategory::Admin).unwrap();
    assert!(is_category_registered(&s, NotificationCategory::Admin));
    assert_eq!(
        register_category(&mut s, addr(1), NotificationCategory::Admin),
        Err(Error::AlreadyExists)
    );
}

#[test]
fn paid_usages_match_the_group_payment_records() {
    let mut s = ready_store();
    let id = new_group(&mut s, 1, 10, 3);
    topup_subscription(&mut s, id.clone(), 4, addr(50), addr(11), 1).unwrap();
    topup_subscription(&mut s, id.clone(), 2, addr(50), addr(10), 2).unwrap();
    reduce_usage(&mut s, id.clone()).unwrap();
    let records = get_group_payment_history(&s, &id);
    let bought: u32 = records.iter().map(|r| r.usages_purchased).sum();
    assert_eq!(get_total_usages_paid(&s, &id), Ok(bought));
    assert_eq!(bought, 9);
    assert!(records.iter().all(|r| r.group_id == id));
    let user_records = get_user_payment_history(&s, &addr(10));
    assert_eq!(user_records.len(), 2);
    assert!(user_records.iter().all(|r| r.user == addr(10)));
    assert_eq!(user_records[1].amount_paid, 20);
}

#[test]
fn fee_is_the_last_successful_setting() {
    let mut s = Store::new();
    assert_eq!(set_usage_fee(&mut s, 5, addr(1)), Err(Error::Unauthorized));
    assert_eq!(get_usage_fee(&s), 10);
    initialize_admin(&mut s, addr(1));
    set_usage_fee(&mut s, 4, addr(1)).unwrap();
    assert_eq!(set_usage_fee(&mut s, 0, addr(1)), Err(Error::InvalidAmount));
    assert_eq!(set_usage_fee(&mut s, 9, addr(2)), Err(Error::Unauthorized));
    assert_eq!(get_usage_fee(&s), 4);
}

#[test]
fn allow_list_never_repeats_a_token() {
    let mut s = ready_store();
    add_supported_token(&mut s, addr(51), addr(1)).unwrap();
    assert_eq!(add_supported_token(&mut s, addr(51), addr(1)), Err(Error::AlreadyExists));
    remove_supported_token(&mut s, addr(50), addr(1)).unwrap();
    add_supported_token(&mut s, addr(50), addr(1)).unwrap();
    let tokens = get_supported_tokens(&s);
    assert_eq!(tokens, vec![addr(51), addr(50)]);
}
