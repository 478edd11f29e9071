use autoshare::categories::register_category;
use autoshare::admin::{get_admin, initialize_admin, pause, transfer_admin, unpause};
use autoshare::groups::{activate_group, create_autoshare, deactivate_group, update_members};
use autoshare::ids::{Address, GroupId};
use autoshare::model::{Action, Error, Event, GroupMember, NotificationCategory, NotificationPriority};
use autoshare::store::Store;
use autoshare::tokens::add_supported_token;
use autoshare::treasury::withdraw;

struct TestEnv {
    store: Store,
    admin: Address,
    users: Vec<Address>,
    tokens: Vec<Address>,
}

fn addr(tag: u8) -> Address {
    let mut bytes = vec![b'G'; 56];
    bytes[1] = tag;
    Address::from_bytes(bytes)
}

fn nid(tag: u8) -> GroupId {
    let mut bytes = vec![0u8; 32];
    bytes[0] = tag;
    GroupId::from_bytes(bytes)
}

fn title() -> Vec<u8> {
    b"Test notification".to_vec()
}

fn setup_test_env() -> TestEnv {
    let mut store = Store::new();
    let admin = addr(1);
    initialize_admin(&mut store, admin.clone());
    let tokens = vec![addr(50), addr(51)];
    for t in &tokens {
        add_supported_token(&mut store, t.clone(), admin.clone()).unwrap();
    }
    let users = vec![addr(10), addr(11), addr(12)];
    TestEnv { store, admin, users, tokens }
}

fn create_test_group(env: &mut TestEnv, creator: &Address, usages: u32, token: &Address) -> GroupId {
    let id = nid(200);
    create_autoshare(&mut env.store, id.clone(), title(), creator.clone(), usages, token.clone(), 0)
        .unwrap();
    id
}

fn events(actions: &[Action]) -> Vec<Event> {
    actions
        .iter()
        .filter_map(|a| match a {
            Action::Publish(e) => Some(e.clone()),
            _ => None,
        })
        .collect()
}

#[test]
fn autoshare_created_structural() {
    let mut env = setup_test_env();
    let creator = env.users[0].clone();
    let token = env.tokens[0].clone();
    let id = nid(1);
    let acts =
        create_autoshare(&mut env.store, id.clone(), title(), creator.clone(), 1, token.clone(), 0).unwrap();
    assert_eq!(events(&acts), vec![Event::AutoshareCreated {
            creator: creator.clone(),
            category: NotificationCategory::Group,
            priority: NotificationPriority::Medium,
            id: id.clone(),
        }]);
    assert_eq!(acts[0], Action::Collect { token, from: creator, amount: 10 });
}

#[test]
fn contract_paused_structural() {
    let mut env = setup_test_env();
    let acts = pause(&mut env.store, env.admin.clone()).unwrap();
    assert_eq!(
        events(&acts),
        vec![Event::ContractPaused {
            admin: env.admin.clone(),
            category: NotificationCategory::Admin,
            priority: NotificationPriority::High,
        }]
    );
}

#[test]
fn contract_unpaused_structural() {
    let mut env = setup_test_env();
    pause(&mut env.store, env.admin.clone()).unwrap();
    let acts = unpause(&mut env.store, env.admin.clone()).unwrap();
    assert_eq!(
        events(&acts).last(),
        Some(&Event::ContractUnpaused {
            admin: env.admin.clone(),
            category: NotificationCategory::Admin,
            priority: NotificationPriority::High,
        })
    );
}

#[test]
fn autoshare_updated_structural() {
    let mut env = setup_test_env();
    let creator = env.users[0].clone();
    let token = env.tokens[0].clone();
    let id = create_test_group(&mut env, &creator, 1, &token);
    let members = vec![GroupMember { address: addr(90), percentage: 100 }];
    let acts = update_members(&mut env.store, id.clone(), creator.clone(), members).unwrap();
    assert_eq!(events(&acts).last(), Some(&Event::AutoshareUpdated {
            updater: creator,
            category: NotificationCategory::Group,
            priority: NotificationPriority::Medium,
            id,
        }));
}

#[test]
fn group_deactivated_structural() {
    let mut env = setup_test_env();
    let creator = env.users[0].clone();
    let token = env.tokens[0].clone();
    let id = create_test_group(&mut env, &creator, 1, &token);
    let acts = deactivate_group(&mut env.store, id.clone(), creator.clone()).unwrap();
    assert_eq!(events(&acts).last(), Some(&Event::GroupDeactivated {
            creator,
            category: NotificationCategory::Group,
            priority: NotificationPriority::Low,
            id,
        }));
}

#[test]
fn group_activated_structural() {
    let mut env = setup_test_env();
    let creator = env.users[0].clone();
    let token = env.tokens[0].clone();
    let id = create_test_group(&mut env, &creator, 1, &token);
    deactivate_group(&mut env.store, id.clone(), creator.clone()).unwrap();
    let acts = activate_group(&mut env.store, id.clone(), creator.clone()).unwrap();
    assert_eq!(events(&acts).last(), Some(&Event::GroupActivated {
            creator,
            category: NotificationCategory::Group,
            priority: NotificationPriority::Low,
            id,
        }));
}

#[test]
fn admin_transferred_structural() {
    let mut env = setup_test_env();
    let new_admin = addr(77);
    let acts = transfer_admin(&mut env.store, env.admin.clone(), new_admin.clone()).unwrap();
    assert_eq!(
        events(&acts),
        vec![Event::AdminTransferred {
            old_admin: env.admin.clone(),
            category: NotificationCategory::Admin,
            priority: NotificationPriority::Critical,
            new_admin,
        }]
    );
}

#[test]
fn withdrawal_structural() {
    let mut env = setup_test_env();
    let creator = env.users[0].clone();
    let token = env.tokens[0].clone();
    let recipient = addr(78);
    // 5 usages * 10 fee = 50 tokens land in the contract.
    create_test_group(&mut env, &creator, 5, &token);
    let balance: i128 = 50;
    let acts = withdraw(&env.store, env.admin.clone(), token.clone(), 20, recipient.clone(), balance).unwrap();
    assert_eq!(
        events(&acts).last(),
        Some(&Event::Withdrawal {
            token: token.clone(),
            recipient: recipient.clone(),
            category: NotificationCategory::Financial,
            priority: NotificationPriority::High,
            amount: 20,
        })
    );
    assert_eq!(acts[0], Action::Payout { token, to: recipient, amount: 20 });
}

#[test]
fn create_with_zero_usage_emits_no_event() {
    let mut env = setup_test_env();
    let creator = env.users[0].clone();
    let token = env.tokens[0].clone();
    let result = create_autoshare(&mut env.store, nid(30), title(), creator, 0, token, 0);
    assert!(result.is_err());
    assert_eq!(result, Err(Error::InvalidUsageCount));
}

#[test]
fn update_members_bad_percentages_emits_no_event() {
    let mut env = setup_test_env();
    let creator = env.users[0].clone();
    let token = env.tokens[0].clone();
    let id = create_test_group(&mut env, &creator, 1, &token);
    let members = vec![GroupMember { address: addr(91), percentage: 40 }];
    let result = update_members(&mut env.store, id, creator, members);
    assert!(result.is_err());
    assert_eq!(result, Err(Error::InvalidTotalPercentage));
}

#[test]
fn pause_while_already_paused_emits_no_event() {
    let mut env = setup_test_env();
    pause(&mut env.store, env.admin.clone()).unwrap();
    let result = pause(&mut env.store, env.admin.clone());
    assert!(result.is_err());
    assert_eq!(result, Err(Error::AlreadyPaused));
}

#[test]
fn unauthorized_transfer_admin_reverts_with_no_observable_event() {
    let mut env = setup_test_env();
    let impostor = addr(66);
    let new_admin = addr(67);
    let result = transfer_admin(&mut env.store, impostor, new_admin);
    assert!(result.is_err());
    assert_eq!(result, Err(Error::Unauthorized));
    assert_eq!(get_admin(&env.store), Ok(env.admin.clone()));
}

#[test]
fn withdraw_exceeding_balance_emits_no_event() {
    let mut env = setup_test_env();
    let creator = env.users[0].clone();
    let token = env.tokens[0].clone();
    let recipient = addr(79);
    create_test_group(&mut env, &creator, 1, &token); // 10 tokens in contract
    let result = withdraw(&env.store, env.admin.clone(), token, 1_000_000, recipient, 10);
    assert!(result.is_err());
    assert_eq!(result, Err(Error::InsufficientContractBalance));
}

#[test]
fn category_registered_structural() {
    let mut env = setup_test_env();
    let acts = register_category(&mut env.store, env.admin.clone(), NotificationCategory::Financial).unwrap();
    assert_eq!(
        events(&acts),
        vec![Event::CategoryRegistered {
            admin: env.admin.clone(),
            category: NotificationCategory::Financial,
            priority: NotificationPriority::Medium,
        }]
    );
}

#[test]
fn register_category_twice_emits_no_event_on_second_call() {
    let mut env = setup_test_env();
    register_category(&mut env.store, env.admin.clone(), NotificationCategory::Group).unwrap();
    let result = register_category(&mut env.store, env.admin.clone(), NotificationCategory::Group);
    assert!(result.is_err());
}
