use vstd::prelude::*;

use crate::ids::Address;
use crate::model::{
    outcome_view, Action, ActionView, Error, Event, EventView, NotificationCategory,
    NotificationPriority,
};
use crate::store::{follows, paused_of, Store, StoreView, DEFAULT_USAGE_FEE};

verus! {

/// Storage after `initialize_admin`: the first admin is recorded together
/// with the default usage fee and an empty token allow-list; once an admin
/// exists nothing changes.
pub open spec fn initialize_admin_spec(s: StoreView, admin: Seq<u8>) -> StoreView {
    if s.admin is None {
        StoreView {
            admin: Some(admin),
            usage_fee: Some(DEFAULT_USAGE_FEE),
            supported_tokens: Some(Seq::empty()),
            ..s
        }
    } else {
        s
    }
}

/// Whether `caller` is the recorded admin.
pub open spec fn is_admin(s: StoreView, caller: Seq<u8>) -> bool {
    s.admin == Some(caller)
}

pub open spec fn transfer_admin_spec(s: StoreView, current: Seq<u8>, new_admin: Seq<u8>) -> Result<
    (StoreView, Seq<ActionView>),
    Error,
> {
    if !is_admin(s, current) {
        Err(Error::Unauthorized)
    } else {
        Ok(
            (
                StoreView { admin: Some(new_admin), ..s },
                seq![ActionView::Publish(EventView::AdminTransferred {
                    old_admin: current,
                    category: NotificationCategory::Admin,
                    priority: NotificationPriority::Critical,
                    new_admin,
                })],
            ),
        )
    }
}

pub open spec fn pause_spec(s: StoreView, admin: Seq<u8>) -> Result<(StoreView, Seq<ActionView>), Error> {
    if !is_admin(s, admin) {
        Err(Error::Unauthorized)
    } else if paused_of(s) {
        Err(Error::AlreadyPaused)
    } else {
        Ok((StoreView { paused: Some(true), ..s }, seq![ActionView::Publish(EventView::ContractPaused { admin, category: NotificationCategory::Admin, priority: NotificationPriority::High })]))
    }
}

pub open spec fn unpause_spec(s: StoreView, admin: Seq<u8>) -> Result<(StoreView, Seq<ActionView>), Error> {
    if !is_admin(s, admin) {
        Err(Error::Unauthorized)
    } else if !paused_of(s) {
        Err(Error::NotPaused)
    } else {
        Ok((StoreView { paused: Some(false), ..s }, seq![ActionView::Publish(EventView::ContractUnpaused { admin, category: NotificationCategory::Admin, priority: NotificationPriority::High })]))
    }
}

/// Records `admin` as the contract's admin unless one is already recorded,
/// and then also the default usage fee and an empty token allow-list.
/// (The caller has already required `admin`'s authorization.)
pub fn initialize_admin(store: &mut Store, admin: Address)
    requires
        old(store).wf(),
    ensures
        final(store).wf(),
        final(store)@ == initialize_admin_spec(old(store)@, admin@),
{
    if store.admin.is_none() {
        store.admin = Some(admin);
        store.usage_fee = Some(DEFAULT_USAGE_FEE);
        store.supported_tokens = Some(Vec::new());
        assert(store@ =~= initialize_admin_spec(old(store)@, admin@));
    }
}

/// Succeeds exactly when `caller` is the recorded admin.
pub fn require_admin(store: &Store, caller: &Address) -> (r: Result<(), Error>)
    ensures
        r == (if is_admin(store@, caller@) {
            Ok::<(), Error>(())
        } else {
            Err::<(), Error>(Error::Unauthorized)
        }),
{
    match &store.admin {
        None => Err(Error::Unauthorized),
        Some(admin) => {
            if admin.equals(caller) {
                Ok(())
            } else {
                Err(Error::Unauthorized)
            }
        },
    }
}

/// The recorded admin, or `NotFound` when there is none.
pub fn get_admin(store: &Store) -> (r: Result<Address, Error>)
    ensures
        match store@.admin {
            Some(a) => r is Ok && r->Ok_0@ == a,
            None => r == Err::<Address, Error>(Error::NotFound),
        },
{
    match &store.admin {
        Some(a) => Ok(a.duplicate()),
        None => Err(Error::NotFound),
    }
}

/// Hands the admin role from `current_admin` to `new_admin`.
/// (The caller has already required `current_admin`'s authorization.)
pub fn transfer_admin(store: &mut Store, current_admin: Address, new_admin: Address) -> (r: Result<
    Vec<Action>,
    Error,
>)
    requires
        old(store).wf(),
    ensures
        final(store).wf(),
        follows(
            transfer_admin_spec(old(store)@, current_admin@, new_admin@),
            old(store)@,
            final(store)@,
            outcome_view(r),
        ),
{
    if let Err(e) = require_admin(store, &current_admin) {
        return Err(e);
    }
    let ghost pre = store@;
    store.admin = Some(new_admin.duplicate());
    let mut acts: Vec<Action> = Vec::new();
    acts.push(
        Action::Publish(
            Event::AdminTransferred {
                old_admin: current_admin,
                category: NotificationCategory::Admin,
                priority: NotificationPriority::Critical,
                new_admin,
            },
        ),
    );
    assert(store@ =~= StoreView { admin: Some(new_admin@), ..pre });
    assert(acts.deep_view() =~= seq![
        ActionView::Publish(
            EventView::AdminTransferred {
                old_admin: current_admin@,
                category: NotificationCategory::Admin,
                priority: NotificationPriority::Critical,
                new_admin: new_admin@,
            },
        ),
    ]);
    Ok(acts)
}

/// Pauses the contract.
/// (The caller has already required `admin`'s authorization.)
pub fn pause(store: &mut Store, admin: Address) -> (r: Result<Vec<Action>, Error>)
    requires
        old(store).wf(),
    ensures
        final(store).wf(),
        follows(pause_spec(old(store)@, admin@), old(store)@, final(store)@, outcome_view(r)),
{
    if let Err(e) = require_admin(store, &admin) {
        return Err(e);
    }
    if get_paused_status(store) {
        return Err(Error::AlreadyPaused);
    }
    let ghost pre = store@;
    store.paused = Some(true);
    let mut acts: Vec<Action> = Vec::new();
    let ghost av = admin@;
    acts.push(
        Action::Publish(Event::ContractPaused { admin, category: NotificationCategory::Admin, priority: NotificationPriority::High }),
    );
    assert(store@ =~= StoreView { paused: Some(true), ..pre });
    assert(acts.deep_view() =~= seq![
        ActionView::Publish(EventView::ContractPaused { admin: av, category: NotificationCategory::Admin, priority: NotificationPriority::High }),
    ]);
    Ok(acts)
}

/// Lifts a pause.
/// (The caller has already required `admin`'s authorization.)
pub fn unpause(store: &mut Store, admin: Address) -> (r: Result<Vec<Action>, Error>)
    requires
        old(store).wf(),
    ensures
        final(store).wf(),
        follows(unpause_spec(old(store)@, admin@), old(store)@, final(store)@, outcome_view(r)),
{
    if let Err(e) = require_admin(store, &admin) {
        return Err(e);
    }
    if !get_paused_status(store) {
        return Err(Error::NotPaused);
    }
    let ghost pre = store@;
    store.paused = Some(false);
    let mut acts: Vec<Action> = Vec::new();
    let ghost av = admin@;
    acts.push(
        Action::Publish(Event::ContractUnpaused { admin, category: NotificationCategory::Admin, priority: NotificationPriority::High }),
    );
    assert(store@ =~= StoreView { paused: Some(false), ..pre });
    assert(acts.deep_view() =~= seq![
        ActionView::Publish(EventView::ContractUnpaused { admin: av, category: NotificationCategory::Admin, priority: NotificationPriority::High }),
    ]);
    Ok(acts)
}

/// Whether the contract is paused; an absent flag means it is not.
pub fn get_paused_status(store: &Store) -> (r: bool)
    ensures
        r == paused_of(store@),
{
    match store.paused {
        Some(p) => p,
        None => false,
    }
}

} // verus!
