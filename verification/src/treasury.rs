use vstd::prelude::*;

use crate::admin::{is_admin, require_admin};
use crate::ids::Address;
use crate::model::{
    outcome_view, Action, ActionView, Error, Event, EventView, NotificationCategory,
    NotificationPriority,
};
use crate::store::{Store, StoreView};

verus! {

/// The outcome of a withdrawal, given the contract's balance of the token.
pub open spec fn withdraw_spec(
    s: StoreView,
    admin: Seq<u8>,
    token: Seq<u8>,
    amount: i128,
    recipient: Seq<u8>,
    balance: i128,
) -> Result<Seq<ActionView>, Error> {
    if !is_admin(s, admin) {
        Err(Error::Unauthorized)
    } else if amount <= 0 {
        Err(Error::InvalidAmount)
    } else if balance < amount {
        Err(Error::InsufficientContractBalance)
    } else {
        Ok(
            seq![
                ActionView::Payout { token, to: recipient, amount },
                ActionView::Publish(
                    EventView::Withdrawal {
                        token,
                        recipient,
                        category: NotificationCategory::Financial,
                        priority: NotificationPriority::High,
                        amount,
                    },
                ),
            ],
        )
    }
}

/// Pays `amount` of `token` out of the contract to `recipient`, on the
/// admin's order; `contract_balance` is the contract's current balance of
/// `token`, which is consulted only once the admin and the amount have been
/// accepted. Storage is not changed.
/// (The caller has already required `admin`'s authorization.)
pub fn withdraw(
    store: &Store,
    admin: Address,
    token: Address,
    amount: i128,
    recipient: Address,
    contract_balance: i128,
) -> (r: Result<Vec<Action>, Error>)
    ensures
        outcome_view(r) == withdraw_spec(store@, admin@, token@, amount, recipient@, contract_balance),
{
    if let Err(e) = require_admin(store, &admin) {
        return Err(e);
    }
    if amount <= 0 {
        return Err(Error::InvalidAmount);
    }
    if contract_balance < amount {
        return Err(Error::InsufficientContractBalance);
    }
    let mut acts: Vec<Action> = Vec::new();
    acts.push(Action::Payout { token: token.duplicate(), to: recipient.duplicate(), amount });
    acts.push(
        Action::Publish(
            Event::Withdrawal { token, recipient, category: NotificationCategory::Financial, priority: NotificationPriority::High, amount },
        ),
    );
    assert(acts.deep_view() =~= withdraw_spec(store@, admin@, token@, amount, recipient@, contract_balance)->Ok_0);
    Ok(acts)
}

/// Whether `withdraw` would consult the contract's balance: the admin and
/// the amount are accepted.
pub fn withdraw_needs_balance(store: &Store, admin: &Address, amount: i128) -> (r: bool)
    ensures
        r == (is_admin(store@, admin@) && amount > 0),
{
    require_admin(store, admin).is_ok() && amount > 0
}

} // verus!
