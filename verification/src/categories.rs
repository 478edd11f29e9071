use vstd::prelude::*;

use crate::admin::{is_admin, require_admin};
use crate::ids::Address;
use crate::model::{outcome_view, Action, ActionView, Error, Event, EventView, NotificationCategory,
    NotificationPriority,
};
use crate::store::{follows, Store, StoreView};

verus! {

/// The registered categories (an absent list is empty).
pub open spec fn categories_of(s: StoreView) -> Seq<NotificationCategory> {
    match s.categories {
        Some(c) => c,
        None => Seq::empty(),
    }
}

pub open spec fn register_category_spec(s: StoreView, admin: Seq<u8>, category: NotificationCategory) -> Result<
    (StoreView, Seq<ActionView>),
    Error,
> {
    if !is_admin(s, admin) {
        Err(Error::Unauthorized)
    } else if categories_of(s).contains(category) {
        Err(Error::AlreadyExists)
    } else {
        Ok(
            (
                StoreView { categories: Some(categories_of(s).push(category)), ..s },
                seq![ActionView::Publish(EventView::CategoryRegistered { admin, category, priority: NotificationPriority::Medium })],
            ),
        )
    }
}

/// Registers a notification category; each category can be registered once.
/// On success it asks for the registration to be announced.
/// (The caller has already required `admin`'s authorization.)
pub fn register_category(store: &mut Store, admin: Address, category: NotificationCategory) -> (r: Result<
    Vec<Action>,
    Error,
>)
    requires
        old(store).wf(),
    ensures
        final(store).wf(),
        follows(register_category_spec(old(store)@, admin@, category), old(store)@, final(store)@, outcome_view(r)),
{
    if let Err(e) = require_admin(store, &admin) {
        return Err(e);
    }
    let ghost pre = store@;
    let mut list: Vec<NotificationCategory> = match &store.categories {
        Some(c) => c.clone(),
        None => Vec::new(),
    };
    assert(list@ =~= categories_of(pre));
    let n = list.len();
    let mut i: usize = 0;
    while i < n
        invariant
            n == list.len(),
            i <= n,
            list@ == categories_of(pre),
            pre == old(store)@,
            store@ == pre,
            store.wf(),
            is_admin(pre, admin@),
            forall|j: int| 0 <= j < i ==> list@[j] != category,
        decreases n - i,
    {
        if list[i] == category {
            assert(list@[i as int] == category);
            return Err(Error::AlreadyExists);
        }
        i = i + 1;
    }
    list.push(category);
    store.categories = Some(list);
    assert(store@ =~= StoreView { categories: Some(categories_of(pre).push(category)), ..pre });
    let mut acts: Vec<Action> = Vec::new();
    acts.push(Action::Publish(Event::CategoryRegistered { admin, category, priority: NotificationPriority::Medium }));
    assert(acts.deep_view() =~= seq![ActionView::Publish(EventView::CategoryRegistered { admin: admin@, category, priority: NotificationPriority::Medium })]);
    Ok(acts)
}

/// Whether `category` has been registered.
pub fn is_category_registered(store: &Store, category: NotificationCategory) -> (r: bool)
    ensures
        r == categories_of(store@).contains(category),
{
    match &store.categories {
        None => false,
        Some(list) => {
            let n = list.len();
            let mut i: usize = 0;
            while i < n
                invariant
                    n == list.len(),
                    i <= n,
                    store@.categories == Some(list@),
                    forall|j: int| 0 <= j < i ==> list@[j] != category,
                decreases n - i,
            {
                if list[i] == category {
                    assert(list@[i as int] == category);
                    return true;
                }
                i = i + 1;
            }
            false
        },
    }
}

} // verus!
