use vstd::prelude::*;

use crate::ids::{Address, GroupId};
use crate::model::{ActionView, AutoShareDetails, DataKey, Error, GroupView, KeyView, NotificationCategory, PaymentHistory, PaymentView};
use crate::table::Table;

verus! {

/// The contract's storage, as far as the operations read and write it.
///
/// Instance entries: the admin, the pause flag, the usage fee and the token
/// allow-list; each may be absent. Persistent entries: one `AutoShare(id)`
/// entry per group (held in `groups` under the group's id), the `AllGroups`
/// list, and one payment history per user and per group. The registered
/// notification categories are kept as well.
pub struct Store {
    pub admin: Option<Address>,
    pub paused: Option<bool>,
    pub usage_fee: Option<u32>,
    pub supported_tokens: Option<Vec<Address>>,
    pub groups: Table<AutoShareDetails>,
    pub all_groups: Option<Vec<GroupId>>,
    pub user_history: Table<Vec<PaymentHistory>>,
    pub group_history: Table<Vec<PaymentHistory>>,
    pub categories: Option<Vec<NotificationCategory>>,
}

#[verifier::ext_equal]
pub struct StoreView {
    pub admin: Option<Seq<u8>>,
    pub paused: Option<bool>,
    pub usage_fee: Option<u32>,
    pub supported_tokens: Option<Seq<Seq<u8>>>,
    pub groups: Map<Seq<u8>, GroupView>,
    pub all_groups: Option<Seq<Seq<u8>>>,
    pub user_history: Map<Seq<u8>, Seq<PaymentView>>,
    pub group_history: Map<Seq<u8>, Seq<PaymentView>>,
    pub categories: Option<Seq<NotificationCategory>>,
}

impl View for Store {
    type V = StoreView;

    open spec fn view(&self) -> StoreView {
        StoreView {
            admin: self.admin.deep_view(),
            paused: self.paused,
            usage_fee: self.usage_fee,
            supported_tokens: self.supported_tokens.deep_view(),
            groups: self.groups.map(),
            all_groups: self.all_groups.deep_view(),
            user_history: self.user_history.map(),
            group_history: self.group_history.map(),
            categories: match &self.categories {
                Some(c) => Some(c@),
                None => None,
            },
        }
    }
}

/// The storage of a contract on which nothing has been done yet.
pub open spec fn empty_store() -> StoreView {
    StoreView {
        admin: None,
        paused: None,
        usage_fee: None,
        supported_tokens: None,
        groups: Map::empty(),
        all_groups: None,
        user_history: Map::empty(),
        group_history: Map::empty(),
        categories: None,
    }
}

/// The usage fee when none was stored.
pub const DEFAULT_USAGE_FEE: u32 = 10;

/// Whether the contract is paused (an absent flag means not paused).
pub open spec fn paused_of(s: StoreView) -> bool {
    match s.paused {
        Some(p) => p,
        None => false,
    }
}

/// The usage fee in force.
pub open spec fn fee_of(s: StoreView) -> u32 {
    match s.usage_fee {
        Some(f) => f,
        None => DEFAULT_USAGE_FEE,
    }
}

/// The token allow-list (an absent list is empty).
pub open spec fn tokens_of(s: StoreView) -> Seq<Seq<u8>> {
    match s.supported_tokens {
        Some(t) => t,
        None => Seq::empty(),
    }
}

/// The ordered list of group ids (an absent list is empty).
pub open spec fn group_ids_of(s: StoreView) -> Seq<Seq<u8>> {
    match s.all_groups {
        Some(g) => g,
        None => Seq::empty(),
    }
}

/// The payment records under `k` (none when the entry is absent).
pub open spec fn history_at(h: Map<Seq<u8>, Seq<PaymentView>>, k: Seq<u8>) -> Seq<PaymentView> {
    if h.contains_key(k) {
        h[k]
    } else {
        Seq::empty()
    }
}

/// How an operation's effect on storage and its result follow from its
/// outcome: on success the storage becomes the new one and the requested
/// outside work is returned; on refusal the storage is left as it was.
pub open spec fn follows(
    o: Result<(StoreView, Seq<ActionView>), Error>,
    pre: StoreView,
    post: StoreView,
    r: Result<Seq<ActionView>, Error>,
) -> bool {
    match o {
        Ok((s, acts)) => post == s && r == Ok::<Seq<ActionView>, Error>(acts),
        Err(e) => post == pre && r == Err::<Seq<ActionView>, Error>(e),
    }
}

impl Store {
    /// The tables are well formed and every group sits under its own id.
    pub open spec fn wf(&self) -> bool {
        &&& self.groups.wf()
        &&& self.user_history.wf()
        &&& self.group_history.wf()
        &&& forall|k: Seq<u8>| #[trigger]
            self.groups.map().contains_key(k) ==> self.groups.map()[k].id == k
    }

    /// Storage with no entries.
    pub fn new() -> (s: Store)
        ensures
            s.wf(),
            s@ == empty_store(),
    {
        Store {
            admin: None,
            paused: None,
            usage_fee: None,
            supported_tokens: None,
            groups: Table::new(),
            all_groups: None,
            user_history: Table::new(),
            group_history: Table::new(),
            categories: None,
        }
    }
}

} // verus!

verus! {

/// How an operation that asks for no outside work follows from its outcome.
pub open spec fn settles(
    o: Result<StoreView, Error>,
    pre: StoreView,
    post: StoreView,
    r: Result<(), Error>,
) -> bool {
    match o {
        Ok(s) => post == s && r == Ok::<(), Error>(()),
        Err(e) => post == pre && r == Err::<(), Error>(e),
    }
}

} // verus!

verus! {

/// Whether storage holds an entry under `k`.
pub open spec fn has_entry(s: StoreView, k: KeyView) -> bool {
    match k {
        KeyView::AutoShare(id) => s.groups.contains_key(id),
        KeyView::AllGroups => s.all_groups is Some,
        KeyView::UserPaymentHistory(a) => s.user_history.contains_key(a),
        KeyView::GroupPaymentHistory(id) => s.group_history.contains_key(id),
    }
}

impl Store {
    /// Whether the persistent entry under `key` is present.
    pub fn has(&self, key: &DataKey) -> (r: bool)
        requires
            self.wf(),
        ensures
            r == has_entry(self@, key@),
    {
        match key {
            DataKey::AutoShare(id) => self.groups.contains(&id.bytes),
            DataKey::AllGroups => self.all_groups.is_some(),
            DataKey::UserPaymentHistory(a) => self.user_history.contains(&a.bytes),
            DataKey::GroupPaymentHistory(id) => self.group_history.contains(&id.bytes),
        }
    }
}

} // verus!
