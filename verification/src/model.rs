use vstd::prelude::*;

use crate::ids::{bytes_copy, Address, GroupId};

verus! {

/// One member of a group and the share, in percent, that it receives.
#[derive(Clone, PartialEq, Eq, Debug)]
pub struct GroupMember {
    pub address: Address,
    pub percentage: u32,
}

/// Everything stored about one AutoShare group; its members are held inside.
#[derive(Clone, PartialEq, Eq, Debug)]
pub struct AutoShareDetails {
    pub id: GroupId,
    /// The bytes of the group's name, as given.
    pub name: Vec<u8>,
    pub creator: Address,
    pub usage_count: u32,
    pub total_usages_paid: u32,
    pub members: Vec<GroupMember>,
    pub is_active: bool,
}

/// One purchase of usages, kept both per user and per group.
#[derive(Clone, PartialEq, Eq, Debug)]
pub struct PaymentHistory {
    pub user: Address,
    pub group_id: GroupId,
    pub usages_purchased: u32,
    pub amount_paid: i128,
    pub timestamp: u64,
}

/// Why an operation was refused.
#[derive(PartialEq, Eq, Structural, Clone, Copy, Debug)]
pub enum Error {
    NotFound,
    AlreadyExists,
    Unauthorized,
    ContractPaused,
    AlreadyPaused,
    NotPaused,
    InvalidUsageCount,
    InvalidAmount,
    UnsupportedToken,
    NoUsagesRemaining,
    EmptyMembers,
    DuplicateMember,
    InvalidTotalPercentage,
    GroupInactive,
    GroupAlreadyActive,
    GroupAlreadyInactive,
    InsufficientContractBalance,
}

/// The kinds of notification the contract distinguishes.
#[derive(PartialEq, Eq, Structural, Clone, Copy, Debug)]
pub enum NotificationCategory {
    Group,
    Admin,
    Financial,
    Notification,
}

/// How urgent a notification is.
#[derive(PartialEq, Eq, Structural, Clone, Copy, Debug)]
pub enum NotificationPriority {
    Low,
    Medium,
    High,
    Critical,
}

/// What a successful operation announces. Each event carries the category
/// and priority of its kind (see `event_kind`).
#[derive(Clone, PartialEq, Eq, Debug)]
pub enum Event {
    AutoshareCreated {
        creator: Address,
        category: NotificationCategory,
        priority: NotificationPriority,
        id: GroupId,
    },
    AutoshareUpdated {
        updater: Address,
        category: NotificationCategory,
        priority: NotificationPriority,
        id: GroupId,
    },
    AdminTransferred {
        old_admin: Address,
        category: NotificationCategory,
        priority: NotificationPriority,
        new_admin: Address,
    },
    ContractPaused { admin: Address, category: NotificationCategory, priority: NotificationPriority },
    ContractUnpaused { admin: Address, category: NotificationCategory, priority: NotificationPriority },
    GroupActivated {
        creator: Address,
        category: NotificationCategory,
        priority: NotificationPriority,
        id: GroupId,
    },
    GroupDeactivated {
        creator: Address,
        category: NotificationCategory,
        priority: NotificationPriority,
        id: GroupId,
    },
    Withdrawal {
        token: Address,
        recipient: Address,
        category: NotificationCategory,
        priority: NotificationPriority,
        amount: i128,
    },
    CategoryRegistered {
        admin: Address,
        category: NotificationCategory,
        priority: NotificationPriority,
    },
}

/// Outside work that a successful operation asks of its caller, in order:
/// token movements into or out of the contract, and events to publish.
#[derive(Clone, PartialEq, Eq, Debug)]
pub enum Action {
    /// Move `amount` of `token` from `from` to the contract.
    Collect { token: Address, from: Address, amount: i128 },
    /// Move `amount` of `token` from the contract to `to`.
    Payout { token: Address, to: Address, amount: i128 },
    /// Publish an event.
    Publish(Event),
}

/// The keys of the contract's persistent storage entries.
#[derive(Clone, PartialEq, Eq, Debug)]
pub enum DataKey {
    AutoShare(GroupId),
    AllGroups,
    UserPaymentHistory(Address),
    GroupPaymentHistory(GroupId),
}

// ---------------------------------------------------------------------------
// Mathematical views
// ---------------------------------------------------------------------------

pub struct MemberView {
    pub address: Seq<u8>,
    pub percentage: u32,
}

#[verifier::ext_equal]
pub struct GroupView {
    pub id: Seq<u8>,
    pub name: Seq<u8>,
    pub creator: Seq<u8>,
    pub usage_count: u32,
    pub total_usages_paid: u32,
    pub members: Seq<MemberView>,
    pub is_active: bool,
}

pub struct PaymentView {
    pub user: Seq<u8>,
    pub group_id: Seq<u8>,
    pub usages_purchased: u32,
    pub amount_paid: i128,
    pub timestamp: u64,
}

pub enum EventView {
    AutoshareCreated {
        creator: Seq<u8>,
        category: NotificationCategory,
        priority: NotificationPriority,
        id: Seq<u8>,
    },
    AutoshareUpdated {
        updater: Seq<u8>,
        category: NotificationCategory,
        priority: NotificationPriority,
        id: Seq<u8>,
    },
    AdminTransferred {
        old_admin: Seq<u8>,
        category: NotificationCategory,
        priority: NotificationPriority,
        new_admin: Seq<u8>,
    },
    ContractPaused { admin: Seq<u8>, category: NotificationCategory, priority: NotificationPriority },
    ContractUnpaused { admin: Seq<u8>, category: NotificationCategory, priority: NotificationPriority },
    GroupActivated {
        creator: Seq<u8>,
        category: NotificationCategory,
        priority: NotificationPriority,
        id: Seq<u8>,
    },
    GroupDeactivated {
        creator: Seq<u8>,
        category: NotificationCategory,
        priority: NotificationPriority,
        id: Seq<u8>,
    },
    Withdrawal {
        token: Seq<u8>,
        recipient: Seq<u8>,
        category: NotificationCategory,
        priority: NotificationPriority,
        amount: i128,
    },
    CategoryRegistered { admin: Seq<u8>, category: NotificationCategory, priority: NotificationPriority },
}

pub enum ActionView {
    Collect { token: Seq<u8>, from: Seq<u8>, amount: i128 },
    Payout { token: Seq<u8>, to: Seq<u8>, amount: i128 },
    Publish(EventView),
}

pub enum KeyView {
    AutoShare(Seq<u8>),
    AllGroups,
    UserPaymentHistory(Seq<u8>),
    GroupPaymentHistory(Seq<u8>),
}

impl DeepView for Address {
    type V = Seq<u8>;

    open spec fn deep_view(&self) -> Seq<u8> {
        self.bytes@
    }
}

impl DeepView for GroupId {
    type V = Seq<u8>;

    open spec fn deep_view(&self) -> Seq<u8> {
        self.bytes@
    }
}

impl View for GroupMember {
    type V = MemberView;

    open spec fn view(&self) -> MemberView {
        MemberView { address: self.address@, percentage: self.percentage }
    }
}

impl DeepView for GroupMember {
    type V = MemberView;

    open spec fn deep_view(&self) -> MemberView {
        self@
    }
}

impl View for AutoShareDetails {
    type V = GroupView;

    open spec fn view(&self) -> GroupView {
        GroupView {
            id: self.id@,
            name: self.name@,
            creator: self.creator@,
            usage_count: self.usage_count,
            total_usages_paid: self.total_usages_paid,
            members: self.members.deep_view(),
            is_active: self.is_active,
        }
    }
}

impl DeepView for AutoShareDetails {
    type V = GroupView;

    open spec fn deep_view(&self) -> GroupView {
        self@
    }
}

impl View for PaymentHistory {
    type V = PaymentView;

    open spec fn view(&self) -> PaymentView {
        PaymentView {
            user: self.user@,
            group_id: self.group_id@,
            usages_purchased: self.usages_purchased,
            amount_paid: self.amount_paid,
            timestamp: self.timestamp,
        }
    }
}

impl DeepView for PaymentHistory {
    type V = PaymentView;

    open spec fn deep_view(&self) -> PaymentView {
        self@
    }
}

impl View for Event {
    type V = EventView;

    open spec fn view(&self) -> EventView {
        match self {
            Event::AutoshareCreated { creator, category, priority, id } => EventView::AutoshareCreated {
                creator: creator@,
                category: *category,
                priority: *priority,
                id: id@,
            },
            Event::AutoshareUpdated { updater, category, priority, id } => EventView::AutoshareUpdated {
                updater: updater@,
                category: *category,
                priority: *priority,
                id: id@,
            },
            Event::AdminTransferred { old_admin, category, priority, new_admin } =>
                EventView::AdminTransferred {
                old_admin: old_admin@,
                category: *category,
                priority: *priority,
                new_admin: new_admin@,
            },
            Event::ContractPaused { admin, category, priority } => EventView::ContractPaused {
                admin: admin@,
                category: *category,
                priority: *priority,
            },
            Event::ContractUnpaused { admin, category, priority } => EventView::ContractUnpaused {
                admin: admin@,
                category: *category,
                priority: *priority,
            },
            Event::GroupActivated { creator, category, priority, id } => EventView::GroupActivated {
                creator: creator@,
                category: *category,
                priority: *priority,
                id: id@,
            },
            Event::GroupDeactivated { creator, category, priority, id } => EventView::GroupDeactivated {
                creator: creator@,
                category: *category,
                priority: *priority,
                id: id@,
            },
            Event::Withdrawal { token, recipient, category, priority, amount } => EventView::Withdrawal {
                token: token@,
                recipient: recipient@,
                category: *category,
                priority: *priority,
                amount: *amount,
            },
            Event::CategoryRegistered { admin, category, priority } => EventView::CategoryRegistered {
                admin: admin@,
                category: *category,
                priority: *priority,
            },
        }
    }
}

impl View for Action {
    type V = ActionView;

    open spec fn view(&self) -> ActionView {
        match self {
            Action::Collect { token, from, amount } => ActionView::Collect {
                token: token@,
                from: from@,
                amount: *amount,
            },
            Action::Payout { token, to, amount } => ActionView::Payout {
                token: token@,
                to: to@,
                amount: *amount,
            },
            Action::Publish(e) => ActionView::Publish(e@),
        }
    }
}

impl DeepView for Action {
    type V = ActionView;

    open spec fn deep_view(&self) -> ActionView {
        self@
    }
}

impl View for DataKey {
    type V = KeyView;

    open spec fn view(&self) -> KeyView {
        match self {
            DataKey::AutoShare(id) => KeyView::AutoShare(id@),
            DataKey::AllGroups => KeyView::AllGroups,
            DataKey::UserPaymentHistory(a) => KeyView::UserPaymentHistory(a@),
            DataKey::GroupPaymentHistory(id) => KeyView::GroupPaymentHistory(id@),
        }
    }
}

impl DeepView for DataKey {
    type V = KeyView;

    open spec fn deep_view(&self) -> KeyView {
        self@
    }
}

/// The view of the outcome of an operation that asks for outside work.
pub open spec fn outcome_view(r: Result<Vec<Action>, Error>) -> Result<Seq<ActionView>, Error> {
    match r {
        Ok(acts) => Ok(acts.deep_view()),
        Err(e) => Err(e),
    }
}

// ---------------------------------------------------------------------------
// Copies with known contents
// ---------------------------------------------------------------------------

impl GroupMember {
    /// A copy of this member.
    pub fn duplicate(&self) -> (r: GroupMember)
        ensures
            r@ == self@,
    {
        GroupMember { address: self.address.duplicate(), percentage: self.percentage }
    }
}

/// A copy of a member list.
pub fn copy_members(ms: &Vec<GroupMember>) -> (r: Vec<GroupMember>)
    ensures
        r.deep_view() == ms.deep_view(),
{
    let mut r: Vec<GroupMember> = Vec::new();
    let n = ms.len();
    let mut i: usize = 0;
    while i < n
        invariant
            n == ms.len(),
            i <= n,
            r@.len() == i,
            forall|j: int| 0 <= j < i ==> (#[trigger] r@[j]).deep_view() == ms@[j].deep_view(),
        decreases n - i,
    {
        r.push(ms[i].duplicate());
        i = i + 1;
    }
    assert(r.deep_view() =~= ms.deep_view());
    r
}

impl AutoShareDetails {
    /// A copy of these details.
    pub fn duplicate(&self) -> (r: AutoShareDetails)
        ensures
            r@ == self@,
    {
        AutoShareDetails {
            id: self.id.duplicate(),
            name: bytes_copy(&self.name),
            creator: self.creator.duplicate(),
            usage_count: self.usage_count,
            total_usages_paid: self.total_usages_paid,
            members: copy_members(&self.members),
            is_active: self.is_active,
        }
    }
}

impl PaymentHistory {
    /// A copy of this record.
    pub fn duplicate(&self) -> (r: PaymentHistory)
        ensures
            r@ == self@,
    {
        PaymentHistory {
            user: self.user.duplicate(),
            group_id: self.group_id.duplicate(),
            usages_purchased: self.usages_purchased,
            amount_paid: self.amount_paid,
            timestamp: self.timestamp,
        }
    }
}

/// A copy of a list of payment records.
pub fn copy_payments(ps: &Vec<PaymentHistory>) -> (r: Vec<PaymentHistory>)
    ensures
        r.deep_view() == ps.deep_view(),
{
    let mut r: Vec<PaymentHistory> = Vec::new();
    let n = ps.len();
    let mut i: usize = 0;
    while i < n
        invariant
            n == ps.len(),
            i <= n,
            r@.len() == i,
            forall|j: int| 0 <= j < i ==> (#[trigger] r@[j]).deep_view() == ps@[j].deep_view(),
        decreases n - i,
    {
        r.push(ps[i].duplicate());
        i = i + 1;
    }
    assert(r.deep_view() =~= ps.deep_view());
    r
}

/// A copy of a list of addresses.
pub fn copy_addresses(xs: &Vec<Address>) -> (r: Vec<Address>)
    ensures
        r.deep_view() == xs.deep_view(),
{
    let mut r: Vec<Address> = Vec::new();
    let n = xs.len();
    let mut i: usize = 0;
    while i < n
        invariant
            n == xs.len(),
            i <= n,
            r@.len() == i,
            forall|j: int| 0 <= j < i ==> (#[trigger] r@[j]).deep_view() == xs@[j].deep_view(),
        decreases n - i,
    {
        r.push(xs[i].duplicate());
        i = i + 1;
    }
    assert(r.deep_view() =~= xs.deep_view());
    r
}

/// A copy of a list of group identifiers.
pub fn copy_group_ids(xs: &Vec<GroupId>) -> (r: Vec<GroupId>)
    ensures
        r.deep_view() == xs.deep_view(),
{
    let mut r: Vec<GroupId> = Vec::new();
    let n = xs.len();
    let mut i: usize = 0;
    while i < n
        invariant
            n == xs.len(),
            i <= n,
            r@.len() == i,
            forall|j: int| 0 <= j < i ==> (#[trigger] r@[j]).deep_view() == xs@[j].deep_view(),
        decreases n - i,
    {
        r.push(xs[i].duplicate());
        i = i + 1;
    }
    assert(r.deep_view() =~= xs.deep_view());
    r
}

} // verus!
