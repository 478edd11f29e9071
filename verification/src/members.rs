use vstd::prelude::*;

use crate::ids::Address;
use crate::model::{Error, GroupMember, MemberView};

verus! {

/// The sum of the members' percentages.
pub open spec fn share_sum(ms: Seq<MemberView>) -> int
    decreases ms.len(),
{
    if ms.len() == 0 {
        0
    } else {
        share_sum(ms.drop_last()) + ms.last().percentage
    }
}

/// Whether some address occurs twice among the members.
pub open spec fn has_duplicate(ms: Seq<MemberView>) -> bool {
    exists|i: int, j: int| 0 <= i < j < ms.len() && ms[i].address == ms[j].address
}

/// Whether `addr` is the address of one of the members.
pub open spec fn lists_address(ms: Seq<MemberView>, addr: Seq<u8>) -> bool {
    exists|i: int| 0 <= i < ms.len() && ms[i].address == addr
}

/// Whether checking the members overflows the running `u32` total of their
/// percentages: the members are checked in order, each one's percentage is
/// added before its address is compared with those before it, and the check
/// stops at the first repeated address.
pub open spec fn members_overflow(ms: Seq<MemberView>) -> bool {
    exists|k: int|
        0 <= k < ms.len() && !has_duplicate(#[trigger] ms.take(k)) && share_sum(ms.take(k + 1))
            > u32::MAX
}

/// The verdict on a member list: it must be non-empty, free of repeated
/// addresses, and its percentages must add up to exactly 100.
pub open spec fn validate_members_spec(ms: Seq<MemberView>) -> Result<(), Error> {
    if ms.len() == 0 {
        Err(Error::EmptyMembers)
    } else if has_duplicate(ms) {
        Err(Error::DuplicateMember)
    } else if share_sum(ms) != 100 {
        Err(Error::InvalidTotalPercentage)
    } else {
        Ok(())
    }
}

proof fn lemma_take_step(ms: Seq<MemberView>, i: int)
    requires
        0 <= i < ms.len(),
    ensures
        share_sum(ms.take(i + 1)) == share_sum(ms.take(i)) + ms[i].percentage,
        has_duplicate(ms.take(i + 1)) == (has_duplicate(ms.take(i)) || lists_address(
            ms.take(i),
            ms[i].address,
        )),
{
    assert(ms.take(i + 1).drop_last() =~= ms.take(i));
    let t = ms.take(i + 1);
    let s = ms.take(i);
    if has_duplicate(t) {
        let (a, b) = choose|a: int, b: int| 0 <= a < b < t.len() && t[a].address == t[b].address;
        if b < i {
            assert(s[a].address == s[b].address);
        } else {
            assert(s[a].address == ms[i].address);
        }
    }
    if has_duplicate(s) {
        let (a, b) = choose|a: int, b: int| 0 <= a < b < s.len() && s[a].address == s[b].address;
        assert(t[a].address == t[b].address);
    }
    if lists_address(s, ms[i].address) {
        let a = choose|a: int| 0 <= a < s.len() && s[a].address == ms[i].address;
        assert(t[a].address == t[i].address);
    }
}

/// Whether `addr` is the address of one of the first `upto` members.
fn listed_before(members: &Vec<GroupMember>, upto: usize, addr: &Address) -> (r: bool)
    requires
        upto <= members.len(),
    ensures
        r == lists_address(members.deep_view().take(upto as int), addr@),
{
    let ghost ms = members.deep_view().take(upto as int);
    let mut j: usize = 0;
    while j < upto
        invariant
            upto <= members.len(),
            ms == members.deep_view().take(upto as int),
            j <= upto,
            forall|a: int| 0 <= a < j ==> ms[a].address != addr@,
        decreases upto - j,
    {
        if members[j].address.equals(addr) {
            assert(ms[j as int].address == addr@);
            return true;
        }
        j = j + 1;
    }
    false
}

/// Checks a member list: `EmptyMembers` when it is empty, `DuplicateMember`
/// when an address repeats, `InvalidTotalPercentage` when the percentages do
/// not add up to 100.
pub fn validate_members(members: &Vec<GroupMember>) -> (r: Result<(), Error>)
    requires
        !members_overflow(members.deep_view()),
    ensures
        r == validate_members_spec(members.deep_view()),
{
    let ghost ms = members.deep_view();
    if members.len() == 0 {
        return Err(Error::EmptyMembers);
    }
    let mut total: u32 = 0;
    let n = members.len();
    let mut i: usize = 0;
    while i < n
        invariant
            n == members.len(),
            ms == members.deep_view(),
            !members_overflow(ms),
            i <= n,
            total == share_sum(ms.take(i as int)),
            !has_duplicate(ms.take(i as int)),
        decreases n - i,
    {
        proof {
            lemma_take_step(ms, i as int);
            if share_sum(ms.take(i + 1)) > u32::MAX {
                assert(members_overflow(ms));
            }
        }
        total = total + members[i].percentage;
        if listed_before(members, i, &members[i].address) {
            proof {
                assert(ms.take(i + 1).len() == i + 1);
                let a = choose|a: int| 0 <= a < i && ms.take(i as int)[a].address == ms[i as int].address;
                assert(ms[a].address == ms[i as int].address);
                assert(has_duplicate(ms));
            }
            return Err(Error::DuplicateMember);
        }
        i = i + 1;
    }
    assert(ms.take(n as int) =~= ms);
    if total != 100 {
        return Err(Error::InvalidTotalPercentage);
    }
    Ok(())
}

/// Whether checking `members` would overflow the running total of their
/// percentages (see `members_overflow`).
pub fn members_would_overflow(members: &Vec<GroupMember>) -> (r: bool)
    ensures
        r == members_overflow(members.deep_view()),
{
    let ghost ms = members.deep_view();
    let mut total: u64 = 0;
    let n = members.len();
    let mut i: usize = 0;
    while i < n
        invariant
            n == members.len(),
            ms == members.deep_view(),
            i <= n,
            total == share_sum(ms.take(i as int)),
            total <= u32::MAX,
            !has_duplicate(ms.take(i as int)),
            forall|k: int|
                0 <= k < i ==> !(!has_duplicate(#[trigger] ms.take(k)) && share_sum(ms.take(k + 1))
                    > u32::MAX),
        decreases n - i,
    {
        proof {
            lemma_take_step(ms, i as int);
        }
        total = total + members[i].percentage as u64;
        if total > 4294967295u64 {
            return true;
        }
        if listed_before(members, i, &members[i].address) {
            proof {
                assert forall|k: int| 0 <= k < ms.len() implies !(!has_duplicate(
                    #[trigger] ms.take(k),
                ) && share_sum(ms.take(k + 1)) > u32::MAX) by {
                    if k > i {
                        let a = choose|a: int| 0 <= a < i && ms.take(i as int)[a].address == ms[i as int].address;
                        assert(ms.take(k)[a].address == ms.take(k)[i as int].address);
                    }
                }
            }
            return false;
        }
        i = i + 1;
    }
    false
}

} // verus!
