use vstd::prelude::*;

use crate::admin::{is_admin, require_admin};
use crate::ids::Address;
use crate::model::{copy_addresses, Error};
use crate::store::{fee_of, settles, tokens_of, Store, StoreView, DEFAULT_USAGE_FEE};

verus! {

pub open spec fn add_supported_token_spec(s: StoreView, token: Seq<u8>, admin: Seq<u8>) -> Result<StoreView, Error> {
    if !is_admin(s, admin) {
        Err(Error::Unauthorized)
    } else if tokens_of(s).contains(token) {
        Err(Error::AlreadyExists)
    } else {
        Ok(StoreView { supported_tokens: Some(tokens_of(s).push(token)), ..s })
    }
}

/// The allow-list without `token`, the others in their order.
pub open spec fn without_token(tokens: Seq<Seq<u8>>, token: Seq<u8>) -> Seq<Seq<u8>> {
    tokens.filter(|t: Seq<u8>| t != token)
}

pub open spec fn remove_supported_token_spec(s: StoreView, token: Seq<u8>, admin: Seq<u8>) -> Result<StoreView, Error> {
    if !is_admin(s, admin) {
        Err(Error::Unauthorized)
    } else if !tokens_of(s).contains(token) {
        Err(Error::NotFound)
    } else {
        Ok(StoreView { supported_tokens: Some(without_token(tokens_of(s), token)), ..s })
    }
}

pub open spec fn set_usage_fee_spec(s: StoreView, fee: u32, admin: Seq<u8>) -> Result<StoreView, Error> {
    if !is_admin(s, admin) {
        Err(Error::Unauthorized)
    } else if fee == 0 {
        Err(Error::InvalidAmount)
    } else {
        Ok(StoreView { usage_fee: Some(fee), ..s })
    }
}

/// Whether `token` is on a list of addresses.
fn list_contains(list: &Vec<Address>, token: &Address) -> (r: bool)
    ensures
        r == list.deep_view().contains(token@),
{
    let n = list.len();
    let mut i: usize = 0;
    while i < n
        invariant
            n == list.len(),
            i <= n,
            forall|j: int| 0 <= j < i ==> list.deep_view()[j] != token@,
        decreases n - i,
    {
        if list[i].equals(token) {
            assert(list.deep_view()[i as int] == token@);
            return true;
        }
        i = i + 1;
    }
    proof {
        if list.deep_view().contains(token@) {
            let j = choose|j: int| 0 <= j < list.deep_view().len() && list.deep_view()[j] == token@;
            assert(list.deep_view()[j] == token@);
        }
    }
    false
}

/// Adds `token` to the allow-list.
/// (The caller has already required `admin`'s authorization.)
pub fn add_supported_token(store: &mut Store, token: Address, admin: Address) -> (r: Result<(), Error>)
    requires
        old(store).wf(),
    ensures
        final(store).wf(),
        settles(add_supported_token_spec(old(store)@, token@, admin@), old(store)@, final(store)@, r),
{
    if let Err(e) = require_admin(store, &admin) {
        return Err(e);
    }
    let mut tokens = get_supported_tokens(store);
    if list_contains(&tokens, &token) {
        return Err(Error::AlreadyExists);
    }
    let ghost pre = store@;
    let ghost tv = token@;
    tokens.push(token);
    assert(tokens.deep_view() =~= tokens_of(pre).push(tv));
    store.supported_tokens = Some(tokens);
    assert(store@ =~= StoreView { supported_tokens: Some(tokens_of(pre).push(tv)), ..pre });
    Ok(())
}

/// Removes every occurrence of `token` from the allow-list; `NotFound` when
/// it is not there.
/// (The caller has already required `admin`'s authorization.)
pub fn remove_supported_token(store: &mut Store, token: Address, admin: Address) -> (r: Result<(), Error>)
    requires
        old(store).wf(),
    ensures
        final(store).wf(),
        settles(remove_supported_token_spec(old(store)@, token@, admin@), old(store)@, final(store)@, r),
{
    if let Err(e) = require_admin(store, &admin) {
        return Err(e);
    }
    let tokens = get_supported_tokens(store);
    let ghost all = tokens.deep_view();
    let ghost pred = |t: Seq<u8>| t != token@;
    let mut kept: Vec<Address> = Vec::new();
    let mut found = false;
    let n = tokens.len();
    let mut i: usize = 0;
    while i < n
        invariant
            n == tokens.len(),
            all == tokens.deep_view(),
            pred == (|t: Seq<u8>| t != token@),
            i <= n,
            kept.deep_view() =~= all.take(i as int).filter(pred),
            found == all.take(i as int).contains(token@),
        decreases n - i,
    {
        proof {
            reveal(Seq::filter);
            assert(all.take(i + 1).drop_last() =~= all.take(i as int));
            assert(all.take(i + 1).last() == all[i as int]);
            assert(all.take(i + 1).filter(pred) == (if pred(all[i as int]) {
                all.take(i as int).filter(pred).push(all[i as int])
            } else {
                all.take(i as int).filter(pred)
            }));
        }
        let ghost before = kept.deep_view();
        if !tokens[i].equals(&token) {
            kept.push(tokens[i].duplicate());
            assert(kept.deep_view() =~= before.push(all[i as int]));
            assert(pred(all[i as int]));
            assert(kept.deep_view() =~= all.take(i + 1).filter(pred));
        } else {
            found = true;
            assert(!pred(all[i as int]));
            assert(kept.deep_view() =~= all.take(i + 1).filter(pred));
        }
        proof {
            let t1 = all.take(i + 1);
            assert(t1.last() == all[i as int]);
            if all.take(i as int).contains(token@) {
                let j = choose|j: int| 0 <= j < i && all.take(i as int)[j] == token@;
                assert(t1[j] == token@);
            }
            if t1.contains(token@) {
                let j = choose|j: int| 0 <= j < i + 1 && t1[j] == token@;
                if j < i {
                    assert(all.take(i as int)[j] == token@);
                }
            }
        }
        i = i + 1;
    }
    assert(all.take(n as int) =~= all);
    if !found {
        return Err(Error::NotFound);
    }
    let ghost pre = store@;
    store.supported_tokens = Some(kept);
    assert(store@ =~= StoreView { supported_tokens: Some(without_token(tokens_of(pre), token@)), ..pre });
    Ok(())
}

/// The token allow-list; empty when none was stored.
pub fn get_supported_tokens(store: &Store) -> (r: Vec<Address>)
    ensures
        r.deep_view() == tokens_of(store@),
{
    match &store.supported_tokens {
        Some(t) => copy_addresses(t),
        None => {
            let v: Vec<Address> = Vec::new();
            assert(v.deep_view() =~= Seq::<Seq<u8>>::empty());
            v
        },
    }
}

/// Whether `token` is on the allow-list.
pub fn is_token_supported(store: &Store, token: &Address) -> (r: bool)
    ensures
        r == tokens_of(store@).contains(token@),
{
    match &store.supported_tokens {
        Some(t) => list_contains(t, token),
        None => false,
    }
}

/// Sets the fee charged per usage; a zero fee is refused.
/// (The caller has already required `admin`'s authorization.)
pub fn set_usage_fee(store: &mut Store, fee: u32, admin: Address) -> (r: Result<(), Error>)
    requires
        old(store).wf(),
    ensures
        final(store).wf(),
        settles(set_usage_fee_spec(old(store)@, fee, admin@), old(store)@, final(store)@, r),
{
    if let Err(e) = require_admin(store, &admin) {
        return Err(e);
    }
    if fee == 0 {
        return Err(Error::InvalidAmount);
    }
    let ghost pre = store@;
    store.usage_fee = Some(fee);
    assert(store@ =~= StoreView { usage_fee: Some(fee), ..pre });
    Ok(())
}

/// The fee charged per usage; the default when none was stored.
pub fn get_usage_fee(store: &Store) -> (r: u32)
    ensures
        r == fee_of(store@),
{
    match store.usage_fee {
        Some(f) => f,
        None => DEFAULT_USAGE_FEE,
    }
}

} // verus!
