use vstd::prelude::*;
use crate::error::Error;
use crate::ledger::{ledger_ok, lemma_insert_ok};
use crate::principal::{Address, AuthContext};
use crate::store::{DataKey, DataKeyView, Store, StoreValue, StoreValueView, StoreView};

verus! {

/// May grant and revoke roles, unpause, revoke and migrate attestations.
pub const ROLE_ADMIN: u32 = 1;

/// May attest on behalf of businesses.
pub const ROLE_ATTESTOR: u32 = 2;

/// A business that submits attestations.
pub const ROLE_BUSINESS: u32 = 4;

/// May pause the contract.
pub const ROLE_OPERATOR: u32 = 8;

/// The role bitmap of `account`: zero for a principal that has none.
pub open spec fn roles_of(m: StoreView, account: Seq<char>) -> u32 {
    match m.get(DataKeyView::Role(account)) {
        Some(StoreValueView::Small(r)) => r,
        _ => 0,
    }
}

/// Whether `account` holds a role of the mask `role`.
pub open spec fn holds_role(m: StoreView, account: Seq<char>, role: u32) -> bool {
    roles_of(m, account) & role != 0
}

/// Whether the contract is paused.
pub open spec fn paused(m: StoreView) -> bool {
    m.get(DataKeyView::Paused) == Some(StoreValueView::Flag(true))
}

/// Whether `caller` signed the call and holds the administrator role.
pub open spec fn admin_call(m: StoreView, auth: Set<Seq<char>>, caller: Seq<char>) -> bool {
    auth.contains(caller) && holds_role(m, caller, ROLE_ADMIN)
}

/// The role bitmap of `account`.
pub fn get_roles(store: &Store, account: &Address) -> (r: u32)
    ensures
        r == roles_of(store@, account@),
{
    match store.get(&DataKey::Role(account.clone())) {
        Some(StoreValue::Small(r)) => *r,
        _ => 0,
    }
}

/// Whether `account` holds a role of the mask `role`.
pub fn has_role(store: &Store, account: &Address, role: u32) -> (r: bool)
    ensures
        r == holds_role(store@, account@, role),
{
    (get_roles(store, account) & role) != 0
}

/// Adds the roles of the mask `role` to those of `account`. Granting a role
/// that is held changes nothing.
pub fn grant_role(store: &mut Store, account: &Address, role: u32)
    ensures
        final(store)@ == old(store)@.insert(
            DataKeyView::Role(account@),
            StoreValueView::Small(roles_of(old(store)@, account@) | role),
        ),
        ledger_ok(old(store)@) ==> ledger_ok(final(store)@),
{
    let roles: u32 = get_roles(store, account);
    proof {
        if ledger_ok(store@) {
            lemma_insert_ok(
                store@,
                DataKeyView::Role(account@),
                StoreValueView::Small(roles | role),
            );
        }
    }
    store.set(DataKey::Role(account.clone()), StoreValue::Small(roles | role));
}

/// Takes the roles of the mask `role` from those of `account`.
pub fn revoke_role(store: &mut Store, account: &Address, role: u32)
    ensures
        final(store)@ == old(store)@.insert(
            DataKeyView::Role(account@),
            StoreValueView::Small(roles_of(old(store)@, account@) & !role),
        ),
        ledger_ok(old(store)@) ==> ledger_ok(final(store)@),
{
    let roles: u32 = get_roles(store, account);
    proof {
        if ledger_ok(store@) {
            lemma_insert_ok(
                store@,
                DataKeyView::Role(account@),
                StoreValueView::Small(roles & !role),
            );
        }
    }
    store.set(DataKey::Role(account.clone()), StoreValue::Small(roles & !role));
}

/// Whether the contract is paused.
pub fn is_paused(store: &Store) -> (r: bool)
    ensures
        r == paused(store@),
{
    match store.get(&DataKey::Paused) {
        Some(StoreValue::Flag(b)) => *b,
        _ => false,
    }
}

/// Sets or clears the pause flag.
pub fn set_paused(store: &mut Store, flag: bool)
    ensures
        final(store)@ == old(store)@.insert(DataKeyView::Paused, StoreValueView::Flag(flag)),
        ledger_ok(old(store)@) ==> ledger_ok(final(store)@),
{
    proof {
        if ledger_ok(store@) {
            lemma_insert_ok(store@, DataKeyView::Paused, StoreValueView::Flag(flag));
        }
    }
    store.set(DataKey::Paused, StoreValue::Flag(flag));
}

/// The guard of every entry point that changes attestations: fails with
/// `Paused` while the contract is paused.
pub fn require_not_paused(store: &Store) -> (r: Result<(), Error>)
    ensures
        r == if paused(store@) {
            Err::<(), Error>(Error::Paused)
        } else {
            Ok::<(), Error>(())
        },
{
    if is_paused(store) {
        Err(Error::Paused)
    } else {
        Ok(())
    }
}

/// The guard of every administrator's entry point: `caller` must have
/// signed the call and must hold the administrator role.
pub fn require_admin(store: &Store, auth: &AuthContext, caller: &Address) -> (r: Result<(), Error>)
    ensures
        r == if admin_call(store@, auth@, caller@) {
            Ok::<(), Error>(())
        } else {
            Err::<(), Error>(Error::Unauthorized)
        },
{
    if !auth.authorizes(caller) {
        return Err(Error::Unauthorized);
    }
    if !has_role(store, caller, ROLE_ADMIN) {
        return Err(Error::Unauthorized);
    }
    Ok(())
}

/// The principals that hold any role, each once.
pub fn get_role_holders(store: &Store) -> (r: Vec<Address>)
    ensures
        crate::principal::principals(r@).no_duplicates(),
        forall|a: Seq<char>| crate::principal::principals(r@).contains(a) <==> roles_of(store@, a) != 0,
{
    let n: usize = store.len();
    let mut holders: Vec<Address> = Vec::new();
    let ghost mut at: Seq<int> = Seq::empty();
    store.recall();
    let mut i: usize = 0;
    while i < n
        invariant
            i <= n,
            n == store.keys().len(),
            store.keys().no_duplicates(),
            forall|k: DataKeyView| store@.contains_key(k) <==> store.keys().contains(k),
            at.len() == holders@.len(),
            forall|x: int| 0 <= x < at.len() ==> 0 <= #[trigger] at[x] < i && store.keys()[at[x]] == DataKeyView::Role(holders@[x]@) && roles_of(store@, holders@[x]@) != 0,
            forall|x: int, y: int| 0 <= x < y < at.len() ==> at[x] < at[y],
            forall|j: int| 0 <= j < i && (#[trigger] store.keys()[j]) is Role && roles_of(store@, store.keys()[j]->Role_0) != 0 ==> exists|x: int| 0 <= x < at.len() && at[x] == j,
        decreases n - i,
    {
        let (key, value) = store.entry_at(i);
        match (key, value) {
            (DataKey::Role(account), StoreValue::Small(roles)) => {
                if *roles != 0 {
                    holders.push(account.clone());
                    proof {
                        let ghost prev = at;
                        at = at.push(i as int);
                        assert forall|j: int| 0 <= j < i + 1 && (#[trigger] store.keys()[j]) is Role && roles_of(store@, store.keys()[j]->Role_0) != 0 implies exists|x: int| 0 <= x < at.len() && at[x] == j by {
                            if j < i {
                                let x = choose|x: int| 0 <= x < prev.len() && prev[x] == j;
                                assert(at[x] == j);
                            } else {
                                assert(at[at.len() - 1] == j);
                            }
                        }
                    }
                }
            },
            _ => {},
        }
        i += 1;
    }
    proof {
        let ps = crate::principal::principals(holders@);
        assert forall|x: int, y: int| 0 <= x < ps.len() && 0 <= y < ps.len() && x != y implies ps[x] != ps[y] by {
            assert(ps[x] == holders@[x]@ && ps[y] == holders@[y]@);
            if x < y {
                assert(at[x] < at[y]);
            } else {
                assert(at[y] < at[x]);
            }
        }
        assert forall|a: Seq<char>| ps.contains(a) <==> roles_of(store@, a) != 0 by {
            if ps.contains(a) {
                let x = choose|x: int| 0 <= x < ps.len() && ps[x] == a;
                assert(holders@[x]@ == a);
                assert(0 <= at[x] < i);
            }
            if roles_of(store@, a) != 0 {
                assert(store@.contains_key(DataKeyView::Role(a)));
                assert(store.keys().contains(DataKeyView::Role(a)));
                let j = choose|j: int|
                    0 <= j < store.keys().len() && store.keys()[j] == DataKeyView::Role(a);
                assert(store.keys()[j] is Role);
                let x = choose|x: int| 0 <= x < at.len() && at[x] == j;
                assert(0 <= at[x] < i);
                assert(ps[x] == holders@[x]@);
                assert(ps[x] == a);
            }
        }
    }
    holders
}

} // verus!
