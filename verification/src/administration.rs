use vstd::prelude::*;
use crate::access_control::{self, admin_call, holds_role, paused, roles_of, ROLE_ADMIN, ROLE_OPERATOR};
use crate::contract::AttestationContract;
use crate::dynamic_fees::{
    self, admin_of, brackets_ok, check_brackets, count_of, fee_config_of, fee_config_view,
    fee_quote, stored_admin_error, tier_of, FeeConfig, FeeConfigView, VolumeBrackets,
    VolumeBracketsView, BPS_DENOMINATOR,
};
use crate::error::Error;
use crate::events::{Event, EventView};
use crate::ledger::lemma_insert_ok;
use crate::multisig::{self, multisig_of, multisig_ok, MultisigConfigView};
use crate::principal::{name_of, principals, Address, AuthContext};
use crate::store::{DataKey, DataKeyView, StoreValue, StoreValueView, StoreView};

verus! {

/// Why a change that only the stored administrator may make fails, if it
/// does: the contract was not set up, its administrator did not sign, or
/// what was asked for is out of range.
pub open spec fn admin_change_error(m: StoreView, auth: Set<Seq<char>>, invalid: bool) -> Option<
    Error,
> {
    if stored_admin_error(m, auth) is Some {
        stored_admin_error(m, auth)
    } else if invalid {
        Some(Error::InvalidConfig)
    } else {
        None
    }
}

/// Why `initialize` fails, if it does.
pub open spec fn initialize_error(m: StoreView, auth: Set<Seq<char>>, admin: Seq<char>) -> Option<
    Error,
> {
    if m.contains_key(DataKeyView::Admin) {
        Some(Error::AlreadyInitialized)
    } else if !auth.contains(admin) {
        Some(Error::Unauthorized)
    } else {
        None
    }
}

/// The store after `initialize`: the administrator is recorded and holds
/// the administrator role.
pub open spec fn after_initialize(m: StoreView, admin: Seq<char>) -> StoreView {
    m.insert(DataKeyView::Admin, StoreValueView::Principal(admin)).insert(
        DataKeyView::Role(admin),
        StoreValueView::Small(roles_of(m, admin) | ROLE_ADMIN),
    )
}

/// Why `initialize_multisig` fails, if it does.
pub open spec fn initialize_multisig_error(
    m: StoreView,
    auth: Set<Seq<char>>,
    owners: Seq<Seq<char>>,
    threshold: u32,
) -> Option<Error> {
    if stored_admin_error(m, auth) is Some {
        stored_admin_error(m, auth)
    } else if multisig_of(m) is Some {
        Some(Error::AlreadyInitialized)
    } else if !multisig_ok(MultisigConfigView { owners, threshold }) {
        Some(Error::InvalidConfig)
    } else {
        None
    }
}

/// Why `set_fee_enabled` fails, if it does.
pub open spec fn set_fee_enabled_error(m: StoreView, auth: Set<Seq<char>>) -> Option<Error> {
    if stored_admin_error(m, auth) is Some {
        stored_admin_error(m, auth)
    } else if fee_config_of(m) is None {
        Some(Error::NotInitialized)
    } else {
        None
    }
}

/// Whether `caller` signed the call and may pause: as an administrator or
/// as an operator.
pub open spec fn pause_call(m: StoreView, auth: Set<Seq<char>>, caller: Seq<char>) -> bool {
    auth.contains(caller) && holds_role(m, caller, ROLE_ADMIN | ROLE_OPERATOR)
}

impl AttestationContract {
    /// Sets the contract up, once: records `admin`, who must have signed
    /// the call, and gives them the administrator role.
    pub fn initialize(&mut self, auth: &AuthContext, admin: Address) -> (r: Result<(), Error>)
        ensures
            match initialize_error(old(self)@, auth@, admin@) {
                Some(e) => r == Err::<(), Error>(e) && final(self)@ == old(self)@,
                None => r == Ok::<(), Error>(()) && final(self)@ == after_initialize(
                    old(self)@,
                    admin@,
                ),
            },
    {
        if self.store().has(&DataKey::Admin) {
            return Err(Error::AlreadyInitialized);
        }
        if !auth.authorizes(&admin) {
            return Err(Error::Unauthorized);
        }
        let mut store = self.take_store();
        proof {
            lemma_insert_ok(store@, DataKeyView::Admin, StoreValueView::Principal(admin@));
            assert(roles_of(store@.insert(DataKeyView::Admin, StoreValueView::Principal(admin@)), admin@)
                == roles_of(store@, admin@));
        }
        store.set(DataKey::Admin, StoreValue::Principal(admin.clone()));
        access_control::grant_role(&mut store, &admin, ROLE_ADMIN);
        self.put_store(store);
        Ok(())
    }

    /// Sets multisig up, once, with its owners and its approval threshold.
    /// The stored administrator must have signed the call. An owner listed
    /// twice, or a threshold of zero or above the number of owners, is an
    /// `InvalidConfig`.
    pub fn initialize_multisig(
        &mut self,
        auth: &AuthContext,
        owners: Vec<Address>,
        threshold: u32,
    ) -> (r: Result<(), Error>)
        ensures
            match initialize_multisig_error(old(self)@, auth@, principals(owners@), threshold) {
                Some(e) => r == Err::<(), Error>(e) && final(self)@ == old(self)@,
                None => r == Ok::<(), Error>(()) && final(self)@ == old(self)@.insert(
                    DataKeyView::MultisigConfig,
                    StoreValueView::Multisig(
                        MultisigConfigView { owners: principals(owners@), threshold },
                    ),
                ),
            },
    {
        match dynamic_fees::require_admin(self.store(), auth) {
            Err(e) => {
                return Err(e);
            },
            Ok(_) => {},
        }
        let mut store = self.take_store();
        let r = multisig::initialize_multisig(&mut store, owners, threshold);
        self.put_store(store);
        r
    }

    /// Replaces the fee schedule. The stored administrator must have
    /// signed the call. A negative base fee is an `InvalidConfig`.
    pub fn configure_fees(
        &mut self,
        auth: &AuthContext,
        token: Address,
        collector: Address,
        base_fee: i128,
        enabled: bool,
    ) -> (r: Result<Event, Error>)
        ensures
            match admin_change_error(old(self)@, auth@, base_fee < 0) {
                Some(e) => r is Err && r->Err_0 == e && final(self)@ == old(self)@,
                None => r is Ok && r->Ok_0@ == EventView::FeeConfigChanged(
                    token@,
                    collector@,
                    base_fee,
                    enabled,
                    admin_of(old(self)@)->Some_0,
                ) && final(self)@ == old(self)@.insert(
                    DataKeyView::FeeConfig,
                    StoreValueView::FeeConfig(
                        FeeConfigView { token: token@, collector: collector@, base_fee, enabled },
                    ),
                ),
            },
    {
        let admin = match dynamic_fees::require_admin(self.store(), auth) {
            Err(e) => {
                return Err(e);
            },
            Ok(a) => a,
        };
        if base_fee < 0 {
            return Err(Error::InvalidConfig);
        }
        let config = FeeConfig {
            token: token.clone(),
            collector: collector.clone(),
            base_fee,
            enabled,
        };
        let mut store = self.take_store();
        dynamic_fees::set_fee_config(&mut store, config);
        self.put_store(store);
        Ok(Event::FeeConfigChanged(token, collector, base_fee, enabled, admin))
    }

    /// Sets the discount of a tier, in basis points. The stored
    /// administrator must have signed the call. A discount above one
    /// hundred percent is an `InvalidConfig`.
    pub fn set_tier_discount(&mut self, auth: &AuthContext, tier: u32, discount_bps: u32) -> (r:
        Result<(), Error>)
        ensures
            match admin_change_error(old(self)@, auth@, discount_bps > BPS_DENOMINATOR) {
                Some(e) => r == Err::<(), Error>(e) && final(self)@ == old(self)@,
                None => r == Ok::<(), Error>(()) && final(self)@ == old(self)@.insert(
                    DataKeyView::TierDiscount(tier),
                    StoreValueView::Small(discount_bps),
                ),
            },
    {
        match dynamic_fees::require_admin(self.store(), auth) {
            Err(e) => {
                return Err(e);
            },
            Ok(_) => {},
        }
        if discount_bps > BPS_DENOMINATOR {
            return Err(Error::InvalidConfig);
        }
        let mut store = self.take_store();
        proof {
            lemma_insert_ok(
                store@,
                DataKeyView::TierDiscount(tier),
                StoreValueView::Small(discount_bps),
            );
        }
        store.set(DataKey::TierDiscount(tier), StoreValue::Small(discount_bps));
        self.put_store(store);
        Ok(())
    }

    /// Assigns a business to a tier. The stored administrator must have
    /// signed the call.
    pub fn set_business_tier(&mut self, auth: &AuthContext, business: Address, tier: u32) -> (r:
        Result<(), Error>)
        ensures
            match admin_change_error(old(self)@, auth@, false) {
                Some(e) => r == Err::<(), Error>(e) && final(self)@ == old(self)@,
                None => r == Ok::<(), Error>(()) && final(self)@ == old(self)@.insert(
                    DataKeyView::BusinessTier(business@),
                    StoreValueView::Small(tier),
                ),
            },
    {
        match dynamic_fees::require_admin(self.store(), auth) {
            Err(e) => {
                return Err(e);
            },
            Ok(_) => {},
        }
        let mut store = self.take_store();
        proof {
            lemma_insert_ok(
                store@,
                DataKeyView::BusinessTier(business@),
                StoreValueView::Small(tier),
            );
        }
        store.set(DataKey::BusinessTier(business), StoreValue::Small(tier));
        self.put_store(store);
        Ok(())
    }

    /// Replaces the volume discount table. The stored administrator must
    /// have signed the call. Lists of different lengths, thresholds that
    /// do not strictly ascend, or a discount above one hundred percent are
    /// an `InvalidConfig`.
    pub fn set_volume_brackets(
        &mut self,
        auth: &AuthContext,
        thresholds: Vec<u64>,
        discounts: Vec<u32>,
    ) -> (r: Result<(), Error>)
        ensures
            match admin_change_error(old(self)@, auth@, !brackets_ok(thresholds@, discounts@)) {
                Some(e) => r == Err::<(), Error>(e) && final(self)@ == old(self)@,
                None => r == Ok::<(), Error>(()) && final(self)@ == old(self)@.insert(
                    DataKeyView::VolumeBrackets,
                    StoreValueView::Brackets(
                        VolumeBracketsView { thresholds: thresholds@, discounts: discounts@ },
                    ),
                ),
            },
    {
        match dynamic_fees::require_admin(self.store(), auth) {
            Err(e) => {
                return Err(e);
            },
            Ok(_) => {},
        }
        if !check_brackets(&thresholds, &discounts) {
            return Err(Error::InvalidConfig);
        }
        let brackets = VolumeBrackets { thresholds, discounts };
        let mut store = self.take_store();
        proof {
            lemma_insert_ok(
                store@,
                DataKeyView::VolumeBrackets,
                StoreValueView::Brackets(brackets@),
            );
        }
        store.set(DataKey::VolumeBrackets, StoreValue::Brackets(brackets));
        self.put_store(store);
        Ok(())
    }

    /// Switches fees on or off and leaves the rest of the fee schedule as
    /// it is. The stored administrator must have signed the call. Without
    /// a fee schedule this is a `NotInitialized`.
    pub fn set_fee_enabled(&mut self, auth: &AuthContext, enabled: bool) -> (r: Result<Event, Error>)
        ensures
            match set_fee_enabled_error(old(self)@, auth@) {
                Some(e) => r is Err && r->Err_0 == e && final(self)@ == old(self)@,
                None => r is Ok && r->Ok_0@ == EventView::FeeConfigChanged(
                    fee_config_of(old(self)@)->Some_0.token,
                    fee_config_of(old(self)@)->Some_0.collector,
                    fee_config_of(old(self)@)->Some_0.base_fee,
                    enabled,
                    admin_of(old(self)@)->Some_0,
                ) && final(self)@ == old(self)@.insert(
                    DataKeyView::FeeConfig,
                    StoreValueView::FeeConfig(
                        FeeConfigView { enabled, ..fee_config_of(old(self)@)->Some_0 },
                    ),
                ),
            },
    {
        let admin = match dynamic_fees::require_admin(self.store(), auth) {
            Err(e) => {
                return Err(e);
            },
            Ok(a) => a,
        };
        let mut config = match dynamic_fees::get_fee_config(self.store()) {
            None => {
                return Err(Error::NotInitialized);
            },
            Some(c) => c,
        };
        config.enabled = enabled;
        let event = Event::FeeConfigChanged(
            config.token.clone(),
            config.collector.clone(),
            config.base_fee,
            enabled,
            admin,
        );
        let mut store = self.take_store();
        proof {
            assert(crate::ledger::entry_ok(DataKeyView::FeeConfig, store@[DataKeyView::FeeConfig]));
        }
        dynamic_fees::set_fee_config(&mut store, config);
        self.put_store(store);
        Ok(event)
    }

    /// Gives `account` the roles of the mask `role`. `caller` must be an
    /// administrator and must have signed the call. Granting a role that
    /// is held changes nothing.
    pub fn grant_role(&mut self, auth: &AuthContext, caller: Address, account: Address, role: u32) -> (r:
        Result<Event, Error>)
        ensures
            !admin_call(old(self)@, auth@, caller@) ==> r is Err && r->Err_0 == Error::Unauthorized
                && final(self)@ == old(self)@,
            admin_call(old(self)@, auth@, caller@) ==> r is Ok && r->Ok_0@
                == EventView::RoleGranted(account@, role, caller@) && final(self)@ == old(
                self,
            )@.insert(
                DataKeyView::Role(account@),
                StoreValueView::Small(roles_of(old(self)@, account@) | role),
            ),
    {
        match access_control::require_admin(self.store(), auth, &caller) {
            Err(e) => {
                return Err(e);
            },
            Ok(_) => {},
        }
        let mut store = self.take_store();
        access_control::grant_role(&mut store, &account, role);
        self.put_store(store);
        Ok(Event::RoleGranted(account, role, caller))
    }

    /// Takes the roles of the mask `role` from `account`. `caller` must be
    /// an administrator and must have signed the call.
    pub fn revoke_role(&mut self, auth: &AuthContext, caller: Address, account: Address, role: u32) -> (r:
        Result<Event, Error>)
        ensures
            !admin_call(old(self)@, auth@, caller@) ==> r is Err && r->Err_0 == Error::Unauthorized
                && final(self)@ == old(self)@,
            admin_call(old(self)@, auth@, caller@) ==> r is Ok && r->Ok_0@
                == EventView::RoleRevoked(account@, role, caller@) && final(self)@ == old(
                self,
            )@.insert(
                DataKeyView::Role(account@),
                StoreValueView::Small(roles_of(old(self)@, account@) & !role),
            ),
    {
        match access_control::require_admin(self.store(), auth, &caller) {
            Err(e) => {
                return Err(e);
            },
            Ok(_) => {},
        }
        let mut store = self.take_store();
        access_control::revoke_role(&mut store, &account, role);
        self.put_store(store);
        Ok(Event::RoleRevoked(account, role, caller))
    }

    /// Whether `account` holds a role of the mask `role`.
    pub fn has_role(&self, account: &Address, role: u32) -> (r: bool)
        ensures
            r == holds_role(self@, account@, role),
    {
        access_control::has_role(self.store(), account, role)
    }

    /// The role bitmap of `account`.
    pub fn get_roles(&self, account: &Address) -> (r: u32)
        ensures
            r == roles_of(self@, account@),
    {
        access_control::get_roles(self.store(), account)
    }

    /// The principals that hold any role, each once.
    pub fn get_role_holders(&self) -> (r: Vec<Address>)
        ensures
            principals(r@).no_duplicates(),
            forall|a: Seq<char>| principals(r@).contains(a) <==> roles_of(self@, a) != 0,
    {
        access_control::get_role_holders(self.store())
    }

    /// Pauses the contract. `caller` must have signed the call and must be
    /// an administrator or an operator.
    pub fn pause(&mut self, auth: &AuthContext, caller: Address) -> (r: Result<Event, Error>)
        ensures
            !pause_call(old(self)@, auth@, caller@) ==> r is Err && r->Err_0 == Error::Unauthorized
                && final(self)@ == old(self)@,
            pause_call(old(self)@, auth@, caller@) ==> r is Ok && r->Ok_0@ == EventView::Paused(
                caller@,
            ) && final(self)@ == old(self)@.insert(
                DataKeyView::Paused,
                StoreValueView::Flag(true),
            ),
    {
        if !auth.authorizes(&caller) {
            return Err(Error::Unauthorized);
        }
        let roles: u32 = access_control::get_roles(self.store(), &caller);
        if (roles & (ROLE_ADMIN | ROLE_OPERATOR)) == 0 {
            return Err(Error::Unauthorized);
        }
        let mut store = self.take_store();
        access_control::set_paused(&mut store, true);
        self.put_store(store);
        Ok(Event::Paused(caller))
    }

    /// Lifts the pause. `caller` must be an administrator and must have
    /// signed the call.
    pub fn unpause(&mut self, auth: &AuthContext, caller: Address) -> (r: Result<Event, Error>)
        ensures
            !admin_call(old(self)@, auth@, caller@) ==> r is Err && r->Err_0 == Error::Unauthorized
                && final(self)@ == old(self)@,
            admin_call(old(self)@, auth@, caller@) ==> r is Ok && r->Ok_0@ == EventView::Unpaused(
                caller@,
            ) && final(self)@ == old(self)@.insert(
                DataKeyView::Paused,
                StoreValueView::Flag(false),
            ),
    {
        match access_control::require_admin(self.store(), auth, &caller) {
            Err(e) => {
                return Err(e);
            },
            Ok(_) => {},
        }
        let mut store = self.take_store();
        access_control::set_paused(&mut store, false);
        self.put_store(store);
        Ok(Event::Unpaused(caller))
    }

    /// Whether the contract is paused.
    pub fn is_paused(&self) -> (r: bool)
        ensures
            r == paused(self@),
    {
        access_control::is_paused(self.store())
    }

    /// The fee schedule; `None` where none was configured.
    pub fn get_fee_config(&self) -> (r: Option<FeeConfig>)
        ensures
            fee_config_view(r) == fee_config_of(self@),
    {
        dynamic_fees::get_fee_config(self.store())
    }

    /// The fee that `business` would pay for its next attestation.
    pub fn get_fee_quote(&self, business: &Address) -> (r: i128)
        ensures
            r == fee_quote(self@, business@),
    {
        dynamic_fees::calculate_fee(self.store(), business)
    }

    /// The tier of `business`: zero unless one was assigned.
    pub fn get_business_tier(&self, business: &Address) -> (r: u32)
        ensures
            r == tier_of(self@, business@),
    {
        dynamic_fees::get_business_tier(self.store(), business)
    }

    /// How many attestations of `business` were accepted; `None` where
    /// none ever was.
    pub fn get_business_count(&self, business: &Address) -> (r: Option<u64>)
        ensures
            r == count_of(self@, business@),
    {
        dynamic_fees::get_business_count(self.store(), business)
    }

    /// The administrator who set the contract up; `None` before that.
    pub fn get_admin(&self) -> (r: Option<Address>)
        ensures
            name_of(r) == admin_of(self@),
    {
        dynamic_fees::get_admin(self.store())
    }
}

} // verus!
