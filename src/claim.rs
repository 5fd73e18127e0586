use vstd::prelude::*;
use crate::mapping::{padded_account, EvmAddressMapping, Module, OnKillAccount};
use crate::signing::{ascii_hex, lemma_ascii_hex_len, recovered_address, to_ascii_hex};
use crate::types::{AccountId32, EcdsaSignature, EvmAddress};

verus! {

/// What the ledger holds of an account, as far as a claim reads or changes it.
#[derive(Clone, Copy, Debug, PartialEq, Eq, Structural)]
pub struct AccountState {
    /// Whether the account exists on the ledger.
    pub exists: bool,
    /// Whether nothing outside the balances keeps the account alive.
    pub allow_death: bool,
    /// The free balance.
    pub free: u128,
    /// The reserved balance.
    pub reserved: u128,
    /// The transaction counter.
    pub nonce: u64,
}

/// Why a claim was refused.
#[derive(Clone, Copy, Debug, PartialEq, Eq, Structural)]
pub enum Error {
    /// The address has already been claimed.
    EthAddressHasMapped,
    /// The signature recovers to no key.
    BadSignature,
    /// The signature was made by another address.
    InvalidSignature,
    /// The synthesised account is kept alive by something besides its balance.
    NonZeroRefCount,
    /// The synthesised account reserves more than the account deposit.
    StillHasActiveReserved,
    /// The claimant's free balance could not hold the merged funds.
    BalanceOverflow,
}

/// What a successful claim reports.
#[derive(Clone, Copy, Debug, PartialEq, Eq)]
pub enum Event {
    /// The account claimed the address.
    ClaimAccount(AccountId32, EvmAddress),
}

impl AccountState {
    /// The state of an account that the ledger has closed.
    pub open spec fn closed() -> AccountState {
        AccountState { exists: false, allow_death: true, free: 0, reserved: 0, nonce: 0 }
    }

    fn close() -> (r: AccountState)
        ensures
            r == AccountState::closed(),
    {
        AccountState { exists: false, allow_death: true, free: 0, reserved: 0, nonce: 0 }
    }
}

/// The bytes of a recovered address, if any.
pub open spec fn address_view(a: Option<EvmAddress>) -> Option<Seq<u8>> {
    match a {
        Some(x) => Some(x@),
        None => None,
    }
}

/// The error that a claim of `address` by an account with state `caller`
/// meets, given the address that the signature recovered to and the state of
/// the account synthesised from `address`; `None` when the claim succeeds.
pub open spec fn claim_error(
    store: Module,
    address: Seq<u8>,
    recovered: Option<Seq<u8>>,
    caller: AccountState,
    shadow: AccountState,
    deposit: u128,
) -> Option<Error> {
    if store.is_claimed(address) {
        Some(Error::EthAddressHasMapped)
    } else if recovered is None {
        Some(Error::BadSignature)
    } else if recovered != Some(address) {
        Some(Error::InvalidSignature)
    } else if shadow.exists && !shadow.allow_death {
        Some(Error::NonZeroRefCount)
    } else if shadow.exists && shadow.reserved > deposit {
        Some(Error::StillHasActiveReserved)
    } else if shadow.exists && caller.free + shadow.free + shadow.reserved > u128::MAX {
        Some(Error::BalanceOverflow)
    } else {
        None
    }
}

/// The larger of two counters.
pub open spec fn max_nonce(a: u64, b: u64) -> u64 {
    if a < b {
        b
    } else {
        a
    }
}

/// The claimant's state after a claim: it gains all the synthesised account's
/// funds, and its counter is raised to that account's, if it existed.
pub open spec fn merged_caller(caller: AccountState, shadow: AccountState) -> AccountState {
    if shadow.exists {
        AccountState {
            exists: caller.exists,
            allow_death: caller.allow_death,
            free: (caller.free + shadow.free + shadow.reserved) as u128,
            reserved: caller.reserved,
            nonce: max_nonce(caller.nonce, shadow.nonce),
        }
    } else {
        caller
    }
}

/// The state of the synthesised account after a claim: closed, if it existed.
pub open spec fn merged_shadow(shadow: AccountState) -> AccountState {
    if shadow.exists {
        AccountState::closed()
    } else {
        shadow
    }
}

/// What a claim of `address` by `who` does, given the address that the
/// signature recovered to: on success the claimant absorbs the synthesised
/// account, which is closed and loses its own pair, and `who` is mapped to
/// `address` alone; on failure nothing changes.
pub open spec fn claim_outcome(
    old_store: Module,
    new_store: Module,
    who: Seq<u8>,
    address: Seq<u8>,
    recovered: Option<Seq<u8>>,
    old_caller: AccountState,
    new_caller: AccountState,
    old_shadow: AccountState,
    new_shadow: AccountState,
    deposit: u128,
    r: Result<Event, Error>,
) -> bool {
    let err = claim_error(old_store, address, recovered, old_caller, old_shadow, deposit);
    match r {
        Err(e) => err == Some(e) && new_store@ == old_store@ && new_caller == old_caller
            && new_shadow == old_shadow,
        Ok(ev) => err is None && (ev matches Event::ClaimAccount(w, a) && w@ == who && a@
            == address) && new_caller == merged_caller(old_caller, old_shadow) && new_shadow
            == merged_shadow(old_shadow) && new_store.wf() && forall|a: Seq<u8>, w: Seq<u8>|
            new_store.maps(a, w) <==> ((old_store.maps(a, w) && w != who && !(old_shadow.exists
                && w == padded_account(address))) || (a == address && w == who)),
    }
}

impl Module {
    /// Claims `eth_address` for `who`, given the address that the claim's
    /// signature recovered to. `caller` and `shadow` are the ledger's states of
    /// `who` and of the account synthesised from `eth_address`; all checks come
    /// before any change, so a refused claim changes nothing.
    pub fn claim_with_recovered(
        &mut self,
        who: &AccountId32,
        eth_address: &EvmAddress,
        recovered: Option<EvmAddress>,
        caller: &mut AccountState,
        shadow: &mut AccountState,
        new_account_deposit: u128,
    ) -> (r: Result<Event, Error>)
        requires
            old(self).wf(),
            who@ != padded_account(eth_address@),
        ensures
            claim_outcome(
                *old(self),
                *final(self),
                who@,
                eth_address@,
                address_view(recovered),
                *old(caller),
                *final(caller),
                *old(shadow),
                *final(shadow),
                new_account_deposit,
                r,
            ),
    {
        if self.accounts(eth_address).is_some() {
            return Err(Error::EthAddressHasMapped);
        }
        let address = match recovered {
            Some(a) => a,
            None => {
                return Err(Error::BadSignature);
            },
        };
        if !address.same_as(eth_address) {
            return Err(Error::InvalidSignature);
        }
        let account_id = EvmAddressMapping::into_account_id(self, eth_address);
        let mut nonce: u64 = 0;
        if shadow.exists {
            if !shadow.allow_death {
                return Err(Error::NonZeroRefCount);
            }
            let total_reserved = shadow.reserved;
            if total_reserved > new_account_deposit {
                return Err(Error::StillHasActiveReserved);
            }
            if shadow.free > u128::MAX - total_reserved || caller.free > u128::MAX - (shadow.free
                + total_reserved) {
                return Err(Error::BalanceOverflow);
            }
            if total_reserved > 0 {
                shadow.free = shadow.free + total_reserved;
                shadow.reserved = 0;
            }
            let free_balance = shadow.free;
            if free_balance > 0 {
                shadow.free = 0;
                caller.free = caller.free + free_balance;
            }
            nonce = shadow.nonce;
            *shadow = AccountState::close();
            OnKillAccount::happened(self, &account_id);
        }
        if caller.nonce < nonce {
            caller.nonce = nonce;
        }
        self.insert(eth_address, who);
        Ok(Event::ClaimAccount(*who, *eth_address))
    }

    /// Claims `eth_address` for `who`, proved by `eth_signature`: a signature
    /// by the address's key over `who` in lowercase hex.
    pub fn claim_account(
        &mut self,
        who: &AccountId32,
        eth_address: &EvmAddress,
        eth_signature: &EcdsaSignature,
        caller: &mut AccountState,
        shadow: &mut AccountState,
        new_account_deposit: u128,
    ) -> (r: Result<Event, Error>)
        requires
            old(self).wf(),
            who@ != padded_account(eth_address@),
        ensures
            claim_outcome(
                *old(self),
                *final(self),
                who@,
                eth_address@,
                recovered_address(eth_signature@, ascii_hex(who@), seq![]),
                *old(caller),
                *final(caller),
                *old(shadow),
                *final(shadow),
                new_account_deposit,
                r,
            ),
    {
        let payload = to_ascii_hex(&who.0);
        proof { lemma_ascii_hex_len(who@); }
        let extra: Vec<u8> = Vec::new();
        let recovered = Self::eth_recover(eth_signature, payload.as_slice(), extra.as_slice());
        proof { assert(extra@ == Seq::<u8>::empty()); }
        self.claim_with_recovered(who, eth_address, recovered, caller, shadow, new_account_deposit)
    }
}

/// Every claim, refused or not, leaves a well-formed store well-formed, so
/// after any sequence of claims no two pairs share an address or an account.
pub proof fn lemma_claim_keeps_bijection(
    old_store: Module,
    new_store: Module,
    who: Seq<u8>,
    address: Seq<u8>,
    recovered: Option<Seq<u8>>,
    old_caller: AccountState,
    new_caller: AccountState,
    old_shadow: AccountState,
    new_shadow: AccountState,
    deposit: u128,
    r: Result<Event, Error>,
)
    requires
        old_store.wf(),
        claim_outcome(old_store, new_store, who, address, recovered, old_caller, new_caller,
            old_shadow, new_shadow, deposit, r),
    ensures
        new_store.wf(),
        forall|a: Seq<u8>, w1: Seq<u8>, w2: Seq<u8>|
            new_store.maps(a, w1) && new_store.maps(a, w2) ==> w1 == w2,
        forall|a1: Seq<u8>, a2: Seq<u8>, w: Seq<u8>|
            new_store.maps(a1, w) && new_store.maps(a2, w) ==> a1 == a2,
{
    crate::mapping::lemma_store_is_bijective(new_store);
}

/// A claim refused because the synthesised account reserves too much leaves
/// both accounts' balances and counters, and the store, as they were.
pub proof fn lemma_refused_claim_changes_nothing(
    old_store: Module,
    new_store: Module,
    who: Seq<u8>,
    address: Seq<u8>,
    recovered: Option<Seq<u8>>,
    old_caller: AccountState,
    new_caller: AccountState,
    old_shadow: AccountState,
    new_shadow: AccountState,
    deposit: u128,
)
    requires
        claim_outcome(old_store, new_store, who, address, recovered, old_caller, new_caller,
            old_shadow, new_shadow, deposit, Err(Error::StillHasActiveReserved)),
    ensures
        new_caller == old_caller,
        new_shadow == old_shadow,
        new_store@ == old_store@,
        forall|a: Seq<u8>, w: Seq<u8>| new_store.maps(a, w) <==> old_store.maps(a, w),
{
}

/// A successful claim that merges a synthesised account with free balance `F`
/// and nothing reserved into a claimant with free balance `C` leaves the
/// claimant with `C + F`, closes the synthesised account, and raises the
/// claimant's counter to the larger of the two.
pub proof fn lemma_merge_moves_funds(
    old_store: Module,
    new_store: Module,
    who: Seq<u8>,
    address: Seq<u8>,
    recovered: Option<Seq<u8>>,
    old_caller: AccountState,
    new_caller: AccountState,
    old_shadow: AccountState,
    new_shadow: AccountState,
    deposit: u128,
    ev: Event,
)
    requires
        old_shadow.exists,
        old_shadow.reserved == 0,
        claim_outcome(old_store, new_store, who, address, recovered, old_caller, new_caller,
            old_shadow, new_shadow, deposit, Ok(ev)),
    ensures
        new_caller.free == old_caller.free + old_shadow.free,
        new_shadow == AccountState::closed(),
        new_caller.nonce == max_nonce(old_caller.nonce, old_shadow.nonce),
{
}

/// A claimant that held address `a` and then claims `b` is left mapped to
/// `b` alone: `a` is no longer claimed by anybody.
pub proof fn lemma_reclaim_replaces(
    old_store: Module,
    new_store: Module,
    who: Seq<u8>,
    a: Seq<u8>,
    b: Seq<u8>,
    recovered: Option<Seq<u8>>,
    old_caller: AccountState,
    new_caller: AccountState,
    old_shadow: AccountState,
    new_shadow: AccountState,
    deposit: u128,
    ev: Event,
)
    requires
        old_store.wf(),
        old_store.maps(a, who),
        claim_outcome(old_store, new_store, who, b, recovered, old_caller, new_caller,
            old_shadow, new_shadow, deposit, Ok(ev)),
    ensures
        !new_store.is_claimed(a),
        new_store.maps(b, who),
        forall|x: Seq<u8>| new_store.maps(x, who) ==> x == b,
{
    crate::mapping::lemma_store_is_bijective(old_store);
    assert(a != b);
    assert forall|w: Seq<u8>| !new_store.maps(a, w) by {
        if new_store.maps(a, w) {
            assert(old_store.maps(a, w) && w != who);
        }
    }
}

} // verus!
