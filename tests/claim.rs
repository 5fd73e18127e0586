use evm_accounts::{
    to_ascii_hex, AccountId32, AccountState, EcdsaSignature, Error, Event, EvmAccountMapping,
    EvmAddress, EvmAddressMapping, Module, OnKillAccount,
};

const DEPOSIT: u128 = 100;

fn sign_for(secret: &[u8; 32], who: &AccountId32) -> EcdsaSignature {
    Module::eth_sign(secret, &who.0, &[]).unwrap()
}

fn address_of(secret: &[u8; 32]) -> EvmAddress {
    Module::eth_address(secret).unwrap()
}

fn padded(address: &EvmAddress) -> AccountId32 {
    let mut data = [0u8; 32];
    data[0..4].copy_from_slice(b"evm:");
    data[4..24].copy_from_slice(&address.0);
    AccountId32(data)
}

fn live(free: u128, reserved: u128, nonce: u64) -> AccountState {
    AccountState { exists: true, allow_death: true, free, reserved, nonce }
}

fn absent() -> AccountState {
    AccountState { exists: false, allow_death: true, free: 0, reserved: 0, nonce: 0 }
}

#[test]
fn claim_without_shadow_account() {
    let mut store = Module::new();
    let who = AccountId32([1u8; 32]);
    let secret = [11u8; 32];
    let addr = address_of(&secret);
    let sig = sign_for(&secret, &who);
    let mut caller = live(50, 0, 3);
    let mut shadow = absent();
    let r = store.claim_account(&who, &addr, &sig, &mut caller, &mut shadow, DEPOSIT);
    assert_eq!(r, Ok(Event::ClaimAccount(who, addr)));
    assert_eq!(caller, live(50, 0, 3));
    assert_eq!(shadow, absent());
    assert_eq!(store.accounts(&addr), Some(who));
    assert_eq!(store.evm_addresses(&who), Some(addr));
    assert_eq!(EvmAddressMapping::into_account_id(&store, &addr), who);
    assert_eq!(EvmAccountMapping::into_h160(&store, &who), addr);
}

#[test]
fn claim_merges_shadow_account() {
    let mut store = Module::new();
    let who = AccountId32([2u8; 32]);
    let secret = [12u8; 32];
    let addr = address_of(&secret);
    let sig = sign_for(&secret, &who);
    let mut caller = live(1000, 5, 4);
    let mut shadow = live(300, 0, 9);
    let r = store.claim_account(&who, &addr, &sig, &mut caller, &mut shadow, DEPOSIT);
    assert!(r.is_ok());
    assert_eq!(caller, live(1300, 5, 9));
    assert_eq!(shadow, absent());
}

#[test]
fn claim_unreserves_deposit_and_keeps_higher_nonce() {
    let mut store = Module::new();
    let who = AccountId32([3u8; 32]);
    let secret = [13u8; 32];
    let addr = address_of(&secret);
    let sig = sign_for(&secret, &who);
    let mut caller = live(10, 0, 20);
    let mut shadow = live(40, DEPOSIT, 2);
    let r = store.claim_account(&who, &addr, &sig, &mut caller, &mut shadow, DEPOSIT);
    assert!(r.is_ok());
    assert_eq!(caller, live(150, 0, 20));
    assert_eq!(shadow, absent());
}

#[test]
fn claim_refused_when_reserved_exceeds_deposit() {
    let mut store = Module::new();
    let who = AccountId32([4u8; 32]);
    let secret = [14u8; 32];
    let addr = address_of(&secret);
    let sig = sign_for(&secret, &who);
    let mut caller = live(10, 0, 1);
    let mut shadow = live(40, 2 * DEPOSIT, 7);
    let r = store.claim_account(&who, &addr, &sig, &mut caller, &mut shadow, DEPOSIT);
    assert_eq!(r, Err(Error::StillHasActiveReserved));
    assert_eq!(caller, live(10, 0, 1));
    assert_eq!(shadow, live(40, 2 * DEPOSIT, 7));
    assert_eq!(store.accounts(&addr), None);
    assert_eq!(store.evm_addresses(&who), None);
}

#[test]
fn claim_refused_when_shadow_is_referenced() {
    let mut store = Module::new();
    let who = AccountId32([5u8; 32]);
    let secret = [15u8; 32];
    let addr = address_of(&secret);
    let sig = sign_for(&secret, &who);
    let mut caller = live(10, 0, 1);
    let mut shadow = AccountState { exists: true, allow_death: false, free: 5, reserved: 0, nonce: 0 };
    let before = shadow;
    let r = store.claim_account(&who, &addr, &sig, &mut caller, &mut shadow, DEPOSIT);
    assert_eq!(r, Err(Error::NonZeroRefCount));
    assert_eq!(shadow, before);
    assert_eq!(store.accounts(&addr), None);
}

#[test]
fn claim_refused_on_overflow() {
    let mut store = Module::new();
    let who = AccountId32([6u8; 32]);
    let secret = [16u8; 32];
    let addr = address_of(&secret);
    let sig = sign_for(&secret, &who);
    let mut caller = live(u128::MAX, 0, 1);
    let mut shadow = live(1, 0, 0);
    let r = store.claim_account(&who, &addr, &sig, &mut caller, &mut shadow, DEPOSIT);
    assert_eq!(r, Err(Error::BalanceOverflow));
    assert_eq!(caller, live(u128::MAX, 0, 1));
}

#[test]
fn claim_refused_for_claimed_address() {
    let mut store = Module::new();
    let who = AccountId32([7u8; 32]);
    let other = AccountId32([8u8; 32]);
    let secret = [17u8; 32];
    let addr = address_of(&secret);
    let r = store.claim_account(&who, &addr, &sign_for(&secret, &who), &mut live(0, 0, 0), &mut absent(), DEPOSIT);
    assert!(r.is_ok());
    let r = store.claim_account(&other, &addr, &sign_for(&secret, &other), &mut live(0, 0, 0), &mut absent(), DEPOSIT);
    assert_eq!(r, Err(Error::EthAddressHasMapped));
    assert_eq!(store.accounts(&addr), Some(who));
}

#[test]
fn claim_refused_for_signature_of_other_account() {
    let mut store = Module::new();
    let who = AccountId32([9u8; 32]);
    let other = AccountId32([10u8; 32]);
    let secret = [18u8; 32];
    let addr = address_of(&secret);
    let r = store.claim_account(&who, &addr, &sign_for(&secret, &other), &mut live(0, 0, 0), &mut absent(), DEPOSIT);
    assert_eq!(r, Err(Error::InvalidSignature));
    assert_eq!(store.accounts(&addr), None);
}

#[test]
fn claim_refused_for_bad_signature() {
    let mut store = Module::new();
    let who = AccountId32([19u8; 32]);
    let addr = address_of(&[19u8; 32]);
    let r = store.claim_account(&who, &addr, &EcdsaSignature([0u8; 65]), &mut live(0, 0, 0), &mut absent(), DEPOSIT);
    assert_eq!(r, Err(Error::BadSignature));
}

#[test]
fn claim_with_recovered_decides_on_the_recovered_address() {
    let mut store = Module::new();
    let who = AccountId32([20u8; 32]);
    let addr = EvmAddress([3u8; 20]);
    let other = EvmAddress([4u8; 20]);
    let mut caller = live(0, 0, 0);
    let mut shadow = absent();
    assert_eq!(
        store.claim_with_recovered(&who, &addr, None, &mut caller, &mut shadow, DEPOSIT),
        Err(Error::BadSignature)
    );
    assert_eq!(
        store.claim_with_recovered(&who, &addr, Some(other), &mut caller, &mut shadow, DEPOSIT),
        Err(Error::InvalidSignature)
    );
    assert_eq!(
        store.claim_with_recovered(&who, &addr, Some(addr), &mut caller, &mut shadow, DEPOSIT),
        Ok(Event::ClaimAccount(who, addr))
    );
}

#[test]
fn reclaim_replaces_previous_address() {
    let mut store = Module::new();
    let who = AccountId32([21u8; 32]);
    let secret_a = [22u8; 32];
    let secret_b = [23u8; 32];
    let a = address_of(&secret_a);
    let b = address_of(&secret_b);
    assert!(store.claim_account(&who, &a, &sign_for(&secret_a, &who), &mut live(0, 0, 0), &mut absent(), DEPOSIT).is_ok());
    assert!(store.claim_account(&who, &b, &sign_for(&secret_b, &who), &mut live(0, 0, 0), &mut absent(), DEPOSIT).is_ok());
    assert_eq!(store.accounts(&a), None);
    assert_eq!(store.accounts(&b), Some(who));
    assert_eq!(store.evm_addresses(&who), Some(b));
}

#[test]
fn unclaimed_address_derives_padded_account() {
    let store = Module::new();
    let addr = EvmAddress([0xabu8; 20]);
    let id = EvmAddressMapping::into_account_id(&store, &addr);
    assert_eq!(id, padded(&addr));
    assert_eq!(&id.0[0..4], b"evm:");
    assert_eq!(&id.0[24..32], &[0u8; 8]);
    assert_eq!(EvmAddressMapping::into_account_id(&store, &addr), id);
}

#[test]
fn unmapped_account_gives_zero_address() {
    let store = Module::new();
    assert_eq!(EvmAccountMapping::into_h160(&store, &AccountId32([1u8; 32])), EvmAddress([0u8; 20]));
}

#[test]
fn killed_account_loses_its_mapping() {
    let mut store = Module::new();
    let who = AccountId32([24u8; 32]);
    let addr = EvmAddress([5u8; 20]);
    store.insert(&addr, &who);
    assert_eq!(store.accounts(&addr), Some(who));
    OnKillAccount::happened(&mut store, &who);
    assert_eq!(store.accounts(&addr), None);
    assert_eq!(store.evm_addresses(&who), None);
    store.insert(&addr, &who);
    store.on_killed_account(&AccountId32([25u8; 32]));
    assert_eq!(store.accounts(&addr), Some(who));
}

#[test]
fn merge_closes_mapped_shadow_account() {
    let mut store = Module::new();
    let who = AccountId32([26u8; 32]);
    let secret = [27u8; 32];
    let addr = address_of(&secret);
    let shadow_id = padded(&addr);
    let stray = EvmAddress([6u8; 20]);
    store.insert(&stray, &shadow_id);
    let mut caller = live(1, 0, 0);
    let mut shadow = live(2, 0, 0);
    let r = store.claim_account(&who, &addr, &sign_for(&secret, &who), &mut caller, &mut shadow, DEPOSIT);
    assert!(r.is_ok());
    assert_eq!(store.accounts(&stray), None);
    assert_eq!(caller.free, 3);
}

#[test]
fn insert_and_remove_keep_pairs_unique() {
    let mut store = Module::new();
    let w1 = AccountId32([30u8; 32]);
    let w2 = AccountId32([31u8; 32]);
    let a1 = EvmAddress([1u8; 20]);
    let a2 = EvmAddress([2u8; 20]);
    store.insert(&a1, &w1);
    store.insert(&a1, &w2);
    assert_eq!(store.accounts(&a1), Some(w2));
    assert_eq!(store.evm_addresses(&w1), None);
    store.insert(&a2, &w2);
    assert_eq!(store.accounts(&a1), None);
    assert_eq!(store.evm_addresses(&w2), Some(a2));
    store.remove_by_address(&a2);
    assert_eq!(store.evm_addresses(&w2), None);
    store.insert(&a1, &w1);
    store.remove_by_account(&w1);
    assert_eq!(store.accounts(&a1), None);
}
