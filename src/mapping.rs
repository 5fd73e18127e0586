use vstd::prelude::*;
use crate::types::{AccountId32, EvmAddress};

verus! {

/// The account-mapping module's storage: the claimed pairs of an EVM address
/// and a native account, each address and each account in at most one pair.
pub struct Module {
    pairs: Vec<(EvmAddress, AccountId32)>,
}

/// Whether no two pairs share an address or an account.
pub open spec fn bijective(s: Seq<(Seq<u8>, Seq<u8>)>) -> bool {
    forall|i: int, j: int|
        0 <= i < s.len() && 0 <= j < s.len() && i != j ==> s[i].0 != s[j].0 && s[i].1 != s[j].1
}

impl View for Module {
    type V = Seq<(Seq<u8>, Seq<u8>)>;

    closed spec fn view(&self) -> Seq<(Seq<u8>, Seq<u8>)> {
        self.pairs@.map_values(|p: (EvmAddress, AccountId32)| (p.0@, p.1@))
    }
}

/// Removing one pair of a bijection drops exactly that pair and keeps the
/// bijection.
proof fn lemma_remove_pair(s: Seq<(Seq<u8>, Seq<u8>)>, i: int)
    requires
        bijective(s),
        0 <= i < s.len(),
    ensures
        bijective(s.remove(i)),
        forall|p: (Seq<u8>, Seq<u8>)| s.remove(i).contains(p) <==> (s.contains(p) && p != s[i]),
{
    let r = s.remove(i);
    s.remove_ensures(i);
    assert forall|p: (Seq<u8>, Seq<u8>)| r.contains(p) <==> (s.contains(p) && p != s[i]) by {
        if r.contains(p) {
            let k = choose|k: int| 0 <= k < r.len() && r[k] == p;
            let j = if k < i { k } else { k + 1 };
            assert(s[j] == p);
            assert(j != i);
        }
        if s.contains(p) && p != s[i] {
            let k = choose|k: int| 0 <= k < s.len() && s[k] == p;
            assert(k != i);
            let j = if k < i { k } else { k - 1 };
            assert(r[j] == p);
        }
    }
    assert forall|a: int, b: int| 0 <= a < r.len() && 0 <= b < r.len() && a != b implies r[a].0
        != r[b].0 && r[a].1 != r[b].1 by {
        let x = if a < i { a } else { a + 1 };
        let y = if b < i { b } else { b + 1 };
        assert(r[a] == s[x]);
        assert(r[b] == s[y]);
    }
}

/// In a bijection a pair is fixed by its address, and by its account.
proof fn lemma_pair_unique(s: Seq<(Seq<u8>, Seq<u8>)>, i: int, p: (Seq<u8>, Seq<u8>))
    requires
        bijective(s),
        0 <= i < s.len(),
        s.contains(p),
        p.0 == s[i].0 || p.1 == s[i].1,
    ensures
        p == s[i],
{
    let k = choose|k: int| 0 <= k < s.len() && s[k] == p;
    assert(k == i);
}

/// The account synthesised for an address that nobody has claimed: the tag
/// `evm:`, the twenty address bytes, then zeros up to thirty-two bytes.
pub open spec fn padded_account(address: Seq<u8>) -> Seq<u8> {
    seq![101u8, 118, 109, 58] + address + Seq::new(8, |i: int| 0u8)
}

impl Module {
    /// The store's invariant: the pairs form a bijection.
    pub open spec fn wf(&self) -> bool {
        bijective(self@)
    }

    /// Whether `address` is mapped to `account`.
    pub open spec fn maps(&self, address: Seq<u8>, account: Seq<u8>) -> bool {
        self@.contains((address, account))
    }

    /// Whether `address` has been claimed by some account.
    pub open spec fn is_claimed(&self, address: Seq<u8>) -> bool {
        exists|account: Seq<u8>| self.maps(address, account)
    }

    /// Whether `account` has claimed some address.
    pub open spec fn has_address(&self, account: Seq<u8>) -> bool {
        exists|address: Seq<u8>| self.maps(address, account)
    }

    /// An empty store.
    pub fn new() -> (r: Module)
        ensures
            r.wf(),
            forall|a: Seq<u8>, w: Seq<u8>| !r.maps(a, w),
    {
        let r = Module { pairs: Vec::new() };
        assert(r@ == Seq::<(Seq<u8>, Seq<u8>)>::empty());
        r
    }

    proof fn lemma_view_index(&self, i: int)
        requires
            0 <= i < self.pairs@.len(),
        ensures
            self@.len() == self.pairs@.len(),
            self@[i] == (self.pairs@[i].0@, self.pairs@[i].1@),
    {
    }

    fn find_address(&self, address: &EvmAddress) -> (r: Option<usize>)
        ensures
            r matches Some(i) ==> i < self@.len() && self@[i as int].0 == address@,
            r is None ==> forall|i: int| 0 <= i < self@.len() ==> self@[i].0 != address@,
    {
        let mut i: usize = 0;
        while i < self.pairs.len()
            invariant
                0 <= i <= self@.len(),
                self@.len() == self.pairs@.len(),
                forall|k: int| 0 <= k < i ==> self@[k].0 != address@,
            decreases self.pairs@.len() - i,
        {
            proof { self.lemma_view_index(i as int); }
            if self.pairs[i].0.same_as(address) {
                return Some(i);
            }
            i = i + 1;
        }
        None
    }

    fn find_account(&self, account: &AccountId32) -> (r: Option<usize>)
        ensures
            r matches Some(i) ==> i < self@.len() && self@[i as int].1 == account@,
            r is None ==> forall|i: int| 0 <= i < self@.len() ==> self@[i].1 != account@,
    {
        let mut i: usize = 0;
        while i < self.pairs.len()
            invariant
                0 <= i <= self@.len(),
                self@.len() == self.pairs@.len(),
                forall|k: int| 0 <= k < i ==> self@[k].1 != account@,
            decreases self.pairs@.len() - i,
        {
            proof { self.lemma_view_index(i as int); }
            if self.pairs[i].1.same_as(account) {
                return Some(i);
            }
            i = i + 1;
        }
        None
    }

    /// The account that has claimed `address`, if any.
    pub fn accounts(&self, address: &EvmAddress) -> (r: Option<AccountId32>)
        requires
            self.wf(),
        ensures
            r is None <==> !self.is_claimed(address@),
            r matches Some(w) ==> self.maps(address@, w@),
    {
        match self.find_address(address) {
            Some(i) => {
                proof {
                    self.lemma_view_index(i as int);
                    assert(self@[i as int] == (address@, self@[i as int].1));
                    assert(self.maps(address@, self@[i as int].1));
                }
                Some(self.pairs[i].1)
            },
            None => {
                assert forall|w: Seq<u8>| !self.maps(address@, w) by {
                    if self.maps(address@, w) {
                        let k = choose|k: int| 0 <= k < self@.len() && self@[k] == (address@, w);
                        assert(self@[k].0 == address@);
                    }
                }
                None
            },
        }
    }

    /// The address that `account` has claimed, if any.
    pub fn evm_addresses(&self, account: &AccountId32) -> (r: Option<EvmAddress>)
        requires
            self.wf(),
        ensures
            r is None <==> !self.has_address(account@),
            r matches Some(a) ==> self.maps(a@, account@),
    {
        match self.find_account(account) {
            Some(i) => {
                proof {
                    self.lemma_view_index(i as int);
                    assert(self@[i as int] == (self@[i as int].0, account@));
                    assert(self.maps(self@[i as int].0, account@));
                }
                Some(self.pairs[i].0)
            },
            None => {
                assert forall|a: Seq<u8>| !self.maps(a, account@) by {
                    if self.maps(a, account@) {
                        let k = choose|k: int| 0 <= k < self@.len() && self@[k] == (a, account@);
                        assert(self@[k].1 == account@);
                    }
                }
                None
            },
        }
    }


    proof fn lemma_view_remove(&self, old_pairs: Seq<(EvmAddress, AccountId32)>, i: int)
        requires
            0 <= i < old_pairs.len(),
            self.pairs@ == old_pairs.remove(i),
        ensures
            self@ == old_pairs.map_values(|p: (EvmAddress, AccountId32)| (p.0@, p.1@)).remove(i),
    {
        let m = old_pairs.map_values(|p: (EvmAddress, AccountId32)| (p.0@, p.1@));
        old_pairs.remove_ensures(i);
        m.remove_ensures(i);
        assert(self@ =~= m.remove(i));
    }

    fn remove_at(&mut self, i: usize)
        requires
            old(self).wf(),
            i < old(self)@.len(),
        ensures
            final(self).wf(),
            forall|p: (Seq<u8>, Seq<u8>)|
                final(self)@.contains(p) <==> (old(self)@.contains(p) && p != old(self)@[i as int]),
    {
        let ghost old_pairs = self.pairs@;
        proof { self.lemma_view_index(i as int); }
        self.pairs.remove(i);
        proof {
            self.lemma_view_remove(old_pairs, i as int);
            lemma_remove_pair(old(self)@, i as int);
        }
    }

    /// Removes the pair that holds `address`, if any.
    pub fn remove_by_address(&mut self, address: &EvmAddress)
        requires
            old(self).wf(),
        ensures
            final(self).wf(),
            forall|a: Seq<u8>, w: Seq<u8>|
                final(self).maps(a, w) <==> (old(self).maps(a, w) && a != address@),
    {
        if let Some(i) = self.find_address(address) {
            let ghost s = self@;
            self.remove_at(i);
            proof {
                assert forall|a: Seq<u8>, w: Seq<u8>| s.contains((a, w)) && a == address@ implies (a,
                    w) == s[i as int] by {
                    lemma_pair_unique(s, i as int, (a, w));
                }
            }
        }
    }

    /// Removes the pair that holds `account`, if any.
    pub fn remove_by_account(&mut self, account: &AccountId32)
        requires
            old(self).wf(),
        ensures
            final(self).wf(),
            forall|a: Seq<u8>, w: Seq<u8>|
                final(self).maps(a, w) <==> (old(self).maps(a, w) && w != account@),
    {
        if let Some(i) = self.find_account(account) {
            let ghost s = self@;
            self.remove_at(i);
            proof {
                assert forall|a: Seq<u8>, w: Seq<u8>| s.contains((a, w)) && w == account@ implies (a,
                    w) == s[i as int] by {
                    lemma_pair_unique(s, i as int, (a, w));
                }
            }
        }
    }

    /// Maps `address` to `account`, first dropping any pair that holds either.
    pub fn insert(&mut self, address: &EvmAddress, account: &AccountId32)
        requires
            old(self).wf(),
        ensures
            final(self).wf(),
            forall|a: Seq<u8>, w: Seq<u8>|
                final(self).maps(a, w) <==> ((old(self).maps(a, w) && a != address@ && w
                    != account@) || (a == address@ && w == account@)),
    {
        self.remove_by_account(account);
        let ghost mid = *self;
        self.remove_by_address(address);
        let ghost before = *self;
        let ghost s = self@;
        let ghost old_pairs = self.pairs@;
        self.pairs.push((*address, *account));
        proof {
            let p = (address@, account@);
            assert(self@ =~= s.push(p));
            assert forall|k: int| 0 <= k < s.len() implies s[k].0 != p.0 && s[k].1 != p.1 by {
                assert(s.contains(s[k]));
                assert(before.maps(s[k].0, s[k].1));
                assert(mid.maps(s[k].0, s[k].1));
            }
            assert forall|x: (Seq<u8>, Seq<u8>)| self@.contains(x) <==> (s.contains(x) || x == p) by {
                if self@.contains(x) {
                    let k = choose|k: int| 0 <= k < self@.len() && self@[k] == x;
                    if k < s.len() {
                        assert(s[k] == x);
                    }
                }
                if s.contains(x) {
                    let k = choose|k: int| 0 <= k < s.len() && s[k] == x;
                    assert(self@[k] == x);
                }
                if x == p {
                    assert(self@[s.len() as int] == x);
                }
            }
            assert forall|a: Seq<u8>, w: Seq<u8>| self.maps(a, w) <==> ((old(self).maps(a, w) && a
                != address@ && w != account@) || (a == address@ && w == account@)) by {
                assert(self.maps(a, w) <==> (before.maps(a, w) || (a, w) == p));
                assert(before.maps(a, w) <==> (mid.maps(a, w) && a != address@));
                assert(mid.maps(a, w) <==> (old(self).maps(a, w) && w != account@));
            }
        }
    }

    /// Forgets the pair of an account that the ledger has closed; whatever
    /// balance it still held is gone with it.
    pub fn on_killed_account(&mut self, who: &AccountId32)
        requires
            old(self).wf(),
        ensures
            final(self).wf(),
            forall|a: Seq<u8>, w: Seq<u8>|
                final(self).maps(a, w) <==> (old(self).maps(a, w) && w != who@),
    {
        self.remove_by_account(who);
    }
}

/// Whether `account` is the one that acts for `address`: the account that
/// claimed it, or else the one synthesised from it.
pub open spec fn derives(store: Module, address: Seq<u8>, account: Seq<u8>) -> bool {
    if store.is_claimed(address) {
        store.maps(address, account)
    } else {
        account == padded_account(address)
    }
}

/// Deriving the account of an address is a function of the store and the
/// address: two results for one store and one address are equal.
pub proof fn lemma_derivation_is_pure(store: Module, address: Seq<u8>, r1: Seq<u8>, r2: Seq<u8>)
    requires
        store.wf(),
        derives(store, address, r1),
        derives(store, address, r2),
    ensures
        r1 == r2,
{
    if store.is_claimed(address) {
        lemma_store_is_bijective(store);
    }
}

/// In a well-formed store an address maps to at most one account and an
/// account to at most one address.
pub proof fn lemma_store_is_bijective(store: Module)
    requires
        store.wf(),
    ensures
        forall|a: Seq<u8>, w1: Seq<u8>, w2: Seq<u8>|
            store.maps(a, w1) && store.maps(a, w2) ==> w1 == w2,
        forall|a1: Seq<u8>, a2: Seq<u8>, w: Seq<u8>|
            store.maps(a1, w) && store.maps(a2, w) ==> a1 == a2,
{
    let s = store@;
    assert forall|a: Seq<u8>, w1: Seq<u8>, w2: Seq<u8>|
        store.maps(a, w1) && store.maps(a, w2) implies w1 == w2 by {
        let i = choose|i: int| 0 <= i < s.len() && s[i] == (a, w1);
        lemma_pair_unique(s, i, (a, w2));
    }
    assert forall|a1: Seq<u8>, a2: Seq<u8>, w: Seq<u8>|
        store.maps(a1, w) && store.maps(a2, w) implies a1 == a2 by {
        let i = choose|i: int| 0 <= i < s.len() && s[i] == (a1, w);
        lemma_pair_unique(s, i, (a2, w));
    }
}

/// Resolves an EVM address to the native account that acts for it.
pub struct EvmAddressMapping {}

impl EvmAddressMapping {
    /// The account that claimed `address`, or else the account synthesised
    /// from it.
    pub fn into_account_id(store: &Module, address: &EvmAddress) -> (r: AccountId32)
        requires
            store.wf(),
        ensures
            derives(*store, address@, r@),
    {
        match store.accounts(address) {
            Some(account) => account,
            None => {
                let mut data = [0u8; 32];
                data[0] = 101;
                data[1] = 118;
                data[2] = 109;
                data[3] = 58;
                let mut i: usize = 0;
                while i < 20
                    invariant
                        0 <= i <= 20,
                        data@.len() == 32,
                        data@.subrange(0, 4) == seq![101u8, 118, 109, 58],
                        forall|k: int| 0 <= k < i ==> data@[k + 4] == address@[k],
                        forall|k: int| 24 <= k < 32 ==> data@[k] == 0,
                    decreases 20 - i,
                {
                    data[i + 4] = address.0[i];
                    i = i + 1;
                }
                assert(data@ =~= padded_account(address@));
                AccountId32(data)
            },
        }
    }
}

/// Resolves a native account to the EVM address it has claimed.
pub struct EvmAccountMapping {}

impl EvmAccountMapping {
    /// The address that `account` claimed, or the zero address.
    pub fn into_h160(store: &Module, account: &AccountId32) -> (r: EvmAddress)
        requires
            store.wf(),
        ensures
            store.has_address(account@) ==> store.maps(r@, account@),
            !store.has_address(account@) ==> r@ == Seq::new(20, |i: int| 0u8),
    {
        match store.evm_addresses(account) {
            Some(address) => address,
            None => {
                let r = EvmAddress([0u8; 20]);
                assert(r@ =~= Seq::new(20, |i: int| 0u8));
                r
            },
        }
    }
}

/// The hook that the ledger calls when it closes an account.
pub struct OnKillAccount {}

impl OnKillAccount {
    /// Drops the mapping of the closed account `who`.
    pub fn happened(store: &mut Module, who: &AccountId32)
        requires
            old(store).wf(),
        ensures
            final(store).wf(),
            forall|a: Seq<u8>, w: Seq<u8>|
                final(store).maps(a, w) <==> (old(store).maps(a, w) && w != who@),
    {
        store.on_killed_account(who);
    }
}

} // verus!
