//! The ledger state and its operations.
//!
//! A [`Contract`] value holds the whole state: the account registry
//! (per-account creation lists, in registration order), and the
//! earnings ledger (per-account accrued balances).  The set of creators
//! is exactly the registry's key set, enumerated in registration order.
//!
//! Each operation is one atomic call: it either completes all its
//! updates or fails with a [`LedgerError`] and leaves the state
//! untouched.

use vstd::prelude::*;

use crate::items::Creations;
use crate::items::LedgerError;
use crate::items::Nft;
use crate::items::Payout;
use crate::items::listed;
use crate::items::sold;

verus! {

/// One registry entry: an account and the creations it owns.
#[derive(Debug)]
pub struct RegEntry {
    pub account: String,
    pub creations: Creations,
}

/// One earnings-ledger entry: an account and its accrued balance, in
/// the ledger's abstract price unit.
#[derive(Debug)]
pub struct EarnEntry {
    pub account: String,
    pub amount: u64,
}

/// Minimal units of native value per one abstract price unit: a
/// withdrawal of balance `b` requests a payout of `b * UNIT_SCALE`.
pub const UNIT_SCALE: u128 = 1_000_000_000_000_000_000_000_000;

/// The registry holds an entry for account `a`.
pub open spec fn reg_has(s: Seq<RegEntry>, a: Seq<char>) -> bool {
    exists|i: int| 0 <= i < s.len() && #[trigger] s[i].account@ == a
}

/// The position of account `a`'s registry entry.
pub open spec fn reg_idx(s: Seq<RegEntry>, a: Seq<char>) -> int {
    choose|i: int| 0 <= i < s.len() && #[trigger] s[i].account@ == a
}

/// Account `a`'s creation list.
pub open spec fn reg_list(s: Seq<RegEntry>, a: Seq<char>) -> Seq<Nft> {
    s[reg_idx(s, a)].creations.nfts@
}

/// The earnings ledger holds an entry for account `a`.
pub open spec fn earn_has(s: Seq<EarnEntry>, a: Seq<char>) -> bool {
    exists|i: int| 0 <= i < s.len() && #[trigger] s[i].account@ == a
}

/// The position of account `a`'s earnings entry.
pub open spec fn earn_idx(s: Seq<EarnEntry>, a: Seq<char>) -> int {
    choose|i: int| 0 <= i < s.len() && #[trigger] s[i].account@ == a
}

/// Account `a`'s accrued balance.
pub open spec fn earn_val(s: Seq<EarnEntry>, a: Seq<char>) -> u64 {
    s[earn_idx(s, a)].amount
}

/// No two registry entries share an account.
pub open spec fn reg_keys_distinct(s: Seq<RegEntry>) -> bool {
    forall|i: int, j: int|
        0 <= i < j < s.len() ==> #[trigger] s[i].account@ != #[trigger] s[j].account@
}

/// No two earnings entries share an account.
pub open spec fn earn_keys_distinct(s: Seq<EarnEntry>) -> bool {
    forall|i: int, j: int|
        0 <= i < j < s.len() ==> #[trigger] s[i].account@ != #[trigger] s[j].account@
}

/// `post` is `pre` with account `a`'s creation list set to `l`: the
/// entry is updated in place if present, else appended at the end.
/// Every other entry is untouched.
pub open spec fn reg_updated(
    pre: Seq<RegEntry>,
    post: Seq<RegEntry>,
    a: Seq<char>,
    l: Seq<Nft>,
) -> bool {
    if reg_has(pre, a) {
        let k = reg_idx(pre, a);
        &&& post.len() == pre.len()
        &&& (forall|j: int| 0 <= j < pre.len() && j != k ==> post[j] == pre[j])
        &&& post[k].account == pre[k].account
        &&& post[k].creations.nfts@ == l
    } else {
        &&& post.len() == pre.len() + 1
        &&& (forall|j: int| 0 <= j < pre.len() ==> post[j] == pre[j])
        &&& post[pre.len() as int].account@ == a
        &&& post[pre.len() as int].creations.nfts@ == l
    }
}

/// `post` is `pre` with the creation lists of the two distinct accounts
/// `a1` (already registered) and `a2` set to `l1` and `l2`: `a1`'s
/// entry is updated in place, `a2`'s is updated in place if present,
/// else appended at the end.  Every other entry is untouched.
pub open spec fn reg_updated_two(
    pre: Seq<RegEntry>,
    post: Seq<RegEntry>,
    a1: Seq<char>,
    l1: Seq<Nft>,
    a2: Seq<char>,
    l2: Seq<Nft>,
) -> bool {
    let k1 = reg_idx(pre, a1);
    if reg_has(pre, a2) {
        let k2 = reg_idx(pre, a2);
        &&& post.len() == pre.len()
        &&& (forall|j: int| 0 <= j < pre.len() && j != k1 && j != k2 ==> post[j] == pre[j])
        &&& post[k1].account == pre[k1].account
        &&& post[k1].creations.nfts@ == l1
        &&& post[k2].account == pre[k2].account
        &&& post[k2].creations.nfts@ == l2
    } else {
        &&& post.len() == pre.len() + 1
        &&& (forall|j: int| 0 <= j < pre.len() && j != k1 ==> post[j] == pre[j])
        &&& post[k1].account == pre[k1].account
        &&& post[k1].creations.nfts@ == l1
        &&& post[pre.len() as int].account@ == a2
        &&& post[pre.len() as int].creations.nfts@ == l2
    }
}

/// `post` is `pre` with account `a`'s balance set to `v`: the entry is
/// updated in place if present, else appended at the end.  Every other
/// entry is untouched.
pub open spec fn earn_updated(
    pre: Seq<EarnEntry>,
    post: Seq<EarnEntry>,
    a: Seq<char>,
    v: u64,
) -> bool {
    if earn_has(pre, a) {
        let k = earn_idx(pre, a);
        &&& post.len() == pre.len()
        &&& (forall|j: int| 0 <= j < pre.len() && j != k ==> post[j] == pre[j])
        &&& post[k].account == pre[k].account
        &&& post[k].amount == v
    } else {
        &&& post.len() == pre.len() + 1
        &&& (forall|j: int| 0 <= j < pre.len() ==> post[j] == pre[j])
        &&& post[pre.len() as int].account@ == a
        &&& post[pre.len() as int].amount == v
    }
}

/// How a mint of item `n` onto account `a` changes the state.  A first
/// mint registers the account with the one-item list and a zero
/// balance; a later mint appends to the existing list and leaves the
/// whole earnings ledger unchanged.  Minting never fails.
pub open spec fn mint_rel(pre: Contract, a: Seq<char>, n: Nft, post: Contract) -> bool {
    &&& post.owner_id == pre.owner_id
    &&& if reg_has(pre.creators@, a) {
        &&& reg_updated(pre.creators@, post.creators@, a, reg_list(pre.creators@, a).push(n))
        &&& post.earnings@ == pre.earnings@
    } else {
        &&& reg_updated(pre.creators@, post.creators@, a, seq![n])
        &&& earn_updated(pre.earnings@, post.earnings@, a, 0)
    }
}

/// How listing the creation at position `i` of account `a` for sale at
/// price `p` changes the state.  On success the item is removed from
/// its position, re-priced, flagged for sale and appended at the tail,
/// so every previously cached position past `i` is invalidated; the
/// earnings ledger never changes.  A missing account reports
/// `NotFound`, an invalid position `IndexOutOfRange`, and either
/// failure leaves the state untouched.
pub open spec fn put_in_sale_rel(
    pre: Contract,
    a: Seq<char>,
    i: int,
    p: u64,
    r: Result<(), LedgerError>,
    post: Contract,
) -> bool {
    if !reg_has(pre.creators@, a) {
        &&& r == Err::<(), LedgerError>(LedgerError::NotFound)
        &&& post == pre
    } else if !(0 <= i < reg_list(pre.creators@, a).len()) {
        &&& r == Err::<(), LedgerError>(LedgerError::IndexOutOfRange)
        &&& post == pre
    } else {
        &&& r == Ok::<(), LedgerError>(())
        &&& post.owner_id == pre.owner_id
        &&& post.earnings@ == pre.earnings@
        &&& reg_updated(
            pre.creators@,
            post.creators@,
            a,
            reg_list(pre.creators@, a).remove(i).push(listed(reg_list(pre.creators@, a)[i], p)),
        )
    }
}

/// The success conditions of a transfer: the seller has an earnings
/// entry (so only accounts that once minted can sell) and `i` is a
/// valid position in the seller's list.  Under [`Contract::wf`] an
/// earnings entry implies a registry entry.
pub open spec fn transfer_ok(pre: Contract, i: int, owner: Seq<char>) -> bool {
    &&& earn_has(pre.earnings@, owner)
    &&& 0 <= i < reg_list(pre.creators@, owner).len()
}

/// Crediting the sold item's price must not overflow the seller's
/// 64-bit balance; the addition is deliberately unchecked, so inputs
/// that would overflow are excluded up front.
pub open spec fn transfer_fits(pre: Contract, i: int, owner: Seq<char>) -> bool {
    transfer_ok(pre, i, owner) ==> earn_val(pre.earnings@, owner) + reg_list(
        pre.creators@,
        owner,
    )[i].price <= u64::MAX
}

/// How transferring the creation at position `i` of `owner`'s list to
/// `buyer` changes the state.  On success the item leaves the seller's
/// list, its sale flag is cleared, it is appended to the buyer's list
/// (the buyer is registered first if unknown, without an earnings
/// entry), and the seller's balance grows by the item's price.  No
/// payment is verified: crediting relies on the surrounding host.  A
/// seller without an earnings entry reports `NotFound` even when it
/// owns the item, an invalid position `IndexOutOfRange`, and either
/// failure leaves the state untouched.
pub open spec fn make_creator_rel(
    pre: Contract,
    i: int,
    owner: Seq<char>,
    buyer: Seq<char>,
    r: Result<(), LedgerError>,
    post: Contract,
) -> bool {
    if !earn_has(pre.earnings@, owner) {
        &&& r == Err::<(), LedgerError>(LedgerError::NotFound)
        &&& post == pre
    } else if !(0 <= i < reg_list(pre.creators@, owner).len()) {
        &&& r == Err::<(), LedgerError>(LedgerError::IndexOutOfRange)
        &&& post == pre
    } else {
        let l = reg_list(pre.creators@, owner);
        let moved = sold(l[i]);
        &&& r == Ok::<(), LedgerError>(())
        &&& post.owner_id == pre.owner_id
        &&& earn_updated(
            pre.earnings@,
            post.earnings@,
            owner,
            (earn_val(pre.earnings@, owner) + l[i].price) as u64,
        )
        &&& if buyer == owner {
            reg_updated(pre.creators@, post.creators@, owner, l.remove(i).push(moved))
        } else {
            reg_updated_two(
                pre.creators@,
                post.creators@,
                owner,
                l.remove(i),
                buyer,
                (if reg_has(pre.creators@, buyer) {
                    reg_list(pre.creators@, buyer)
                } else {
                    Seq::<Nft>::empty()
                }).push(moved),
            )
        }
    }
}

/// The payout multiplication must not overflow: a balance is scaled by
/// `UNIT_SCALE` in 128-bit arithmetic, unchecked as in the host's
/// native unit conversion, so balances past `u128::MAX / UNIT_SCALE`
/// are excluded up front.
pub open spec fn withdraw_fits(pre: Contract, a: Seq<char>) -> bool {
    earn_has(pre.earnings@, a) ==> earn_val(pre.earnings@, a) as int * UNIT_SCALE as int
        <= u128::MAX as int
}

/// How a withdrawal for `a`, executed by `caller`, changes the state.
/// A missing earnings entry reports `NotFound`; a zero balance is a
/// no-op with no payout; a balance `b > 0` is zeroed strictly before
/// the single payout of `b * UNIT_SCALE` minimal units is requested.
/// The payout goes to the caller of the operation, not to `a`: the two
/// can differ, and the balance drained is `a`'s.
pub open spec fn withdraw_rel(
    pre: Contract,
    a: Seq<char>,
    caller: Seq<char>,
    r: Result<Option<Payout>, LedgerError>,
    post: Contract,
) -> bool {
    if !earn_has(pre.earnings@, a) {
        &&& r == Err::<Option<Payout>, LedgerError>(LedgerError::NotFound)
        &&& post == pre
    } else if earn_val(pre.earnings@, a) == 0 {
        &&& r == Ok::<Option<Payout>, LedgerError>(None)
        &&& post == pre
    } else {
        &&& post.owner_id == pre.owner_id
        &&& post.creators@ == pre.creators@
        &&& earn_updated(pre.earnings@, post.earnings@, a, 0)
        &&& r matches Ok(Some(p)) && p.recipient@ == caller && p.amount as int == earn_val(
            pre.earnings@,
            a,
        ) as int * UNIT_SCALE as int
    }
}

/// The whole ledger state.
#[derive(Debug)]
pub struct Contract {
    /// The owner recorded at initialization.  It is stored but no
    /// operation consults it.
    pub owner_id: String,
    /// The account registry, in registration order.
    pub creators: Vec<RegEntry>,
    /// The earnings ledger.  An entry is created only by an account's
    /// first mint, never by receiving or selling via transfer.
    pub earnings: Vec<EarnEntry>,
}

impl Contract {
    /// Well-formedness: accounts are unique in both tables, and every
    /// account with an earnings entry is registered (the converse can
    /// fail: a transfer registers the buyer without an earnings entry).
    pub open spec fn wf(self) -> bool {
        &&& reg_keys_distinct(self.creators@)
        &&& earn_keys_distinct(self.earnings@)
        &&& (forall|a: Seq<char>|
            #[trigger] earn_has(self.earnings@, a) ==> reg_has(self.creators@, a))
    }

    /// A fresh, empty ledger recording `owner_id`.
    pub fn new(owner_id: String) -> (r: Contract)
        ensures
            r.wf(),
            r.owner_id == owner_id,
            r.creators@ == Seq::<RegEntry>::empty(),
            r.earnings@ == Seq::<EarnEntry>::empty(),
    {
        Contract { owner_id, creators: Vec::new(), earnings: Vec::new() }
    }

    /// The position of `account`'s registry entry, if one exists.
    fn find_reg(&self, account: &String) -> (r: Option<usize>)
        ensures
            match r {
                Some(i) => i < self.creators@.len() && self.creators@[i as int].account@
                    == account@,
                None => !reg_has(self.creators@, account@),
            },
    {
        let mut i: usize = 0;
        while i < self.creators.len()
            invariant
                i <= self.creators.len(),
                forall|j: int| 0 <= j < i ==> #[trigger] self.creators@[j].account@ != account@,
            decreases self.creators.len() - i,
        {
            if self.creators[i].account == *account {
                return Some(i);
            }
            i = i + 1;
        }
        None
    }

    /// The position of `account`'s earnings entry, if one exists.
    fn find_earn(&self, account: &String) -> (r: Option<usize>)
        ensures
            match r {
                Some(i) => i < self.earnings@.len() && self.earnings@[i as int].account@
                    == account@,
                None => !earn_has(self.earnings@, account@),
            },
    {
        let mut i: usize = 0;
        while i < self.earnings.len()
            invariant
                i <= self.earnings.len(),
                forall|j: int| 0 <= j < i ==> #[trigger] self.earnings@[j].account@ != account@,
            decreases self.earnings.len() - i,
        {
            if self.earnings[i].account == *account {
                return Some(i);
            }
            i = i + 1;
        }
        None
    }

    /// The creations owned by `account`, or `NotFound` if the account
    /// was never registered.
    pub fn get_nfts_by_account(&self, account: String) -> (r: Result<Creations, LedgerError>)
        requires
            self.wf(),
        ensures
            r is Ok <==> reg_has(self.creators@, account@),
            r matches Ok(c) ==> c.nfts@ == reg_list(self.creators@, account@),
            r is Err ==> r == Err::<Creations, LedgerError>(LedgerError::NotFound),
    {
        match self.find_reg(&account) {
            Some(k) => {
                proof {
                    lemma_reg_idx_is(self.creators@, account@, k as int);
                }
                Ok(self.creators[k].creations.clone())
            },
            None => Err(LedgerError::NotFound),
        }
    }

    /// The accrued balance of `account`, or `NotFound` if the account
    /// never minted.
    pub fn get_earnings_by_account(&self, account: String) -> (r: Result<u64, LedgerError>)
        requires
            self.wf(),
        ensures
            r is Ok <==> earn_has(self.earnings@, account@),
            r matches Ok(v) ==> v == earn_val(self.earnings@, account@),
            r is Err ==> r == Err::<u64, LedgerError>(LedgerError::NotFound),
    {
        match self.find_earn(&account) {
            Some(k) => {
                proof {
                    lemma_earn_idx_is(self.earnings@, account@, k as int);
                }
                Ok(self.earnings[k].amount)
            },
            None => Err(LedgerError::NotFound),
        }
    }

    /// Mints a new creation onto `account`: on the account's first
    /// appearance, creates its empty list, registers it as a creator
    /// and opens a zero earnings balance; then appends the new item,
    /// already flagged for sale at `price`.  Anybody may mint into any
    /// account's registry: no authorization is checked.
    pub fn mint(
        &mut self,
        account: String,
        uri: String,
        category: String,
        desc: String,
        price: u64,
    )
        requires
            old(self).wf(),
        ensures
            final(self).wf(),
            mint_rel(
                *old(self),
                account@,
                (Nft { uri: uri, category: category, desc: desc, price: price, for_sale: true }),
                *final(self),
            ),
    {
        let ghost pre = *self;
        let k: usize = match self.find_reg(&account) {
            Some(k) => k,
            None => {
                let k = self.creators.len();
                self.creators.push(
                    RegEntry { account: account.clone(), creations: Creations { nfts: Vec::new() } },
                );
                self.earnings.push(EarnEntry { account: account.clone(), amount: 0 });
                k
            },
        };
        let ghost mid = *self;
        let mut entry = self.creators.remove(k);
        entry.creations.nfts.push(Nft { uri, category, desc, price, for_sale: true });
        self.creators.insert(k, entry);
        proof {
            let a = account@;
            let n = Nft { uri: uri, category: category, desc: desc, price: price, for_sale: true };
            if reg_has(pre.creators@, a) {
                lemma_reg_idx_is(pre.creators@, a, k as int);
                assert(mid == pre);
                assert forall|j: int| 0 <= j < pre.creators@.len() && j != k implies
                    self.creators@[j] == pre.creators@[j] by {
                    assert(self.creators@ == mid.creators@.remove(k as int).insert(k as int, entry));
                }
                assert(self.creators@[k as int].creations.nfts@ == reg_list(pre.creators@, a).push(n));
            } else {
                assert(!earn_has(pre.earnings@, a));
                assert(k == pre.creators@.len());
                assert(mid.creators@ == pre.creators@.push(mid.creators@[k as int]));
                assert(self.creators@.len() == pre.creators@.len() + 1);
                assert forall|j: int| 0 <= j < pre.creators@.len() implies
                    self.creators@[j] == pre.creators@[j] by {}
                assert(self.creators@[k as int].account@ == a);
                assert(self.creators@[k as int].creations.nfts@ =~= seq![n]);
                assert(earn_updated(pre.earnings@, self.earnings@, a, 0));
            }
            assert(self.wf()) by {
                assert forall|b: Seq<char>| #[trigger] earn_has(self.earnings@, b) implies
                    reg_has(self.creators@, b) by {
                    let w = earn_idx(self.earnings@, b);
                    assert(0 <= w < self.earnings@.len() && self.earnings@[w].account@ == b);
                    if w < pre.earnings@.len() {
                        assert(earn_has(pre.earnings@, b));
                        let v = reg_idx(pre.creators@, b);
                        assert(self.creators@[v].account@ == b);
                    } else {
                        assert(b == a);
                        assert(self.creators@[k as int].account@ == b);
                    }
                }
                assert forall|i: int, j: int| 0 <= i < j < self.creators@.len() implies
                    #[trigger] self.creators@[i].account@ != #[trigger] self.creators@[j].account@
                by {
                    if j < pre.creators@.len() {
                    } else if !reg_has(pre.creators@, a) && j == pre.creators@.len() {
                        assert(self.creators@[j].account@ == a);
                        assert(self.creators@[i] == pre.creators@[i]);
                        if self.creators@[i].account@ == a {
                            assert(reg_has(pre.creators@, a));
                        }
                    }
                }
            }
        }
    }

    /// Lists the creation at position `index` of `account` for sale at
    /// `price`.  On success the list keeps its length but the item
    /// moves to the tail; on failure nothing changes.
    pub fn put_in_sale(
        &mut self,
        account: String,
        index: u16,
        price: u64,
    ) -> (r: Result<(), LedgerError>)
        requires
            old(self).wf(),
        ensures
            final(self).wf(),
            put_in_sale_rel(*old(self), account@, index as int, price, r, *final(self)),
    {
        let ghost pre = *self;
        let k: usize = match self.find_reg(&account) {
            Some(k) => k,
            None => {
                return Err(LedgerError::NotFound);
            },
        };
        proof {
            lemma_reg_idx_is(pre.creators@, account@, k as int);
        }
        if (index as usize) >= self.creators[k].creations.nfts.len() {
            return Err(LedgerError::IndexOutOfRange);
        }
        let mut entry = self.creators.remove(k);
        let mut nft = entry.creations.nfts.remove(index as usize);
        nft.for_sale = true;
        nft.price = price;
        entry.creations.nfts.push(nft);
        self.creators.insert(k, entry);
        proof {
            let a = account@;
            let l = reg_list(pre.creators@, a);
            assert(self.creators@ == pre.creators@.remove(k as int).insert(k as int, entry));
            assert forall|j: int| 0 <= j < pre.creators@.len() && j != k implies
                self.creators@[j] == pre.creators@[j] by {}
            assert(self.creators@[k as int].creations.nfts@
                == l.remove(index as int).push(listed(l[index as int], price)));
            assert(self.wf()) by {
                assert forall|b: Seq<char>| #[trigger] earn_has(self.earnings@, b) implies
                    reg_has(self.creators@, b) by {
                    assert(earn_has(pre.earnings@, b));
                    let v = reg_idx(pre.creators@, b);
                    assert(self.creators@[v].account@ == b);
                }
            }
        }
        Ok(())
    }

    /// Transfers the creation at position `index` of `owner`'s list to
    /// `buyer` and credits `owner`'s balance by the item's price.  The
    /// buyer is registered as a creator on first contact, but no
    /// earnings entry is opened for it; a seller that never minted has
    /// no earnings entry, so selling fails for it with `NotFound` even
    /// when it owns the item.  Whether the buyer actually paid is not
    /// checked here.  A transfer from an account to itself moves the
    /// item to the tail of its own list, flag cleared, and still
    /// credits the balance.
    pub fn make_creator(
        &mut self,
        index: u16,
        owner: String,
        buyer: String,
    ) -> (r: Result<(), LedgerError>)
        requires
            old(self).wf(),
            transfer_fits(*old(self), index as int, owner@),
        ensures
            final(self).wf(),
            make_creator_rel(*old(self), index as int, owner@, buyer@, r, *final(self)),
    {
        let ghost pre = *self;
        let ke: usize = match self.find_earn(&owner) {
            Some(k) => k,
            None => {
                return Err(LedgerError::NotFound);
            },
        };
        proof {
            lemma_earn_idx_is(pre.earnings@, owner@, ke as int);
        }
        let ko: usize = match self.find_reg(&owner) {
            Some(k) => k,
            None => {
                // Unreachable: a well-formed ledger registers every
                // account that holds an earnings entry.
                proof {
                    assert(earn_has(pre.earnings@, owner@));
                    assert(false);
                }
                return Err(LedgerError::NotFound);
            },
        };
        proof {
            lemma_reg_idx_is(pre.creators@, owner@, ko as int);
        }
        if (index as usize) >= self.creators[ko].creations.nfts.len() {
            return Err(LedgerError::IndexOutOfRange);
        }
        let ghost l = reg_list(pre.creators@, owner@);
        let mut oentry = self.creators.remove(ko);
        let mut nft = oentry.creations.nfts.remove(index as usize);
        let price = nft.price;
        nft.for_sale = false;
        proof {
            assert(nft == sold(l[index as int]));
        }
        let mut eentry = self.earnings.remove(ke);
        eentry.amount = eentry.amount + price;
        self.earnings.insert(ke, eentry);
        self.creators.insert(ko, oentry);
        let ghost mid = *self;
        proof {
            assert(mid.earnings@ == pre.earnings@.remove(ke as int).insert(ke as int, eentry));
            assert(mid.creators@ == pre.creators@.remove(ko as int).insert(ko as int, oentry));
            assert forall|j: int| 0 <= j < pre.creators@.len() && j != ko implies
                mid.creators@[j] == pre.creators@[j] by {}
            assert(earn_updated(
                pre.earnings@,
                mid.earnings@,
                owner@,
                (earn_val(pre.earnings@, owner@) + l[index as int].price) as u64,
            ));
            assert(reg_keys_distinct(mid.creators@)) by {
                assert forall|i: int, j: int| 0 <= i < j < mid.creators@.len() implies
                    #[trigger] mid.creators@[i].account@ != #[trigger] mid.creators@[j].account@
                by {
                    assert(mid.creators@[i].account == pre.creators@[i].account);
                    assert(mid.creators@[j].account == pre.creators@[j].account);
                }
            }
        }
        match self.find_reg(&buyer) {
            Some(kb) => {
                proof {
                    lemma_reg_idx_is(mid.creators@, buyer@, kb as int);
                }
                let mut bentry = self.creators.remove(kb);
                bentry.creations.nfts.push(nft);
                self.creators.insert(kb, bentry);
                proof {
                    assert(self.creators@
                        == mid.creators@.remove(kb as int).insert(kb as int, bentry));
                    if buyer@ == owner@ {
                        assert(kb == ko) by {
                            assert(mid.creators@[ko as int].account@ == owner@);
                            lemma_reg_idx_is(mid.creators@, owner@, ko as int);
                        }
                        assert(self.creators@[ko as int].creations.nfts@
                            == l.remove(index as int).push(sold(l[index as int])));
                    } else {
                        assert(kb != ko);
                        assert(pre.creators@[kb as int].account@ == buyer@);
                        lemma_reg_idx_is(pre.creators@, buyer@, kb as int);
                        assert(self.creators@[kb as int].creations.nfts@
                            == reg_list(pre.creators@, buyer@).push(sold(l[index as int])));
                        assert(self.creators@[ko as int] == mid.creators@[ko as int]);
                    }
                }
            },
            None => {
                proof {
                    assert(!reg_has(mid.creators@, buyer@));
                    if buyer@ == owner@ {
                        assert(mid.creators@[ko as int].account@ == owner@);
                        assert(false);
                    }
                    if reg_has(pre.creators@, buyer@) {
                        let v = reg_idx(pre.creators@, buyer@);
                        assert(mid.creators@[v].account@ == buyer@);
                        assert(false);
                    }
                }
                let mut v: Vec<Nft> = Vec::new();
                v.push(nft);
                self.creators.push(RegEntry { account: buyer, creations: Creations { nfts: v } });
                proof {
                    assert(self.creators@[pre.creators@.len() as int].creations.nfts@
                        =~= Seq::<Nft>::empty().push(sold(l[index as int])));
                }
            },
        }
        proof {
            assert(self.earnings@ == mid.earnings@);
            assert(self.wf()) by {
                assert forall|i: int, j: int| 0 <= i < j < self.creators@.len() implies
                    #[trigger] self.creators@[i].account@ != #[trigger] self.creators@[j].account@
                by {
                    if j < mid.creators@.len() {
                        assert(self.creators@[i].account == mid.creators@[i].account);
                        assert(self.creators@[j].account == mid.creators@[j].account);
                    } else {
                        assert(self.creators@[j].account@ == buyer@);
                        assert(self.creators@[i] == mid.creators@[i]);
                        if self.creators@[i].account@ == buyer@ {
                            assert(reg_has(mid.creators@, buyer@));
                        }
                    }
                }
                assert forall|b: Seq<char>| #[trigger] earn_has(self.earnings@, b) implies
                    reg_has(self.creators@, b) by {
                    let w = earn_idx(self.earnings@, b);
                    assert(0 <= w < self.earnings@.len() && self.earnings@[w].account@ == b);
                    assert(self.earnings@[w].account == pre.earnings@[w].account);
                    assert(earn_has(pre.earnings@, b));
                    let v = reg_idx(pre.creators@, b);
                    assert(pre.creators@[v].account@ == b);
                    assert(self.creators@[v].account == pre.creators@[v].account);
                }
            }
        }
        Ok(())
    }

    /// Withdraws `account_id`'s accrued earnings.  A nonzero balance is
    /// zeroed and the returned payout asks the host to send the scaled
    /// amount to `caller` — whoever executes the call, not necessarily
    /// `account_id`.  The host performs the payout only after this
    /// call's state changes are committed, so a payout that later fails
    /// is lost: the balance is already zero.
    pub fn withdraw(
        &mut self,
        account_id: String,
        caller: String,
    ) -> (r: Result<Option<Payout>, LedgerError>)
        requires
            old(self).wf(),
            withdraw_fits(*old(self), account_id@),
        ensures
            final(self).wf(),
            withdraw_rel(*old(self), account_id@, caller@, r, *final(self)),
    {
        let ghost pre = *self;
        let ke: usize = match self.find_earn(&account_id) {
            Some(k) => k,
            None => {
                return Err(LedgerError::NotFound);
            },
        };
        proof {
            lemma_earn_idx_is(pre.earnings@, account_id@, ke as int);
        }
        let balance = self.earnings[ke].amount;
        if balance == 0 {
            return Ok(None);
        }
        let mut eentry = self.earnings.remove(ke);
        eentry.amount = 0;
        self.earnings.insert(ke, eentry);
        proof {
            assert(self.earnings@ == pre.earnings@.remove(ke as int).insert(ke as int, eentry));
            assert forall|j: int| 0 <= j < pre.earnings@.len() && j != ke implies
                self.earnings@[j] == pre.earnings@[j] by {}
            assert(self.wf()) by {
                assert forall|i: int, j: int| 0 <= i < j < self.earnings@.len() implies
                    #[trigger] self.earnings@[i].account@ != #[trigger] self.earnings@[j].account@
                by {
                    assert(self.earnings@[i].account == pre.earnings@[i].account);
                    assert(self.earnings@[j].account == pre.earnings@[j].account);
                }
                assert forall|b: Seq<char>| #[trigger] earn_has(self.earnings@, b) implies
                    reg_has(self.creators@, b) by {
                    let w = earn_idx(self.earnings@, b);
                    assert(self.earnings@[w].account == pre.earnings@[w].account);
                    assert(earn_has(pre.earnings@, b));
                }
            }
        }
        let amount: u128 = (balance as u128) * UNIT_SCALE;
        Ok(Some(Payout { recipient: caller, amount }))
    }

    /// Every registered account, in registration order.
    pub fn get_creators(&self) -> (r: Vec<String>)
        ensures
            r@.len() == self.creators@.len(),
            forall|j: int| 0 <= j < r@.len() ==> r@[j] == self.creators@[j].account,
    {
        let mut r: Vec<String> = Vec::new();
        let mut i: usize = 0;
        while i < self.creators.len()
            invariant
                i <= self.creators.len(),
                r@.len() == i,
                forall|j: int| 0 <= j < i ==> r@[j] == self.creators@[j].account,
            decreases self.creators.len() - i,
        {
            r.push(self.creators[i].account.clone());
            i = i + 1;
        }
        r
    }
}

/// A position whose entry carries account `a` is the position that
/// `reg_idx` picks, provided accounts are unique.
pub proof fn lemma_reg_idx_is(s: Seq<RegEntry>, a: Seq<char>, i: int)
    requires
        reg_keys_distinct(s),
        0 <= i < s.len(),
        s[i].account@ == a,
    ensures
        reg_has(s, a),
        reg_idx(s, a) == i,
{
    assert(reg_has(s, a));
    let k = reg_idx(s, a);
    if k != i {
        if k < i {
            assert(s[k].account@ != s[i].account@);
        } else {
            assert(s[i].account@ != s[k].account@);
        }
    }
}

/// A position whose entry carries account `a` is the position that
/// `earn_idx` picks, provided accounts are unique.
pub proof fn lemma_earn_idx_is(s: Seq<EarnEntry>, a: Seq<char>, i: int)
    requires
        earn_keys_distinct(s),
        0 <= i < s.len(),
        s[i].account@ == a,
    ensures
        earn_has(s, a),
        earn_idx(s, a) == i,
{
    assert(earn_has(s, a));
    let k = earn_idx(s, a);
    if k != i {
        if k < i {
            assert(s[k].account@ != s[i].account@);
        } else {
            assert(s[i].account@ != s[k].account@);
        }
    }
}

} // verus!
