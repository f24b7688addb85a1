//! The item types of the ledger: a single creation, an account's ordered
//! list of creations, the error kinds, and a requested payout.

use vstd::prelude::*;

verus! {

/// One mintable item.  Immutable except `price` and `for_sale`, which
/// change when the item is listed for sale and when ownership transfers.
#[derive(Debug, PartialEq)]
pub struct Nft {
    pub uri: String,
    pub category: String,
    pub desc: String,
    pub price: u64,
    pub for_sale: bool,
}

/// The ordered list of creations owned by one account.  Order is
/// insertion order at mint time, but is not stable under removal:
/// listing and transfer both remove an item at a position and append,
/// shifting every later position.
#[derive(Debug, PartialEq)]
pub struct Creations {
    pub nfts: Vec<Nft>,
}

/// The two failure kinds of the ledger.  Either one aborts the whole
/// call and leaves the state exactly as it was.
#[derive(Debug, Clone, Copy, PartialEq, Eq)]
pub enum LedgerError {
    /// A required registry or earnings entry for an account is missing.
    NotFound,
    /// A supplied position does not address an existing creation.
    IndexOutOfRange,
}

/// A native-value transfer requested by a withdrawal, to be performed
/// by the host after the call's state changes are committed.
#[derive(Debug, PartialEq)]
pub struct Payout {
    /// Who receives the funds: the caller of the withdrawal, not
    /// necessarily the account whose balance was drained.
    pub recipient: String,
    /// The amount in minimal units: the drained balance times
    /// [`crate::ledger::UNIT_SCALE`].
    pub amount: u128,
}

/// The value of `n` once it is listed for sale at price `p`.
pub open spec fn listed(n: Nft, p: u64) -> Nft {
    Nft { uri: n.uri, category: n.category, desc: n.desc, price: p, for_sale: true }
}

/// The value of `n` once ownership has transferred: the sale flag is
/// cleared the instant the item changes hands.
pub open spec fn sold(n: Nft) -> Nft {
    Nft { uri: n.uri, category: n.category, desc: n.desc, price: n.price, for_sale: false }
}

impl Clone for Nft {
    /// Field-for-field copy; the clone is the same value.
    fn clone(&self) -> (r: Self)
        ensures
            r == *self,
    {
        Nft {
            uri: self.uri.clone(),
            category: self.category.clone(),
            desc: self.desc.clone(),
            price: self.price,
            for_sale: self.for_sale,
        }
    }
}

impl Clone for Creations {
    /// Element-for-element copy; the clone holds the same sequence of items.
    fn clone(&self) -> (r: Self)
        ensures
            r.nfts@ == self.nfts@,
    {
        let mut nfts: Vec<Nft> = Vec::new();
        let mut i: usize = 0;
        while i < self.nfts.len()
            invariant
                i <= self.nfts.len(),
                nfts@ == self.nfts@.subrange(0, i as int),
            decreases self.nfts.len() - i,
        {
            nfts.push(self.nfts[i].clone());
            proof {
                assert(self.nfts@.subrange(0, i as int + 1)
                    =~= self.nfts@.subrange(0, i as int).push(self.nfts@[i as int]));
            }
            i = i + 1;
        }
        proof {
            assert(self.nfts@.subrange(0, self.nfts@.len() as int) =~= self.nfts@);
        }
        Creations { nfts }
    }
}

} // verus!
