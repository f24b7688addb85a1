//! Laws of the ledger: consequences of the operation relations in
//! [`crate::ledger`], stated for every state and input and proved once
//! and for all.

use vstd::prelude::*;

use crate::items::Nft;
use crate::items::Payout;
use crate::items::LedgerError;
use crate::items::listed;
use crate::items::sold;
use crate::ledger::Contract;
use crate::ledger::UNIT_SCALE;
use crate::ledger::earn_has;
use crate::ledger::earn_idx;
use crate::ledger::earn_val;
use crate::ledger::make_creator_rel;
use crate::ledger::mint_rel;
use crate::ledger::put_in_sale_rel;
use crate::ledger::reg_has;
use crate::ledger::reg_idx;
use crate::ledger::reg_list;
use crate::ledger::transfer_ok;
use crate::ledger::withdraw_rel;
use crate::ledger::lemma_earn_idx_is;
use crate::ledger::lemma_reg_idx_is;

verus! {

/// Minting onto an account with no registry entry creates an empty
/// list, a zero balance entry and registers the account as a creator —
/// all before the new creation is appended, so the final list holds
/// exactly the one new item.
pub proof fn lemma_first_mint(pre: Contract, a: Seq<char>, n: Nft, post: Contract)
    requires
        pre.wf(),
        post.wf(),
        !reg_has(pre.creators@, a),
        mint_rel(pre, a, n, post),
    ensures
        reg_has(post.creators@, a),
        reg_list(post.creators@, a) == seq![n],
        earn_has(post.earnings@, a),
        earn_val(post.earnings@, a) == 0,
        post.creators@.len() == pre.creators@.len() + 1,
        post.creators@[pre.creators@.len() as int].account@ == a,
{
    lemma_reg_idx_is(post.creators@, a, pre.creators@.len() as int);
    assert(!earn_has(pre.earnings@, a)) by {
        if earn_has(pre.earnings@, a) {
            assert(reg_has(pre.creators@, a));
        }
    }
    lemma_earn_idx_is(post.earnings@, a, pre.earnings@.len() as int);
}

/// Minting twice onto the same account appends a second creation
/// without resetting the first: the list grows by exactly one item,
/// every earlier item stays in place, and the second mint leaves the
/// whole earnings ledger unchanged.
pub proof fn lemma_mint_twice(
    s0: Contract,
    a: Seq<char>,
    n1: Nft,
    n2: Nft,
    s1: Contract,
    s2: Contract,
)
    requires
        s0.wf(),
        s1.wf(),
        s2.wf(),
        mint_rel(s0, a, n1, s1),
        mint_rel(s1, a, n2, s2),
    ensures
        reg_has(s1.creators@, a),
        reg_list(s2.creators@, a) == reg_list(s1.creators@, a).push(n2),
        reg_list(s2.creators@, a).len() == reg_list(s1.creators@, a).len() + 1,
        reg_list(s2.creators@, a).last() == n2,
        s2.earnings@ == s1.earnings@,
{
    if reg_has(s0.creators@, a) {
        let k = reg_idx(s0.creators@, a);
        assert(s1.creators@[k].account@ == a);
        lemma_reg_idx_is(s1.creators@, a, k);
    } else {
        lemma_reg_idx_is(s1.creators@, a, s0.creators@.len() as int);
    }
    let k1 = reg_idx(s1.creators@, a);
    assert(s2.creators@[k1].account@ == a);
    lemma_reg_idx_is(s2.creators@, a, k1);
}

/// A successful listing keeps the list's length; the item that stood at
/// the listed position is now at the last position, flagged for sale at
/// the new price.
pub proof fn lemma_put_in_sale_moves(
    pre: Contract,
    a: Seq<char>,
    i: int,
    p: u64,
    post: Contract,
)
    requires
        pre.wf(),
        post.wf(),
        put_in_sale_rel(pre, a, i, p, Ok(()), post),
    ensures
        reg_has(pre.creators@, a),
        0 <= i < reg_list(pre.creators@, a).len(),
        reg_list(post.creators@, a).len() == reg_list(pre.creators@, a).len(),
        reg_list(post.creators@, a).last() == listed(reg_list(pre.creators@, a)[i], p),
        reg_list(post.creators@, a).last().for_sale == true,
        reg_list(post.creators@, a).last().price == p,
{
    let k = reg_idx(pre.creators@, a);
    assert(post.creators@[k].account@ == a);
    lemma_reg_idx_is(post.creators@, a, k);
}

/// A listing with an out-of-range position reports `IndexOutOfRange`
/// and leaves the whole state exactly as it was.
pub proof fn lemma_put_in_sale_bad_index(
    pre: Contract,
    a: Seq<char>,
    i: int,
    p: u64,
    r: Result<(), LedgerError>,
    post: Contract,
)
    requires
        pre.wf(),
        reg_has(pre.creators@, a),
        !(0 <= i < reg_list(pre.creators@, a).len()),
        put_in_sale_rel(pre, a, i, p, r, post),
    ensures
        r == Err::<(), LedgerError>(LedgerError::IndexOutOfRange),
        post == pre,
{
}

/// A successful transfer between two distinct accounts moves exactly
/// one creation: the seller's list shrinks by one, the buyer's grows by
/// one, the moved item arrives with its sale flag cleared, and the
/// seller's balance grows by exactly the item's price.
pub proof fn lemma_transfer(
    pre: Contract,
    i: int,
    owner: Seq<char>,
    buyer: Seq<char>,
    post: Contract,
)
    requires
        pre.wf(),
        post.wf(),
        buyer != owner,
        make_creator_rel(pre, i, owner, buyer, Ok(()), post),
        earn_val(pre.earnings@, owner) + reg_list(pre.creators@, owner)[i].price <= u64::MAX,
    ensures
        transfer_ok(pre, i, owner),
        reg_list(post.creators@, owner).len() == reg_list(pre.creators@, owner).len() - 1,
        reg_has(post.creators@, buyer),
        reg_list(post.creators@, buyer).len() == (if reg_has(pre.creators@, buyer) {
            reg_list(pre.creators@, buyer).len() as int
        } else {
            0int
        }) + 1,
        reg_list(post.creators@, buyer).last() == sold(reg_list(pre.creators@, owner)[i]),
        reg_list(post.creators@, buyer).last().for_sale == false,
        earn_val(post.earnings@, owner) == earn_val(pre.earnings@, owner) + reg_list(
            pre.creators@,
            owner,
        )[i].price,
{
    assert(reg_has(pre.creators@, owner));
    let k1 = reg_idx(pre.creators@, owner);
    assert(post.creators@[k1].account@ == owner);
    lemma_reg_idx_is(post.creators@, owner, k1);
    if reg_has(pre.creators@, buyer) {
        let k2 = reg_idx(pre.creators@, buyer);
        assert(post.creators@[k2].account@ == buyer);
        lemma_reg_idx_is(post.creators@, buyer, k2);
    } else {
        lemma_reg_idx_is(post.creators@, buyer, pre.creators@.len() as int);
    }
    let ke = earn_idx(pre.earnings@, owner);
    assert(post.earnings@[ke].account@ == owner);
    lemma_earn_idx_is(post.earnings@, owner, ke);
}

/// Withdrawing a positive balance `b` zeroes it and requests exactly
/// one payout, of `b * UNIT_SCALE` minimal units, to the caller;
/// withdrawing again right afterwards is a no-op: no payout and no
/// state change.
pub proof fn lemma_withdraw_twice(
    s0: Contract,
    a: Seq<char>,
    c1: Seq<char>,
    c2: Seq<char>,
    r1: Result<Option<Payout>, LedgerError>,
    r2: Result<Option<Payout>, LedgerError>,
    s1: Contract,
    s2: Contract,
)
    requires
        s0.wf(),
        s1.wf(),
        s2.wf(),
        earn_has(s0.earnings@, a),
        earn_val(s0.earnings@, a) > 0,
        withdraw_rel(s0, a, c1, r1, s1),
        withdraw_rel(s1, a, c2, r2, s2),
    ensures
        r1 matches Ok(Some(p)) && p.recipient@ == c1 && p.amount as int == earn_val(
            s0.earnings@,
            a,
        ) as int * UNIT_SCALE as int,
        earn_has(s1.earnings@, a),
        earn_val(s1.earnings@, a) == 0,
        r2 == Ok::<Option<Payout>, LedgerError>(None),
        s2 == s1,
{
    let ke = earn_idx(s0.earnings@, a);
    assert(s1.earnings@[ke].account@ == a);
    lemma_earn_idx_is(s1.earnings@, a, ke);
}

} // verus!
