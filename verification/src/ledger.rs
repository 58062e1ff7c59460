//! The balance side of the ledger model: one wallet per external identity,
//! with a mathematical balance function and the facts the operations need
//! about how it behaves under updates.

use vstd::prelude::*;

verus! {

/// The spendable balance held by one external identity (a client or an
/// executor).
#[derive(Clone, Copy, PartialEq, Eq, Structural, Debug)]
pub struct Wallet {
    pub address: u64,
    pub lamports: u64,
}

/// The balance of `address`: the lamports of the first wallet with that
/// address, or zero if there is none. Under the market's uniqueness
/// invariant the first match is the only one.
pub open spec fn spec_balance(s: Seq<Wallet>, address: u64) -> u64
    decreases s.len(),
{
    if s.len() == 0 {
        0u64
    } else if s[0].address == address {
        s[0].lamports
    } else {
        spec_balance(s.drop_first(), address)
    }
}

/// An identity with no wallet has balance zero.
pub proof fn lemma_balance_absent(s: Seq<Wallet>, address: u64)
    requires
        forall|j: int| 0 <= j < s.len() ==> s[j].address != address,
    ensures
        spec_balance(s, address) == 0,
    decreases s.len(),
{
    if s.len() > 0 {
        lemma_balance_absent(s.drop_first(), address);
    }
}

/// The wallet at the first index carrying its address holds the balance of
/// that address.
pub proof fn lemma_balance_at_index(s: Seq<Wallet>, i: int)
    requires
        0 <= i < s.len(),
        forall|j: int| 0 <= j < i ==> s[j].address != s[i].address,
    ensures
        spec_balance(s, s[i].address) == s[i].lamports,
    decreases s.len(),
{
    if i > 0 {
        lemma_balance_at_index(s.drop_first(), i - 1);
    }
}

/// Replacing the first wallet of an address, with a wallet that keeps that
/// address, changes the balance only at that address.
pub proof fn lemma_balance_update(s: Seq<Wallet>, i: int, w: Wallet, address: u64)
    requires
        0 <= i < s.len(),
        w.address == s[i].address,
        forall|j: int| 0 <= j < i ==> s[j].address != s[i].address,
    ensures
        spec_balance(s.update(i, w), address) == if address == w.address {
            w.lamports
        } else {
            spec_balance(s, address)
        },
    decreases s.len(),
{
    if i == 0 {
        assert(s.update(0, w).drop_first() =~= s.drop_first());
    } else {
        assert(s.update(i, w).drop_first() =~= s.drop_first().update(i - 1, w));
        lemma_balance_update(s.drop_first(), i - 1, w, address);
    }
}

/// Appending a wallet for a fresh address changes the balance only at that
/// address.
pub proof fn lemma_balance_push(s: Seq<Wallet>, w: Wallet, address: u64)
    requires
        forall|j: int| 0 <= j < s.len() ==> s[j].address != w.address,
    ensures
        spec_balance(s.push(w), address) == if address == w.address {
            w.lamports
        } else {
            spec_balance(s, address)
        },
    decreases s.len(),
{
    if s.len() == 0 {
        assert(s.push(w)[0] == w);
        assert(s.push(w).drop_first() =~= Seq::<Wallet>::empty());
        lemma_balance_absent(s.push(w).drop_first(), address);
    } else {
        assert(s.push(w)[0] == s[0]);
        assert(s.push(w).drop_first() =~= s.drop_first().push(w));
        lemma_balance_push(s.drop_first(), w, address);
    }
}

/// The total of all wallet balances.
pub open spec fn sum_wallets(s: Seq<Wallet>) -> int
    decreases s.len(),
{
    if s.len() == 0 {
        0
    } else {
        s[0].lamports + sum_wallets(s.drop_first())
    }
}

/// Replacing one wallet changes the total by the difference of its balance.
pub proof fn lemma_sum_wallets_update(s: Seq<Wallet>, i: int, w: Wallet)
    requires
        0 <= i < s.len(),
    ensures
        sum_wallets(s.update(i, w)) == sum_wallets(s) - s[i].lamports + w.lamports,
    decreases s.len(),
{
    if i == 0 {
        assert(s.update(0, w).drop_first() =~= s.drop_first());
    } else {
        assert(s.update(i, w).drop_first() =~= s.drop_first().update(i - 1, w));
        lemma_sum_wallets_update(s.drop_first(), i - 1, w);
    }
}

/// Appending a wallet adds its balance to the total.
pub proof fn lemma_sum_wallets_push(s: Seq<Wallet>, w: Wallet)
    ensures
        sum_wallets(s.push(w)) == sum_wallets(s) + w.lamports,
    decreases s.len(),
{
    if s.len() == 0 {
        assert(s.push(w)[0] == w);
        assert(s.push(w).drop_first() =~= Seq::<Wallet>::empty());
        assert(sum_wallets(Seq::<Wallet>::empty()) == 0);
    } else {
        assert(s.push(w)[0] == s[0]);
        assert(s.push(w).drop_first() =~= s.drop_first().push(w));
        lemma_sum_wallets_push(s.drop_first(), w);
    }
}

/// Index of the first wallet carrying `address`, if any.
pub fn find_wallet_index(wallets: &Vec<Wallet>, address: u64) -> (r: Option<usize>)
    ensures
        match r {
            Some(i) => {
                &&& i < wallets@.len()
                &&& wallets@[i as int].address == address
                &&& forall|j: int| 0 <= j < i ==> wallets@[j].address != address
            },
            None => forall|j: int| 0 <= j < wallets@.len() ==> wallets@[j].address != address,
        },
{
    let mut i: usize = 0;
    while i < wallets.len()
        invariant
            i <= wallets@.len(),
            forall|j: int| 0 <= j < i ==> wallets@[j].address != address,
        decreases wallets@.len() - i,
    {
        if wallets[i].address == address {
            return Some(i);
        }
        i = i + 1;
    }
    None
}

} // verus!
