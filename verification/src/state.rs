//! Record types of the protocol, the per-escrow well-formedness condition,
//! and lookup of an escrow record by its order id.

use vstd::prelude::*;

verus! {

/// Lifecycle of an escrow: `Locked` until the single settlement, then terminal.
#[derive(Clone, Copy, PartialEq, Eq, Structural, Debug)]
pub enum EscrowStatus {
    Locked,
    Released,
    Refunded,
}

/// Typed failures of the protocol operations.
#[derive(Clone, Copy, PartialEq, Eq, Structural, Debug)]
pub enum ShillMarketError {
    /// Release or refund was attempted on an escrow that is not `Locked`.
    EscrowNotLocked,
    /// The caller is not the treasury authority, or the supplied payee does
    /// not match the identity stored in the escrow.
    Unauthorized,
    /// A fee rate argument exceeds 10000 basis points.
    InvalidFeeBps,
    /// The escrow amount is zero, or the client cannot cover it.
    InsufficientFunds,
    /// A record already exists at the address being created.
    AccountAlreadyExists,
    /// No escrow record exists for the given order id.
    EscrowNotFound,
    /// Crediting a balance would overflow its representation; the operation
    /// aborts with no effect.
    ArithmeticOverflow,
}

/// The singleton treasury record: the settlement authority, the default fee
/// rate for new escrows, and the balance of fees it has collected.
#[derive(Clone, Copy, PartialEq, Eq, Structural, Debug)]
pub struct Treasury {
    pub authority: u64,
    pub fee_bps: u16,
    pub lamports: u64,
}

/// One escrow record, keyed by `order_id`. `lamports` is the balance held at
/// the escrow's own address: the full `amount` while `Locked`, zero after the
/// single settlement drains it.
#[derive(Clone, Copy, PartialEq, Eq, Structural, Debug)]
pub struct EscrowAccount {
    pub order_id: u64,
    pub client: u64,
    pub executor: u64,
    pub amount: u64,
    pub fee_bps: u16,
    pub status: EscrowStatus,
    pub created_at: i64,
    pub lamports: u64,
}

/// Accounts named by treasury initialization: the signing caller, who becomes
/// the settlement authority.
#[derive(Clone, Copy, PartialEq, Eq, Structural, Debug)]
pub struct InitializeTreasury {
    pub authority: u64,
}

/// Accounts named by escrow creation: the signing client who funds the
/// escrow, and the executor designated to be paid on release.
#[derive(Clone, Copy, PartialEq, Eq, Structural, Debug)]
pub struct CreateEscrow {
    pub client: u64,
    pub executor: u64,
}

/// Accounts named by a release: the signing caller, who must be the treasury
/// authority, and the payee, who must be the escrow's stored executor.
#[derive(Clone, Copy, PartialEq, Eq, Structural, Debug)]
pub struct ReleaseEscrow {
    pub authority: u64,
    pub executor: u64,
}

/// Accounts named by a refund: the signing caller, who must be the treasury
/// authority, and the payee, who must be the escrow's stored client.
#[derive(Clone, Copy, PartialEq, Eq, Structural, Debug)]
pub struct RefundEscrow {
    pub authority: u64,
    pub client: u64,
}

/// Well-formedness of a single escrow record: a positive amount, a fee rate
/// of at most 10000 basis points, and a held balance that is exactly the
/// locked amount while `Locked` and exactly zero once settled.
pub open spec fn escrow_wf(e: EscrowAccount) -> bool {
    &&& e.amount > 0
    &&& e.fee_bps <= 10000
    &&& e.lamports == if e.status == EscrowStatus::Locked {
        e.amount
    } else {
        0u64
    }
}

/// The escrow record stored under `order_id`: the first record with that id,
/// or `None` if there is none. Under the market's uniqueness invariant the
/// first match is the only one.
pub open spec fn spec_escrow(s: Seq<EscrowAccount>, order_id: u64) -> Option<EscrowAccount>
    decreases s.len(),
{
    if s.len() == 0 {
        None
    } else if s[0].order_id == order_id {
        Some(s[0])
    } else {
        spec_escrow(s.drop_first(), order_id)
    }
}

/// If no record carries `order_id`, the lookup yields `None`.
pub proof fn lemma_escrow_absent(s: Seq<EscrowAccount>, order_id: u64)
    requires
        forall|j: int| 0 <= j < s.len() ==> s[j].order_id != order_id,
    ensures
        spec_escrow(s, order_id) is None,
    decreases s.len(),
{
    if s.len() > 0 {
        lemma_escrow_absent(s.drop_first(), order_id);
    }
}

/// The record at the first index carrying its order id is the one the lookup
/// yields.
pub proof fn lemma_escrow_at_index(s: Seq<EscrowAccount>, i: int)
    requires
        0 <= i < s.len(),
        forall|j: int| 0 <= j < i ==> s[j].order_id != s[i].order_id,
    ensures
        spec_escrow(s, s[i].order_id) == Some(s[i]),
    decreases s.len(),
{
    if i > 0 {
        lemma_escrow_at_index(s.drop_first(), i - 1);
    }
}

/// Replacing the first record that carries an order id, with a record that
/// keeps that id, changes the lookup only at that id.
pub proof fn lemma_escrow_update(s: Seq<EscrowAccount>, i: int, e: EscrowAccount, order_id: u64)
    requires
        0 <= i < s.len(),
        e.order_id == s[i].order_id,
        forall|j: int| 0 <= j < i ==> s[j].order_id != s[i].order_id,
    ensures
        spec_escrow(s.update(i, e), order_id) == if order_id == e.order_id {
            Some(e)
        } else {
            spec_escrow(s, order_id)
        },
    decreases s.len(),
{
    if i == 0 {
        assert(s.update(0, e).drop_first() =~= s.drop_first());
    } else {
        assert(s.update(i, e).drop_first() =~= s.drop_first().update(i - 1, e));
        lemma_escrow_update(s.drop_first(), i - 1, e, order_id);
    }
}

/// Appending a record with a fresh order id changes the lookup only at that
/// id.
pub proof fn lemma_escrow_push(s: Seq<EscrowAccount>, e: EscrowAccount, order_id: u64)
    requires
        forall|j: int| 0 <= j < s.len() ==> s[j].order_id != e.order_id,
    ensures
        spec_escrow(s.push(e), order_id) == if order_id == e.order_id {
            Some(e)
        } else {
            spec_escrow(s, order_id)
        },
    decreases s.len(),
{
    if s.len() == 0 {
        assert(s.push(e)[0] == e);
        assert(s.push(e).drop_first() =~= Seq::<EscrowAccount>::empty());
        lemma_escrow_absent(s.push(e).drop_first(), order_id);
    } else {
        assert(s.push(e)[0] == s[0]);
        assert(s.push(e).drop_first() =~= s.drop_first().push(e));
        lemma_escrow_push(s.drop_first(), e, order_id);
    }
}

/// The total of the balances held at the escrow records' own addresses.
pub open spec fn sum_escrow_lamports(s: Seq<EscrowAccount>) -> int
    decreases s.len(),
{
    if s.len() == 0 {
        0
    } else {
        s[0].lamports + sum_escrow_lamports(s.drop_first())
    }
}

/// Replacing one record changes the total by the difference of its held
/// balance.
pub proof fn lemma_sum_escrow_update(s: Seq<EscrowAccount>, i: int, e: EscrowAccount)
    requires
        0 <= i < s.len(),
    ensures
        sum_escrow_lamports(s.update(i, e)) == sum_escrow_lamports(s) - s[i].lamports + e.lamports,
    decreases s.len(),
{
    if i == 0 {
        assert(s.update(0, e).drop_first() =~= s.drop_first());
    } else {
        assert(s.update(i, e).drop_first() =~= s.drop_first().update(i - 1, e));
        lemma_sum_escrow_update(s.drop_first(), i - 1, e);
    }
}

/// Appending a record adds its held balance to the total.
pub proof fn lemma_sum_escrow_push(s: Seq<EscrowAccount>, e: EscrowAccount)
    ensures
        sum_escrow_lamports(s.push(e)) == sum_escrow_lamports(s) + e.lamports,
    decreases s.len(),
{
    if s.len() == 0 {
        assert(s.push(e)[0] == e);
        assert(s.push(e).drop_first() =~= Seq::<EscrowAccount>::empty());
        assert(sum_escrow_lamports(Seq::<EscrowAccount>::empty()) == 0);
    } else {
        assert(s.push(e)[0] == s[0]);
        assert(s.push(e).drop_first() =~= s.drop_first().push(e));
        lemma_sum_escrow_push(s.drop_first(), e);
    }
}

/// Index of the first record carrying `order_id`, if any.
pub fn find_escrow_index(escrows: &Vec<EscrowAccount>, order_id: u64) -> (r: Option<usize>)
    ensures
        match r {
            Some(i) => {
                &&& i < escrows@.len()
                &&& escrows@[i as int].order_id == order_id
                &&& forall|j: int| 0 <= j < i ==> escrows@[j].order_id != order_id
            },
            None => forall|j: int| 0 <= j < escrows@.len() ==> escrows@[j].order_id != order_id,
        },
{
    let mut i: usize = 0;
    while i < escrows.len()
        invariant
            i <= escrows@.len(),
            forall|j: int| 0 <= j < i ==> escrows@[j].order_id != order_id,
        decreases escrows@.len() - i,
    {
        if escrows[i].order_id == order_id {
            return Some(i);
        }
        i = i + 1;
    }
    None
}

} // verus!
