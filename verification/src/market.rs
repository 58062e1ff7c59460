//! The market: the treasury singleton, the escrow records, the wallet
//! balances, and the protocol operations over them.

use vstd::prelude::*;

use crate::fee::compute_fee;
use crate::fee::spec_fee;
use crate::ledger::find_wallet_index;
use crate::ledger::lemma_balance_absent;
use crate::ledger::lemma_balance_at_index;
use crate::ledger::lemma_balance_push;
use crate::ledger::lemma_balance_update;
use crate::ledger::lemma_sum_wallets_push;
use crate::ledger::lemma_sum_wallets_update;
use crate::ledger::spec_balance;
use crate::ledger::sum_wallets;
use crate::ledger::Wallet;
use crate::state::escrow_wf;
use crate::state::find_escrow_index;
use crate::state::lemma_escrow_absent;
use crate::state::lemma_escrow_at_index;
use crate::state::lemma_escrow_push;
use crate::state::lemma_escrow_update;
use crate::state::lemma_sum_escrow_push;
use crate::state::lemma_sum_escrow_update;
use crate::state::spec_escrow;
use crate::state::sum_escrow_lamports;
use crate::state::CreateEscrow;
use crate::state::EscrowAccount;
use crate::state::EscrowStatus;
use crate::state::InitializeTreasury;
use crate::state::RefundEscrow;
use crate::state::ReleaseEscrow;
use crate::state::ShillMarketError;
use crate::state::Treasury;

verus! {

/// The failure, if any, of initializing the treasury with `fee_bps`: an
/// inadmissible fee rate is rejected, and the singleton cannot be created
/// twice.
pub open spec fn spec_initialize_treasury_err(m: Market, fee_bps: u16) -> Option<
    ShillMarketError,
> {
    if fee_bps > 10000 {
        Some(ShillMarketError::InvalidFeeBps)
    } else if m.treasury is Some {
        Some(ShillMarketError::AccountAlreadyExists)
    } else {
        None
    }
}

/// The failure, if any, of creating an escrow: an inadmissible fee rate, a
/// zero amount, an order that already has an escrow, or a client balance
/// that cannot cover the amount.
pub open spec fn spec_create_escrow_err(
    m: Market,
    ctx: CreateEscrow,
    order_id: u64,
    amount: u64,
    fee_bps: u16,
) -> Option<ShillMarketError> {
    if fee_bps > 10000 {
        Some(ShillMarketError::InvalidFeeBps)
    } else if amount == 0 {
        Some(ShillMarketError::InsufficientFunds)
    } else if spec_escrow(m.escrows@, order_id) is Some {
        Some(ShillMarketError::AccountAlreadyExists)
    } else if spec_balance(m.wallets@, ctx.client) < amount {
        Some(ShillMarketError::InsufficientFunds)
    } else {
        None
    }
}

/// The failure, if any, of releasing an escrow: a caller that is not the
/// treasury authority, a missing escrow, a payee other than the stored
/// executor, an escrow that is no longer `Locked`, or a credit that would
/// overflow a balance.
pub open spec fn spec_release_escrow_err(m: Market, ctx: ReleaseEscrow, order_id: u64) -> Option<
    ShillMarketError,
> {
    if m.treasury is None || ctx.authority != m.treasury.unwrap().authority {
        Some(ShillMarketError::Unauthorized)
    } else if spec_escrow(m.escrows@, order_id) is None {
        Some(ShillMarketError::EscrowNotFound)
    } else {
        let e = spec_escrow(m.escrows@, order_id).unwrap();
        let fee = spec_fee(e.amount, e.fee_bps);
        if ctx.executor != e.executor {
            Some(ShillMarketError::Unauthorized)
        } else if e.status != EscrowStatus::Locked {
            Some(ShillMarketError::EscrowNotLocked)
        } else if spec_balance(m.wallets@, ctx.executor) + (e.amount - fee) > u64::MAX
            || m.treasury.unwrap().lamports + fee > u64::MAX {
            Some(ShillMarketError::ArithmeticOverflow)
        } else {
            None
        }
    }
}

/// The failure, if any, of refunding an escrow: a caller that is not the
/// treasury authority, a missing escrow, a payee other than the stored
/// client, an escrow that is no longer `Locked`, or a credit that would
/// overflow the client's balance.
pub open spec fn spec_refund_escrow_err(m: Market, ctx: RefundEscrow, order_id: u64) -> Option<
    ShillMarketError,
> {
    if m.treasury is None || ctx.authority != m.treasury.unwrap().authority {
        Some(ShillMarketError::Unauthorized)
    } else if spec_escrow(m.escrows@, order_id) is None {
        Some(ShillMarketError::EscrowNotFound)
    } else {
        let e = spec_escrow(m.escrows@, order_id).unwrap();
        if ctx.client != e.client {
            Some(ShillMarketError::Unauthorized)
        } else if e.status != EscrowStatus::Locked {
            Some(ShillMarketError::EscrowNotLocked)
        } else if spec_balance(m.wallets@, ctx.client) + e.amount > u64::MAX {
            Some(ShillMarketError::ArithmeticOverflow)
        } else {
            None
        }
    }
}

/// The whole protocol state: the treasury singleton (absent until
/// initialization), one escrow record per order, and one wallet per funded
/// external identity.
pub struct Market {
    pub treasury: Option<Treasury>,
    pub escrows: Vec<EscrowAccount>,
    pub wallets: Vec<Wallet>,
}

/// Every lamport the model holds anywhere: the wallet balances, the balances
/// held at the escrow records' own addresses, and the treasury's collected
/// fees. Conservation of funds is stated over this total: only a deposit
/// from outside raises it, and no protocol operation changes it.
pub open spec fn total_lamports(m: Market) -> int {
    sum_wallets(m.wallets@) + sum_escrow_lamports(m.escrows@) + match m.treasury {
        Some(t) => t.lamports as int,
        None => 0,
    }
}

impl Market {
    /// The global invariant: an admissible treasury fee rate, pairwise
    /// distinct order ids, well-formed escrow records, and pairwise distinct
    /// wallet addresses.
    pub open spec fn wf(self) -> bool {
        &&& match self.treasury {
            Some(t) => t.fee_bps <= 10000,
            None => true,
        }
        &&& forall|i: int, j: int|
            0 <= i < j < self.escrows@.len() ==> #[trigger] self.escrows@[i].order_id
                != #[trigger] self.escrows@[j].order_id
        &&& forall|i: int| 0 <= i < self.escrows@.len() ==> escrow_wf(#[trigger] self.escrows@[i])
        &&& forall|i: int, j: int|
            0 <= i < j < self.wallets@.len() ==> #[trigger] self.wallets@[i].address
                != #[trigger] self.wallets@[j].address
    }

    /// An empty deployment: no treasury, no escrows, no funded wallets.
    pub fn new() -> (r: Market)
        ensures
            r.wf(),
            r.treasury is None,
            r.escrows@.len() == 0,
            r.wallets@.len() == 0,
            total_lamports(r) == 0,
    {
        Market { treasury: None, escrows: Vec::new(), wallets: Vec::new() }
    }

    /// The spendable balance of an external identity.
    pub fn balance_of(&self, address: u64) -> (r: u64)
        requires
            self.wf(),
        ensures
            r == spec_balance(self.wallets@, address),
    {
        match find_wallet_index(&self.wallets, address) {
            Some(i) => {
                proof {
                    lemma_balance_at_index(self.wallets@, i as int);
                }
                self.wallets[i].lamports
            },
            None => {
                proof {
                    lemma_balance_absent(self.wallets@, address);
                }
                0
            },
        }
    }

    /// The escrow record stored for an order, if any.
    pub fn get_escrow(&self, order_id: u64) -> (r: Option<EscrowAccount>)
        requires
            self.wf(),
        ensures
            r == spec_escrow(self.escrows@, order_id),
    {
        match find_escrow_index(&self.escrows, order_id) {
            Some(i) => {
                proof {
                    lemma_escrow_at_index(self.escrows@, i as int);
                }
                Some(self.escrows[i])
            },
            None => {
                proof {
                    lemma_escrow_absent(self.escrows@, order_id);
                }
                None
            },
        }
    }

    /// Funds an external identity from outside the protocol, modelling the
    /// deposits the ledger substrate would perform. Fails, with no effect,
    /// only when the wallet's balance would overflow.
    pub fn deposit(&mut self, address: u64, amount: u64) -> (r: Result<(), ShillMarketError>)
        requires
            old(self).wf(),
        ensures
            final(self).wf(),
            final(self).treasury == old(self).treasury,
            final(self).escrows@ == old(self).escrows@,
            match r {
                Ok(()) => {
                    &&& spec_balance(old(self).wallets@, address) + amount <= u64::MAX
                    &&& total_lamports(*final(self)) == total_lamports(*old(self)) + amount
                    &&& spec_balance(final(self).wallets@, address) == spec_balance(
                        old(self).wallets@,
                        address,
                    ) + amount
                    &&& forall|a: u64|
                        a != address ==> #[trigger] spec_balance(final(self).wallets@, a)
                            == spec_balance(old(self).wallets@, a)
                },
                Err(e) => {
                    &&& e == ShillMarketError::ArithmeticOverflow
                    &&& spec_balance(old(self).wallets@, address) + amount > u64::MAX
                    &&& final(self).wallets@ == old(self).wallets@
                },
            },
    {
        match find_wallet_index(&self.wallets, address) {
            Some(i) => {
                proof {
                    lemma_balance_at_index(self.wallets@, i as int);
                }
                let held: u64 = self.wallets[i].lamports;
                if held > u64::MAX - amount {
                    return Err(ShillMarketError::ArithmeticOverflow);
                }
                let ghost before = self.wallets@;
                self.wallets[i] = Wallet { address, lamports: held + amount };
                proof {
                    assert forall|a: u64|
                        a != address implies #[trigger] spec_balance(self.wallets@, a)
                        == spec_balance(before, a) by {
                        lemma_balance_update(
                            before,
                            i as int,
                            Wallet { address, lamports: (held + amount) as u64 },
                            a,
                        );
                    }
                    lemma_balance_update(
                        before,
                        i as int,
                        Wallet { address, lamports: (held + amount) as u64 },
                        address,
                    );
                    lemma_sum_wallets_update(
                        before,
                        i as int,
                        Wallet { address, lamports: (held + amount) as u64 },
                    );
                }
                Ok(())
            },
            None => {
                proof {
                    lemma_balance_absent(self.wallets@, address);
                }
                let ghost before = self.wallets@;
                self.wallets.push(Wallet { address, lamports: amount });
                proof {
                    assert forall|a: u64|
                        a != address implies #[trigger] spec_balance(self.wallets@, a)
                        == spec_balance(before, a) by {
                        lemma_balance_push(before, Wallet { address, lamports: amount }, a);
                    }
                    lemma_balance_push(before, Wallet { address, lamports: amount }, address);
                    lemma_sum_wallets_push(before, Wallet { address, lamports: amount });
                }
                Ok(())
            },
        }
    }

    /// Creates the treasury singleton, recording the signing caller as the
    /// settlement authority and `fee_bps` as the default fee rate. Rejects a
    /// fee rate over 10000 basis points, and a second initialization.
    pub fn initialize_treasury(&mut self, ctx: InitializeTreasury, fee_bps: u16) -> (r: Result<
        (),
        ShillMarketError,
    >)
        requires
            old(self).wf(),
        ensures
            final(self).wf(),
            final(self).escrows@ == old(self).escrows@,
            final(self).wallets@ == old(self).wallets@,
            match r {
                Ok(()) => {
                    &&& spec_initialize_treasury_err(*old(self), fee_bps) is None
                    &&& total_lamports(*final(self)) == total_lamports(*old(self))
                    &&& final(self).treasury == Some(
                        Treasury { authority: ctx.authority, fee_bps, lamports: 0u64 },
                    )
                },
                Err(e) => {
                    &&& Some(e) == spec_initialize_treasury_err(*old(self), fee_bps)
                    &&& final(self).treasury == old(self).treasury
                },
            },
    {
        if fee_bps > 10000 {
            return Err(ShillMarketError::InvalidFeeBps);
        }
        if self.treasury.is_some() {
            return Err(ShillMarketError::AccountAlreadyExists);
        }
        self.treasury = Some(Treasury { authority: ctx.authority, fee_bps, lamports: 0 });
        Ok(())
    }

    /// Creates the escrow for `order_id`: validates the fee rate and the
    /// amount, rejects an order that already has an escrow, moves `amount`
    /// from the signing client's wallet into the new record, and locks it
    /// with the designated executor and the creation time. On any failure
    /// nothing is created and no balance moves.
    pub fn create_escrow(
        &mut self,
        ctx: CreateEscrow,
        order_id: u64,
        amount: u64,
        fee_bps: u16,
        now: i64,
    ) -> (r: Result<(), ShillMarketError>)
        requires
            old(self).wf(),
        ensures
            final(self).wf(),
            final(self).treasury == old(self).treasury,
            match r {
                Ok(()) => {
                    &&& spec_create_escrow_err(*old(self), ctx, order_id, amount, fee_bps) is None
                    &&& total_lamports(*final(self)) == total_lamports(*old(self))
                    &&& spec_escrow(final(self).escrows@, order_id) == Some(
                        EscrowAccount {
                            order_id,
                            client: ctx.client,
                            executor: ctx.executor,
                            amount,
                            fee_bps,
                            status: EscrowStatus::Locked,
                            created_at: now,
                            lamports: amount,
                        },
                    )
                    &&& forall|id: u64|
                        id != order_id ==> #[trigger] spec_escrow(final(self).escrows@, id)
                            == spec_escrow(old(self).escrows@, id)
                    &&& spec_balance(final(self).wallets@, ctx.client) == spec_balance(
                        old(self).wallets@,
                        ctx.client,
                    ) - amount
                    &&& forall|a: u64|
                        a != ctx.client ==> #[trigger] spec_balance(final(self).wallets@, a)
                            == spec_balance(old(self).wallets@, a)
                },
                Err(e) => {
                    &&& Some(e) == spec_create_escrow_err(*old(self), ctx, order_id, amount, fee_bps)
                    &&& final(self).escrows@ == old(self).escrows@
                    &&& final(self).wallets@ == old(self).wallets@
                },
            },
    {
        if fee_bps > 10000 {
            return Err(ShillMarketError::InvalidFeeBps);
        }
        if amount == 0 {
            return Err(ShillMarketError::InsufficientFunds);
        }
        match find_escrow_index(&self.escrows, order_id) {
            Some(i) => {
                proof {
                    lemma_escrow_at_index(self.escrows@, i as int);
                }
                return Err(ShillMarketError::AccountAlreadyExists);
            },
            None => {
                proof {
                    lemma_escrow_absent(self.escrows@, order_id);
                }
            },
        }
        match find_wallet_index(&self.wallets, ctx.client) {
            None => {
                proof {
                    lemma_balance_absent(self.wallets@, ctx.client);
                }
                Err(ShillMarketError::InsufficientFunds)
            },
            Some(wi) => {
                proof {
                    lemma_balance_at_index(self.wallets@, wi as int);
                }
                let held: u64 = self.wallets[wi].lamports;
                if held < amount {
                    return Err(ShillMarketError::InsufficientFunds);
                }
                let ghost wallets0 = self.wallets@;
                let ghost escrows0 = self.escrows@;
                let debited = Wallet { address: ctx.client, lamports: held - amount };
                self.wallets[wi] = debited;
                let e = EscrowAccount {
                    order_id,
                    client: ctx.client,
                    executor: ctx.executor,
                    amount,
                    fee_bps,
                    status: EscrowStatus::Locked,
                    created_at: now,
                    lamports: amount,
                };
                self.escrows.push(e);
                proof {
                    assert forall|a: u64|
                        a != ctx.client implies #[trigger] spec_balance(self.wallets@, a)
                        == spec_balance(wallets0, a) by {
                        lemma_balance_update(wallets0, wi as int, debited, a);
                    }
                    lemma_balance_update(wallets0, wi as int, debited, ctx.client);
                    assert forall|id: u64|
                        id != order_id implies #[trigger] spec_escrow(self.escrows@, id)
                        == spec_escrow(escrows0, id) by {
                        lemma_escrow_push(escrows0, e, id);
                    }
                    lemma_escrow_push(escrows0, e, order_id);
                    lemma_sum_wallets_update(wallets0, wi as int, debited);
                    lemma_sum_escrow_push(escrows0, e);
                }
                Ok(())
            },
        }
    }

    /// Releases the escrow for `order_id`: pays the stored executor the
    /// amount minus the platform fee, pays the fee into the treasury, and
    /// marks the escrow `Released`, draining its held balance to zero. Only
    /// the treasury authority may call it, only with the stored executor as
    /// payee, and only while the escrow is `Locked`; on any failure nothing
    /// changes, so a `Locked` escrow stays retryable.
    pub fn release_escrow(&mut self, ctx: ReleaseEscrow, order_id: u64) -> (r: Result<
        (),
        ShillMarketError,
    >)
        requires
            old(self).wf(),
        ensures
            final(self).wf(),
            match r {
                Ok(()) => ({
                    let t = old(self).treasury.unwrap();
                    let e = spec_escrow(old(self).escrows@, order_id).unwrap();
                    let fee = spec_fee(e.amount, e.fee_bps);
                    &&& spec_release_escrow_err(*old(self), ctx, order_id) is None
                    &&& total_lamports(*final(self)) == total_lamports(*old(self))
                    &&& 0 <= fee <= e.amount
                    &&& fee + (e.amount - fee) == e.amount
                    &&& spec_escrow(final(self).escrows@, order_id) == Some(
                        EscrowAccount {
                            order_id: e.order_id,
                            client: e.client,
                            executor: e.executor,
                            amount: e.amount,
                            fee_bps: e.fee_bps,
                            status: EscrowStatus::Released,
                            created_at: e.created_at,
                            lamports: 0u64,
                        },
                    )
                    &&& forall|id: u64|
                        id != order_id ==> #[trigger] spec_escrow(final(self).escrows@, id)
                            == spec_escrow(old(self).escrows@, id)
                    &&& spec_balance(final(self).wallets@, ctx.executor) == spec_balance(
                        old(self).wallets@,
                        ctx.executor,
                    ) + (e.amount - fee)
                    &&& forall|a: u64|
                        a != ctx.executor ==> #[trigger] spec_balance(final(self).wallets@, a)
                            == spec_balance(old(self).wallets@, a)
                    &&& t.lamports + fee <= u64::MAX
                    &&& final(self).treasury == Some(
                        Treasury {
                            authority: t.authority,
                            fee_bps: t.fee_bps,
                            lamports: (t.lamports + fee) as u64,
                        },
                    )
                }),
                Err(e) => {
                    &&& Some(e) == spec_release_escrow_err(*old(self), ctx, order_id)
                    &&& final(self).treasury == old(self).treasury
                    &&& final(self).escrows@ == old(self).escrows@
                    &&& final(self).wallets@ == old(self).wallets@
                },
            },
    {
        let t = match self.treasury {
            None => {
                return Err(ShillMarketError::Unauthorized);
            },
            Some(t) => t,
        };
        if ctx.authority != t.authority {
            return Err(ShillMarketError::Unauthorized);
        }
        let ei = match find_escrow_index(&self.escrows, order_id) {
            None => {
                proof {
                    lemma_escrow_absent(self.escrows@, order_id);
                }
                return Err(ShillMarketError::EscrowNotFound);
            },
            Some(i) => i,
        };
        proof {
            lemma_escrow_at_index(self.escrows@, ei as int);
        }
        let e = self.escrows[ei];
        if ctx.executor != e.executor {
            return Err(ShillMarketError::Unauthorized);
        }
        if e.status != EscrowStatus::Locked {
            return Err(ShillMarketError::EscrowNotLocked);
        }
        let fee = compute_fee(e.amount, e.fee_bps);
        let executor_amount = e.amount - fee;
        let wi = find_wallet_index(&self.wallets, ctx.executor);
        let held: u64 = match wi {
            Some(i) => {
                proof {
                    lemma_balance_at_index(self.wallets@, i as int);
                }
                self.wallets[i].lamports
            },
            None => {
                proof {
                    lemma_balance_absent(self.wallets@, ctx.executor);
                }
                0
            },
        };
        if held > u64::MAX - executor_amount {
            return Err(ShillMarketError::ArithmeticOverflow);
        }
        if t.lamports > u64::MAX - fee {
            return Err(ShillMarketError::ArithmeticOverflow);
        }
        let ghost wallets0 = self.wallets@;
        let ghost escrows0 = self.escrows@;
        let settled = EscrowAccount {
            order_id: e.order_id,
            client: e.client,
            executor: e.executor,
            amount: e.amount,
            fee_bps: e.fee_bps,
            status: EscrowStatus::Released,
            created_at: e.created_at,
            lamports: 0,
        };
        self.escrows[ei] = settled;
        let paid = Wallet { address: ctx.executor, lamports: held + executor_amount };
        match wi {
            Some(i) => {
                self.wallets[i] = paid;
            },
            None => {
                self.wallets.push(paid);
            },
        }
        self.treasury = Some(
            Treasury { authority: t.authority, fee_bps: t.fee_bps, lamports: t.lamports + fee },
        );
        proof {
            assert forall|id: u64|
                id != order_id implies #[trigger] spec_escrow(self.escrows@, id) == spec_escrow(
                escrows0,
                id,
            ) by {
                lemma_escrow_update(escrows0, ei as int, settled, id);
            }
            lemma_escrow_update(escrows0, ei as int, settled, order_id);
            if wi is Some {
                let i = wi.unwrap() as int;
                assert forall|a: u64|
                    a != ctx.executor implies #[trigger] spec_balance(self.wallets@, a)
                    == spec_balance(wallets0, a) by {
                    lemma_balance_update(wallets0, i, paid, a);
                }
                lemma_balance_update(wallets0, i, paid, ctx.executor);
                lemma_sum_wallets_update(wallets0, i, paid);
            } else {
                assert forall|a: u64|
                    a != ctx.executor implies #[trigger] spec_balance(self.wallets@, a)
                    == spec_balance(wallets0, a) by {
                    lemma_balance_push(wallets0, paid, a);
                }
                lemma_balance_push(wallets0, paid, ctx.executor);
                lemma_sum_wallets_push(wallets0, paid);
            }
            assert(escrows0[ei as int] == e);
            lemma_sum_escrow_update(escrows0, ei as int, settled);
            assert forall|x: int|
                0 <= x < self.escrows@.len() implies escrow_wf(#[trigger] self.escrows@[x]) by {
                assert(escrow_wf(escrows0[x]));
            }
            assert forall|x: int, y: int|
                0 <= x < y < self.escrows@.len() implies #[trigger] self.escrows@[x].order_id
                != #[trigger] self.escrows@[y].order_id by {
                assert(self.escrows@[x].order_id == escrows0[x].order_id);
                assert(self.escrows@[y].order_id == escrows0[y].order_id);
            }
        }
        Ok(())
    }

    /// Refunds the escrow for `order_id`: returns the full locked amount to
    /// the stored client, takes no fee, and marks the escrow `Refunded`,
    /// draining its held balance to zero. Only the treasury authority may
    /// call it, only with the stored client as payee, and only while the
    /// escrow is `Locked`; on any failure nothing changes.
    pub fn refund_escrow(&mut self, ctx: RefundEscrow, order_id: u64) -> (r: Result<
        (),
        ShillMarketError,
    >)
        requires
            old(self).wf(),
        ensures
            final(self).wf(),
            final(self).treasury == old(self).treasury,
            match r {
                Ok(()) => ({
                    let e = spec_escrow(old(self).escrows@, order_id).unwrap();
                    &&& spec_refund_escrow_err(*old(self), ctx, order_id) is None
                    &&& total_lamports(*final(self)) == total_lamports(*old(self))
                    &&& spec_escrow(final(self).escrows@, order_id) == Some(
                        EscrowAccount {
                            order_id: e.order_id,
                            client: e.client,
                            executor: e.executor,
                            amount: e.amount,
                            fee_bps: e.fee_bps,
                            status: EscrowStatus::Refunded,
                            created_at: e.created_at,
                            lamports: 0u64,
                        },
                    )
                    &&& forall|id: u64|
                        id != order_id ==> #[trigger] spec_escrow(final(self).escrows@, id)
                            == spec_escrow(old(self).escrows@, id)
                    &&& spec_balance(final(self).wallets@, ctx.client) == spec_balance(
                        old(self).wallets@,
                        ctx.client,
                    ) + e.amount
                    &&& forall|a: u64|
                        a != ctx.client ==> #[trigger] spec_balance(final(self).wallets@, a)
                            == spec_balance(old(self).wallets@, a)
                }),
                Err(e) => {
                    &&& Some(e) == spec_refund_escrow_err(*old(self), ctx, order_id)
                    &&& final(self).escrows@ == old(self).escrows@
                    &&& final(self).wallets@ == old(self).wallets@
                },
            },
    {
        let t = match self.treasury {
            None => {
                return Err(ShillMarketError::Unauthorized);
            },
            Some(t) => t,
        };
        if ctx.authority != t.authority {
            return Err(ShillMarketError::Unauthorized);
        }
        let ei = match find_escrow_index(&self.escrows, order_id) {
            None => {
                proof {
                    lemma_escrow_absent(self.escrows@, order_id);
                }
                return Err(ShillMarketError::EscrowNotFound);
            },
            Some(i) => i,
        };
        proof {
            lemma_escrow_at_index(self.escrows@, ei as int);
        }
        let e = self.escrows[ei];
        if ctx.client != e.client {
            return Err(ShillMarketError::Unauthorized);
        }
        if e.status != EscrowStatus::Locked {
            return Err(ShillMarketError::EscrowNotLocked);
        }
        let wi = find_wallet_index(&self.wallets, ctx.client);
        let held: u64 = match wi {
            Some(i) => {
                proof {
                    lemma_balance_at_index(self.wallets@, i as int);
                }
                self.wallets[i].lamports
            },
            None => {
                proof {
                    lemma_balance_absent(self.wallets@, ctx.client);
                }
                0
            },
        };
        if held > u64::MAX - e.amount {
            return Err(ShillMarketError::ArithmeticOverflow);
        }
        let ghost wallets0 = self.wallets@;
        let ghost escrows0 = self.escrows@;
        let settled = EscrowAccount {
            order_id: e.order_id,
            client: e.client,
            executor: e.executor,
            amount: e.amount,
            fee_bps: e.fee_bps,
            status: EscrowStatus::Refunded,
            created_at: e.created_at,
            lamports: 0,
        };
        self.escrows[ei] = settled;
        let repaid = Wallet { address: ctx.client, lamports: held + e.amount };
        match wi {
            Some(i) => {
                self.wallets[i] = repaid;
            },
            None => {
                self.wallets.push(repaid);
            },
        }
        proof {
            assert forall|id: u64|
                id != order_id implies #[trigger] spec_escrow(self.escrows@, id) == spec_escrow(
                escrows0,
                id,
            ) by {
                lemma_escrow_update(escrows0, ei as int, settled, id);
            }
            lemma_escrow_update(escrows0, ei as int, settled, order_id);
            if wi is Some {
                let i = wi.unwrap() as int;
                assert forall|a: u64|
                    a != ctx.client implies #[trigger] spec_balance(self.wallets@, a)
                    == spec_balance(wallets0, a) by {
                    lemma_balance_update(wallets0, i, repaid, a);
                }
                lemma_balance_update(wallets0, i, repaid, ctx.client);
                lemma_sum_wallets_update(wallets0, i, repaid);
            } else {
                assert forall|a: u64|
                    a != ctx.client implies #[trigger] spec_balance(self.wallets@, a)
                    == spec_balance(wallets0, a) by {
                    lemma_balance_push(wallets0, repaid, a);
                }
                lemma_balance_push(wallets0, repaid, ctx.client);
                lemma_sum_wallets_push(wallets0, repaid);
            }
            assert(escrows0[ei as int] == e);
            lemma_sum_escrow_update(escrows0, ei as int, settled);
            assert forall|x: int|
                0 <= x < self.escrows@.len() implies escrow_wf(#[trigger] self.escrows@[x]) by {
                assert(escrow_wf(escrows0[x]));
            }
            assert forall|x: int, y: int|
                0 <= x < y < self.escrows@.len() implies #[trigger] self.escrows@[x].order_id
                != #[trigger] self.escrows@[y].order_id by {
                assert(self.escrows@[x].order_id == escrows0[x].order_id);
                assert(self.escrows@[y].order_id == escrows0[y].order_id);
            }
        }
        Ok(())
    }
}

} // verus!
