//! The protocol's cross-cutting guarantees, stated once over the
//! specification functions that the operations' contracts use. Together with
//! the operations' postconditions — which pin every success and every
//! failure to these functions and leave the state untouched on failure —
//! each law holds of every call sequence.

use vstd::prelude::*;

use crate::market::spec_create_escrow_err;
use crate::market::spec_refund_escrow_err;
use crate::market::spec_release_escrow_err;
use crate::market::Market;
use crate::state::spec_escrow;
use crate::state::CreateEscrow;
use crate::state::EscrowStatus;
use crate::state::RefundEscrow;
use crate::state::ReleaseEscrow;
use crate::state::ShillMarketError;

verus! {

/// Single settlement: once an escrow has left `Locked`, every further
/// release or refund of it — even by the authority, with the right payee —
/// fails with `EscrowNotLocked`. The operations' postconditions add that
/// such a failure changes nothing, and that no operation ever returns an
/// escrow to `Locked`, so a settled escrow is settled for good.
pub proof fn lemma_single_settlement(
    m: Market,
    rctx: ReleaseEscrow,
    fctx: RefundEscrow,
    order_id: u64,
)
    requires
        m.treasury is Some,
        spec_escrow(m.escrows@, order_id) is Some,
        spec_escrow(m.escrows@, order_id).unwrap().status != EscrowStatus::Locked,
        rctx.authority == m.treasury.unwrap().authority,
        rctx.executor == spec_escrow(m.escrows@, order_id).unwrap().executor,
        fctx.authority == m.treasury.unwrap().authority,
        fctx.client == spec_escrow(m.escrows@, order_id).unwrap().client,
    ensures
        spec_release_escrow_err(m, rctx, order_id) == Some(ShillMarketError::EscrowNotLocked),
        spec_refund_escrow_err(m, fctx, order_id) == Some(ShillMarketError::EscrowNotLocked),
{
}

/// Authorization: a release or refund whose caller is not the treasury
/// authority — in particular any caller at all while no treasury exists —
/// fails with `Unauthorized`. The operations' postconditions add that the
/// failure moves no balance.
pub proof fn lemma_settlement_requires_authority(
    m: Market,
    rctx: ReleaseEscrow,
    fctx: RefundEscrow,
    order_id: u64,
)
    requires
        m.treasury is Some ==> rctx.authority != m.treasury.unwrap().authority,
        m.treasury is Some ==> fctx.authority != m.treasury.unwrap().authority,
    ensures
        spec_release_escrow_err(m, rctx, order_id) == Some(ShillMarketError::Unauthorized),
        spec_refund_escrow_err(m, fctx, order_id) == Some(ShillMarketError::Unauthorized),
{
}

/// Payee integrity: a release whose payee is not the escrow's stored
/// executor, or a refund whose payee is not the escrow's stored client,
/// fails with `Unauthorized`, even when the caller is the authority. The
/// operations' postconditions add that the failure moves no balance.
pub proof fn lemma_payee_integrity(
    m: Market,
    rctx: ReleaseEscrow,
    fctx: RefundEscrow,
    order_id: u64,
)
    requires
        m.treasury is Some,
        rctx.authority == m.treasury.unwrap().authority,
        fctx.authority == m.treasury.unwrap().authority,
        spec_escrow(m.escrows@, order_id) is Some,
        rctx.executor != spec_escrow(m.escrows@, order_id).unwrap().executor,
        fctx.client != spec_escrow(m.escrows@, order_id).unwrap().client,
    ensures
        spec_release_escrow_err(m, rctx, order_id) == Some(ShillMarketError::Unauthorized),
        spec_refund_escrow_err(m, fctx, order_id) == Some(ShillMarketError::Unauthorized),
{
}

/// Creation validation: with an admissible fee rate, a zero amount is
/// rejected as `InsufficientFunds`; a fee rate over 10000 basis points is
/// rejected as `InvalidFeeBps` whatever the amount. The operation's
/// postcondition adds that a rejected creation leaves no escrow record.
pub proof fn lemma_create_escrow_validation(
    m: Market,
    ctx: CreateEscrow,
    order_id: u64,
    amount: u64,
    fee_bps: u16,
)
    ensures
        amount == 0 && fee_bps <= 10000 ==> spec_create_escrow_err(m, ctx, order_id, amount, fee_bps)
            == Some(ShillMarketError::InsufficientFunds),
        fee_bps > 10000 ==> spec_create_escrow_err(m, ctx, order_id, amount, fee_bps) == Some(
            ShillMarketError::InvalidFeeBps,
        ),
{
}

} // verus!
