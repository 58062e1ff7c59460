use shillmarket::compute_fee;
use shillmarket::CreateEscrow;
use shillmarket::EscrowStatus;
use shillmarket::InitializeTreasury;
use shillmarket::Market;
use shillmarket::RefundEscrow;
use shillmarket::ReleaseEscrow;
use shillmarket::ShillMarketError;

const AUTHORITY: u64 = 1;
const CLIENT: u64 = 10;
const EXECUTOR: u64 = 20;

/// A deployment with an initialized treasury at 500 bps, a client funded
/// with 2_000_000 lamports, and one locked escrow of 1_000_000 for order 1.
fn setup() -> Market {
    let mut m = Market::new();
    assert_eq!(m.deposit(CLIENT, 2_000_000), Ok(()));
    assert_eq!(m.initialize_treasury(InitializeTreasury { authority: AUTHORITY }, 500), Ok(()));
    assert_eq!(
        m.create_escrow(
            CreateEscrow { client: CLIENT, executor: EXECUTOR },
            1,
            1_000_000,
            500,
            1_700_000_000,
        ),
        Ok(())
    );
    m
}

#[test]
fn fee_exact_values() {
    assert_eq!(compute_fee(1_000_000, 500), 50_000);
    assert_eq!(compute_fee(1, 9_999), 0);
    assert_eq!(compute_fee(10_000, 1), 1);
    assert_eq!(compute_fee(123_456_789, 250), 3_086_419);
    assert_eq!(compute_fee(u64::MAX, 10_000), u64::MAX);
    assert_eq!(compute_fee(u64::MAX, 0), 0);
    assert_eq!(compute_fee(u64::MAX, 1), u64::MAX / 10_000);
}

#[test]
fn create_locks_the_amount() {
    let m = setup();
    let e = m.get_escrow(1).unwrap();
    assert_eq!(e.order_id, 1);
    assert_eq!(e.client, CLIENT);
    assert_eq!(e.executor, EXECUTOR);
    assert_eq!(e.amount, 1_000_000);
    assert_eq!(e.fee_bps, 500);
    assert_eq!(e.status, EscrowStatus::Locked);
    assert_eq!(e.created_at, 1_700_000_000);
    assert_eq!(e.lamports, 1_000_000);
    assert_eq!(m.balance_of(CLIENT), 1_000_000);
}

#[test]
fn release_pays_executor_and_treasury() {
    let mut m = setup();
    assert_eq!(
        m.release_escrow(ReleaseEscrow { authority: AUTHORITY, executor: EXECUTOR }, 1),
        Ok(())
    );
    assert_eq!(m.balance_of(EXECUTOR), 950_000);
    assert_eq!(m.treasury.unwrap().lamports, 50_000);
    assert_eq!(m.balance_of(CLIENT), 1_000_000);
    let e = m.get_escrow(1).unwrap();
    assert_eq!(e.status, EscrowStatus::Released);
    assert_eq!(e.lamports, 0);
}

#[test]
fn refund_returns_the_full_amount() {
    let mut m = setup();
    assert_eq!(m.refund_escrow(RefundEscrow { authority: AUTHORITY, client: CLIENT }, 1), Ok(()));
    assert_eq!(m.balance_of(CLIENT), 2_000_000);
    assert_eq!(m.balance_of(EXECUTOR), 0);
    assert_eq!(m.treasury.unwrap().lamports, 0);
    let e = m.get_escrow(1).unwrap();
    assert_eq!(e.status, EscrowStatus::Refunded);
    assert_eq!(e.lamports, 0);
}

#[test]
fn second_settlement_fails_whatever_the_order() {
    let mut m = setup();
    assert_eq!(
        m.release_escrow(ReleaseEscrow { authority: AUTHORITY, executor: EXECUTOR }, 1),
        Ok(())
    );
    assert_eq!(
        m.release_escrow(ReleaseEscrow { authority: AUTHORITY, executor: EXECUTOR }, 1),
        Err(ShillMarketError::EscrowNotLocked)
    );
    assert_eq!(
        m.refund_escrow(RefundEscrow { authority: AUTHORITY, client: CLIENT }, 1),
        Err(ShillMarketError::EscrowNotLocked)
    );
    assert_eq!(m.balance_of(EXECUTOR), 950_000);
    assert_eq!(m.treasury.unwrap().lamports, 50_000);

    let mut m2 = setup();
    assert_eq!(m2.refund_escrow(RefundEscrow { authority: AUTHORITY, client: CLIENT }, 1), Ok(()));
    assert_eq!(
        m2.release_escrow(ReleaseEscrow { authority: AUTHORITY, executor: EXECUTOR }, 1),
        Err(ShillMarketError::EscrowNotLocked)
    );
    assert_eq!(m2.balance_of(CLIENT), 2_000_000);
}

#[test]
fn zero_amount_creates_nothing() {
    let mut m = setup();
    assert_eq!(
        m.create_escrow(
            CreateEscrow { client: CLIENT, executor: EXECUTOR },
            2,
            0,
            500,
            1_700_000_000,
        ),
        Err(ShillMarketError::InsufficientFunds)
    );
    assert!(m.get_escrow(2).is_none());
    assert_eq!(m.balance_of(CLIENT), 1_000_000);
}

#[test]
fn oversized_fee_rate_is_rejected() {
    let mut m = setup();
    assert_eq!(
        m.create_escrow(
            CreateEscrow { client: CLIENT, executor: EXECUTOR },
            2,
            1_000,
            10_001,
            1_700_000_000,
        ),
        Err(ShillMarketError::InvalidFeeBps)
    );
    assert!(m.get_escrow(2).is_none());

    let mut fresh = Market::new();
    assert_eq!(
        fresh.initialize_treasury(InitializeTreasury { authority: AUTHORITY }, 10_001),
        Err(ShillMarketError::InvalidFeeBps)
    );
    assert!(fresh.treasury.is_none());
}

#[test]
fn settlement_requires_the_authority() {
    let mut m = setup();
    assert_eq!(
        m.release_escrow(ReleaseEscrow { authority: 99, executor: EXECUTOR }, 1),
        Err(ShillMarketError::Unauthorized)
    );
    assert_eq!(
        m.refund_escrow(RefundEscrow { authority: 99, client: CLIENT }, 1),
        Err(ShillMarketError::Unauthorized)
    );
    assert_eq!(m.balance_of(EXECUTOR), 0);
    assert_eq!(m.balance_of(CLIENT), 1_000_000);
    assert_eq!(m.treasury.unwrap().lamports, 0);
    assert_eq!(m.get_escrow(1).unwrap().status, EscrowStatus::Locked);
}

#[test]
fn settlement_rejects_a_substituted_payee() {
    let mut m = setup();
    assert_eq!(
        m.release_escrow(ReleaseEscrow { authority: AUTHORITY, executor: 99 }, 1),
        Err(ShillMarketError::Unauthorized)
    );
    assert_eq!(
        m.refund_escrow(RefundEscrow { authority: AUTHORITY, client: 99 }, 1),
        Err(ShillMarketError::Unauthorized)
    );
    assert_eq!(m.balance_of(99), 0);
    assert_eq!(m.balance_of(EXECUTOR), 0);
    assert_eq!(m.get_escrow(1).unwrap().status, EscrowStatus::Locked);
}

#[test]
fn one_escrow_per_order_and_one_treasury() {
    let mut m = setup();
    assert_eq!(
        m.create_escrow(
            CreateEscrow { client: CLIENT, executor: EXECUTOR },
            1,
            500_000,
            500,
            1_700_000_000,
        ),
        Err(ShillMarketError::AccountAlreadyExists)
    );
    assert_eq!(m.get_escrow(1).unwrap().amount, 1_000_000);
    assert_eq!(
        m.initialize_treasury(InitializeTreasury { authority: 99 }, 100),
        Err(ShillMarketError::AccountAlreadyExists)
    );
    assert_eq!(m.treasury.unwrap().authority, AUTHORITY);
}

#[test]
fn settling_an_unknown_order_fails() {
    let mut m = setup();
    assert_eq!(
        m.release_escrow(ReleaseEscrow { authority: AUTHORITY, executor: EXECUTOR }, 7),
        Err(ShillMarketError::EscrowNotFound)
    );
    assert_eq!(
        m.refund_escrow(RefundEscrow { authority: AUTHORITY, client: CLIENT }, 7),
        Err(ShillMarketError::EscrowNotFound)
    );
}

#[test]
fn creation_needs_a_funded_client() {
    let mut m = setup();
    assert_eq!(
        m.create_escrow(
            CreateEscrow { client: CLIENT, executor: EXECUTOR },
            2,
            1_000_001,
            500,
            1_700_000_000,
        ),
        Err(ShillMarketError::InsufficientFunds)
    );
    assert!(m.get_escrow(2).is_none());
    assert_eq!(
        m.create_escrow(CreateEscrow { client: 55, executor: EXECUTOR }, 2, 1, 500, 1_700_000_000),
        Err(ShillMarketError::InsufficientFunds)
    );
    assert!(m.get_escrow(2).is_none());
}

#[test]
fn zero_fee_rate_pays_the_executor_everything() {
    let mut m = Market::new();
    assert_eq!(m.deposit(CLIENT, 1_000_000), Ok(()));
    assert_eq!(m.initialize_treasury(InitializeTreasury { authority: AUTHORITY }, 0), Ok(()));
    assert_eq!(
        m.create_escrow(
            CreateEscrow { client: CLIENT, executor: EXECUTOR },
            1,
            1_000_000,
            0,
            7,
        ),
        Ok(())
    );
    assert_eq!(
        m.release_escrow(ReleaseEscrow { authority: AUTHORITY, executor: EXECUTOR }, 1),
        Ok(())
    );
    assert_eq!(m.balance_of(EXECUTOR), 1_000_000);
    assert_eq!(m.treasury.unwrap().lamports, 0);
}

#[test]
fn full_fee_rate_pays_the_treasury_everything() {
    let mut m = Market::new();
    assert_eq!(m.deposit(CLIENT, 1_000_000), Ok(()));
    assert_eq!(m.initialize_treasury(InitializeTreasury { authority: AUTHORITY }, 10_000), Ok(()));
    assert_eq!(
        m.create_escrow(
            CreateEscrow { client: CLIENT, executor: EXECUTOR },
            1,
            1_000_000,
            10_000,
            7,
        ),
        Ok(())
    );
    assert_eq!(
        m.release_escrow(ReleaseEscrow { authority: AUTHORITY, executor: EXECUTOR }, 1),
        Ok(())
    );
    assert_eq!(m.balance_of(EXECUTOR), 0);
    assert_eq!(m.treasury.unwrap().lamports, 1_000_000);
}

#[test]
fn overflowing_credit_aborts_and_leaves_the_escrow_locked() {
    let mut m = setup();
    assert_eq!(m.deposit(EXECUTOR, u64::MAX), Ok(()));
    assert_eq!(
        m.release_escrow(ReleaseEscrow { authority: AUTHORITY, executor: EXECUTOR }, 1),
        Err(ShillMarketError::ArithmeticOverflow)
    );
    assert_eq!(m.get_escrow(1).unwrap().status, EscrowStatus::Locked);
    assert_eq!(m.balance_of(EXECUTOR), u64::MAX);
    assert_eq!(m.treasury.unwrap().lamports, 0);
    // still retryable: the refund path does not touch the executor's wallet
    assert_eq!(m.refund_escrow(RefundEscrow { authority: AUTHORITY, client: CLIENT }, 1), Ok(()));
    assert_eq!(m.balance_of(CLIENT), 2_000_000);
}

#[test]
fn overflowing_deposit_is_rejected() {
    let mut m = Market::new();
    assert_eq!(m.deposit(CLIENT, u64::MAX), Ok(()));
    assert_eq!(m.deposit(CLIENT, 1), Err(ShillMarketError::ArithmeticOverflow));
    assert_eq!(m.balance_of(CLIENT), u64::MAX);
}

#[test]
fn amounts_of_one_lamport_settle_exactly() {
    let mut m = Market::new();
    assert_eq!(m.deposit(CLIENT, 1), Ok(()));
    assert_eq!(m.initialize_treasury(InitializeTreasury { authority: AUTHORITY }, 9_999), Ok(()));
    assert_eq!(
        m.create_escrow(CreateEscrow { client: CLIENT, executor: EXECUTOR }, 1, 1, 9_999, 7),
        Ok(())
    );
    assert_eq!(m.balance_of(CLIENT), 0);
    assert_eq!(
        m.release_escrow(ReleaseEscrow { authority: AUTHORITY, executor: EXECUTOR }, 1),
        Ok(())
    );
    // floor(1 * 9999 / 10000) == 0: the whole lamport goes to the executor
    assert_eq!(m.balance_of(EXECUTOR), 1);
    assert_eq!(m.treasury.unwrap().lamports, 0);
}
