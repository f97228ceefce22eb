use bridge_locker::address::{derive_address, system_program_id, token_program_id, Seed};
use bridge_locker::error::{LockerError, ProcessError};
use bridge_locker::instruction::{BurnAndRelease, Initialize, LockandMint, LockerInstruction, Mint, Release};
use bridge_locker::processor::{AccountInput, Effects, Invocation, Processor};
use bridge_locker::state::{BurnAndReleaseLog, LockAndMintLog, Locker, LOGSIZE, STATESIZE};
use solana_program::pubkey::Pubkey;

const PROGRAM: [u8; 32] = [7u8; 32];
const AUTHORITY: [u8; 32] = [9u8; 32];
const DESTINATION: [u8; 32] = [0xD0; 32];

fn pda(seed: &[u8]) -> ([u8; 32], u8) {
    let (key, bump) =
        Pubkey::find_program_address(&[b"Locker", seed], &Pubkey::new_from_array(PROGRAM));
    (key.to_bytes(), bump)
}

fn account(key: [u8; 32], is_signer: bool, data: Vec<u8>) -> AccountInput {
    AccountInput { key, owner: [0u8; 32], is_signer, data }
}

fn minter() -> AccountInput {
    AccountInput { key: [0x33; 32], owner: token_program_id(), is_signer: false, data: vec![] }
}

fn wide(v: u128) -> [u8; 32] {
    let mut out = [0u8; 32];
    out[16..].copy_from_slice(&v.to_be_bytes());
    out
}

fn run(accounts: &[AccountInput], op: LockerInstruction) -> Result<Effects, ProcessError> {
    Processor::process(&PROGRAM, accounts, &op.pack())
}

fn ledger_bytes(l: Locker) -> Vec<u8> {
    let mut data = vec![0u8; STATESIZE];
    Locker::pack(l, &mut data).unwrap();
    data
}

fn initialized(locked: u64, minted: u64) -> Vec<u8> {
    ledger_bytes(Locker { is_initialized: true, authority: AUTHORITY, total_locked: locked, total_minted: minted })
}

#[test]
fn derived_addresses_match_the_host() {
    for (seed, name) in [(Seed::Init, &b"Init"[..]), (Seed::Mint, &b"Mint"[..]), (Seed::Burn, &b"Burn"[..])] {
        assert_eq!(derive_address(&PROGRAM, seed), Some(pda(name)));
        assert_ne!(derive_address(&PROGRAM, seed).unwrap().0, PROGRAM);
    }
}

#[test]
fn program_ids_match_the_host() {
    assert_eq!(system_program_id(), solana_program::system_program::id().to_bytes());
    assert_eq!(token_program_id(), spl_token::id().to_bytes());
}

#[test]
fn lock_mint_burn_end_to_end() {
    let (state, state_bump) = pda(b"Init");
    let (mint_log, mint_bump) = pda(b"Mint");
    let (burn_log, burn_bump) = pda(b"Burn");

    let init = run(
        &[
            account(AUTHORITY, true, vec![]),
            account(state, false, vec![]),
            account(mint_log, false, vec![]),
            account(burn_log, false, vec![]),
            account(PROGRAM, false, vec![]),
            account(system_program_id(), false, vec![]),
            account([0x55; 32], false, vec![]),
        ],
        LockerInstruction::Initialize(Initialize { authority: AUTHORITY }),
    )
    .unwrap();
    assert_eq!(
        init.invocations,
        vec![
            Invocation::CreateAccount { payer: AUTHORITY, address: state, space: 49, owner: PROGRAM, seed: Seed::Init, bump: state_bump },
            Invocation::CreateAccount { payer: AUTHORITY, address: mint_log, space: 64, owner: PROGRAM, seed: Seed::Mint, bump: mint_bump },
            Invocation::CreateAccount { payer: AUTHORITY, address: burn_log, space: 64, owner: PROGRAM, seed: Seed::Burn, bump: burn_bump },
        ]
    );
    let ledger = init.ledger.unwrap();
    assert_eq!(ledger, Locker { is_initialized: true, authority: AUTHORITY, total_locked: 0, total_minted: 0 });
    let mut state_data = ledger_bytes(ledger);
    let mut mint_log_data = vec![0u8; LOGSIZE];
    let mut burn_log_data = vec![0u8; LOGSIZE];

    let lock = run(
        &[
            account(AUTHORITY, true, vec![]),
            account(state, false, state_data.clone()),
            account(mint_log, false, mint_log_data.clone()),
            account(system_program_id(), false, vec![]),
        ],
        LockerInstruction::LockAndMint(LockandMint { amount: 1_000_000_000, destination: DESTINATION }),
    )
    .unwrap();
    assert_eq!(
        lock.invocations,
        vec![Invocation::Transfer { from: AUTHORITY, to: state, lamports: 1_000_000_000, signer: None }]
    );
    let ledger = lock.ledger.unwrap();
    assert_eq!(ledger.total_locked, 1_000_000_000);
    assert_eq!(ledger.total_minted, 0);
    let log = lock.mint_log.unwrap();
    assert_eq!(log.amount, wide(1_000_000_000_000_000_000));
    assert_eq!(log.recipient, DESTINATION);
    state_data = ledger_bytes(ledger);
    LockAndMintLog::pack(log, &mut mint_log_data).unwrap();
    assert_eq!(LockAndMintLog::unpack_unchecked(&mint_log_data), Ok(log));

    let mint = run(
        &[
            account(AUTHORITY, true, vec![]),
            account(state, false, state_data.clone()),
            account([0x44; 32], false, vec![]),
            minter(),
            account(token_program_id(), false, vec![]),
        ],
        LockerInstruction::Mint(Mint { amount: 1_000_000_000 }),
    )
    .unwrap();
    assert_eq!(
        mint.invocations,
        vec![Invocation::MintTo {
            token_program: token_program_id(),
            mint: [0x33; 32],
            account: [0x44; 32],
            authority: AUTHORITY,
            amount: 1_000_000_000,
        }]
    );
    assert_eq!(mint.ledger.unwrap().total_minted, 1_000_000_000);
    state_data = ledger_bytes(mint.ledger.unwrap());

    let burn = run(
        &[
            account(AUTHORITY, true, vec![]),
            account(state, false, state_data.clone()),
            account(burn_log, false, burn_log_data.clone()),
            account([0x44; 32], false, vec![]),
            minter(),
            account(token_program_id(), false, vec![]),
        ],
        LockerInstruction::BurnAndRelease(BurnAndRelease { amount: 1_000_000_000, destination: DESTINATION }),
    )
    .unwrap();
    let ledger = burn.ledger.unwrap();
    assert_eq!(ledger.total_minted, 0);
    assert_eq!(ledger.total_locked, 1_000_000_000);
    let log = burn.burn_log.unwrap();
    assert_eq!(log.amount, wide(1_000_000_000_000_000_000));
    assert_eq!(log.recipient, DESTINATION);
    BurnAndReleaseLog::pack(log, &mut burn_log_data).unwrap();
    assert!(burn.mint_log.is_none());
}

#[test]
fn release_moves_funds_out_with_the_ledger_seeds() {
    let (state, bump) = pda(b"Init");
    let effects = run(
        &[
            account(AUTHORITY, true, vec![]),
            account(state, false, initialized(500, 0)),
            account([0x66; 32], false, vec![]),
            account(system_program_id(), false, vec![]),
        ],
        LockerInstruction::Release(Release { amount: 200 }),
    )
    .unwrap();
    assert_eq!(effects.ledger.unwrap().total_locked, 300);
    assert_eq!(
        effects.invocations,
        vec![Invocation::Transfer { from: state, to: [0x66; 32], lamports: 200, signer: Some((Seed::Init, bump)) }]
    );
}

#[test]
fn release_beyond_locked_aborts() {
    let (state, _) = pda(b"Init");
    let r = run(
        &[
            account(AUTHORITY, true, vec![]),
            account(state, false, initialized(500, 0)),
            account([0x66; 32], false, vec![]),
            account(system_program_id(), false, vec![]),
        ],
        LockerInstruction::Release(Release { amount: 501 }),
    );
    assert_eq!(r.err(), Some(ProcessError::ArithmeticOverflow));
}

#[test]
fn release_by_another_signer_is_refused() {
    let (state, _) = pda(b"Init");
    let r = run(
        &[
            account([1u8; 32], true, vec![]),
            account(state, false, initialized(500, 0)),
            account([0x66; 32], false, vec![]),
            account(system_program_id(), false, vec![]),
        ],
        LockerInstruction::Release(Release { amount: 1 }),
    );
    assert_eq!(r.err(), Some(ProcessError::Locker(LockerError::InvalidAuthority)));
}

#[test]
fn host_conditions_are_reported() {
    let (state, _) = pda(b"Init");
    let (mint_log, _) = pda(b"Mint");
    let lock = LockerInstruction::LockAndMint(LockandMint { amount: 1, destination: DESTINATION });
    let unsigned = run(&[account(AUTHORITY, false, vec![])], lock);
    assert_eq!(unsigned.err(), Some(ProcessError::MissingRequiredSignature));
    let missing = run(&[account(AUTHORITY, true, vec![])], lock);
    assert_eq!(missing.err(), Some(ProcessError::NotEnoughAccountKeys));
    let wrong_ledger = run(
        &[
            account(AUTHORITY, true, vec![]),
            account([2u8; 32], false, initialized(0, 0)),
            account(mint_log, false, vec![0u8; LOGSIZE]),
            account(system_program_id(), false, vec![]),
        ],
        lock,
    );
    assert_eq!(wrong_ledger.err(), Some(ProcessError::InvalidAccountData));
    let uninitialized = run(
        &[
            account(AUTHORITY, true, vec![]),
            account(state, false, vec![0u8; STATESIZE]),
            account(mint_log, false, vec![0u8; LOGSIZE]),
            account(system_program_id(), false, vec![]),
        ],
        lock,
    );
    assert_eq!(uninitialized.err(), Some(ProcessError::UninitializedAccount));
    let overflow = run(
        &[
            account(AUTHORITY, true, vec![]),
            account(state, false, initialized(u64::MAX, 0)),
            account(mint_log, false, vec![0u8; LOGSIZE]),
            account(system_program_id(), false, vec![]),
        ],
        lock,
    );
    assert_eq!(overflow.err(), Some(ProcessError::ArithmeticOverflow));
    let bad_data = Processor::process(&PROGRAM, &[], &[9]);
    assert_eq!(bad_data.err(), Some(ProcessError::InvalidInstructionData));
}

#[test]
fn mint_requires_a_token_owned_minter() {
    let (state, _) = pda(b"Init");
    let r = run(
        &[
            account(AUTHORITY, true, vec![]),
            account(state, false, initialized(0, 0)),
            account([0x44; 32], false, vec![]),
            account([0x33; 32], false, vec![]),
            account(token_program_id(), false, vec![]),
        ],
        LockerInstruction::Mint(Mint { amount: 1 }),
    );
    assert_eq!(r.err(), Some(ProcessError::InvalidAccountData));
}

#[test]
fn rescale_examples() {
    let billion = 1_000_000_000u64;
    let widened = Processor::underlying_amount_from_spl_amount(18, 9, billion).unwrap();
    assert_eq!(widened, wide(1_000_000_000_000_000_000));
    assert_eq!(Processor::spl_amount_from_underlying_amount(18, 9, widened), Ok(billion));
    assert_eq!(Processor::underlying_amount_from_spl_amount(9, 9, 12345), Ok(wide(12345)));
    assert_eq!(Processor::spl_amount_from_underlying_amount(9, 9, wide(12345)), Ok(12345));
    assert_eq!(
        Processor::spl_amount_from_underlying_amount(18, 9, wide(1_999_999_999)),
        Ok(1)
    );
    assert_eq!(
        Processor::underlying_amount_from_spl_amount(9, 18, 1),
        Err(LockerError::UnexpectedDecimalConversion)
    );
    assert_eq!(
        Processor::spl_amount_from_underlying_amount(9, 18, wide(1)),
        Err(LockerError::UnexpectedDecimalConversion)
    );
    let too_big = wide((u64::MAX as u128 + 1) * 1_000_000_000);
    assert_eq!(
        Processor::spl_amount_from_underlying_amount(18, 9, too_big),
        Err(LockerError::UnexpectedDecimalConversion)
    );
    let top = Processor::underlying_amount_from_spl_amount(18, 9, u64::MAX).unwrap();
    assert_eq!(top, wide(u64::MAX as u128 * 1_000_000_000));
    assert_eq!(Processor::spl_amount_from_underlying_amount(18, 9, top), Ok(u64::MAX));
}
