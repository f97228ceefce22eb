//! The bridge's state machine. Each operation checks its accounts in order and
//! either aborts with the first failed check or returns its effects: the records
//! to write and the calls to other programs to make. The host applies all of
//! them or none.
use vstd::prelude::*;

use crate::address::{
    derive_address, derived, same_key, spec_system_program_id, spec_token_program_id,
    system_program_id, token_program_id, Seed,
};
use crate::bytes::{be_value, pow10, u256_limit};
use crate::error::{LockerError, ProcessError};
use crate::instruction::{
    decode_error, decoded, encode, encoded_prefix, lemma_instruction_round_trip, well_formed,
    BurnAndRelease, Initialize, LockandMint, LockerInstruction, Mint, Release,
};
use crate::state::{
    ledger_flag_valid, ledger_model, BurnAndReleaseLog, LockAndMintLog, Locker, LockerModel,
    LOGSIZE, STATESIZE,
};
use crate::types::DESTINATION_CHAIN_ADDRESS_LEN;
use crate::wide::{wide_as_u64, wide_div, wide_exp10, wide_from_u64, wide_mul, wide_try_to_u64};

verus! {

/// Decimal places of the bridge's accounting unit.
pub const UNDERLYING_DECIMALS: u8 = 18;

/// Decimal places of the wrapped token.
pub const SPL_DECIMALS: u8 = 9;

/// An account as the host hands it to the bridge.
pub struct AccountInput {
    pub key: [u8; 32],
    pub owner: [u8; 32],
    pub is_signer: bool,
    pub data: Vec<u8>,
}

/// A call to another program that an operation makes.
#[derive(Clone, Copy, Debug, PartialEq, Eq)]
pub enum Invocation {
    /// Create the record `seed` at `address`, funded by `payer` for `space` bytes,
    /// owned by `owner`, signed for with the record's seeds and `bump`.
    CreateAccount {
        payer: [u8; 32],
        address: [u8; 32],
        space: u64,
        owner: [u8; 32],
        seed: Seed,
        bump: u8,
    },
    /// Move `lamports` of native balance; where `signer` is given, the bridge signs
    /// for `from` with that record's seeds and bump.
    Transfer { from: [u8; 32], to: [u8; 32], lamports: u64, signer: Option<(Seed, u8)> },
    /// Mint `amount` of the token `mint` into `account`, signed by `authority`.
    MintTo {
        token_program: [u8; 32],
        mint: [u8; 32],
        account: [u8; 32],
        authority: [u8; 32],
        amount: u64,
    },
    /// Burn `amount` of the token `mint` from `account`, signed by `authority`.
    Burn {
        token_program: [u8; 32],
        account: [u8; 32],
        mint: [u8; 32],
        authority: [u8; 32],
        amount: u64,
    },
}

/// What a successful operation does. The calls are made in order; the ledger is
/// written to the account at position 1, a mint or burn log to the account at
/// position 2.
pub struct Effects {
    pub invocations: Vec<Invocation>,
    pub ledger: Option<Locker>,
    pub mint_log: Option<LockAndMintLog>,
    pub burn_log: Option<BurnAndReleaseLog>,
}

/// The effects of an operation, with each log as its amount's value and its recipient.
pub struct EffectsModel {
    pub invocations: Seq<Invocation>,
    pub ledger: Option<LockerModel>,
    pub mint_log: Option<(nat, Seq<u8>)>,
    pub burn_log: Option<(nat, Seq<u8>)>,
}

impl View for Effects {
    type V = EffectsModel;

    open spec fn view(&self) -> EffectsModel {
        EffectsModel {
            invocations: self.invocations@,
            ledger: match self.ledger {
                Some(l) => Some(l@),
                None => None,
            },
            mint_log: match self.mint_log {
                Some(l) => Some((be_value(l.amount@), l.recipient@)),
                None => None,
            },
            burn_log: match self.burn_log {
                Some(l) => Some((be_value(l.amount@), l.recipient@)),
                None => None,
            },
        }
    }
}

pub open spec fn result_view(r: Result<Effects, ProcessError>) -> Result<
    EffectsModel,
    ProcessError,
> {
    match r {
        Ok(e) => Ok(e@),
        Err(e) => Err(e),
    }
}

/// `native` units of the token in the bridge's accounting unit.
pub open spec fn underlying_from_native(underlying_decimals: u8, spl_decimals: u8, native: u64) -> Result<
    nat,
    LockerError,
> {
    if underlying_decimals == spl_decimals {
        Ok(native as nat)
    } else if underlying_decimals > spl_decimals {
        Ok(native as nat * pow10((underlying_decimals - spl_decimals) as nat))
    } else {
        Err(LockerError::UnexpectedDecimalConversion)
    }
}

/// `underlying` in the token's own unit, truncated; it must fit in 64 bits.
pub open spec fn native_from_underlying(underlying_decimals: u8, spl_decimals: u8, underlying: nat) -> Result<
    u64,
    LockerError,
> {
    if underlying_decimals == spl_decimals {
        Ok(underlying as u64)
    } else if underlying_decimals > spl_decimals {
        let q = underlying / pow10((underlying_decimals - spl_decimals) as nat);
        if q <= u64::MAX {
            Ok(q as u64)
        } else {
            Err(LockerError::UnexpectedDecimalConversion)
        }
    } else {
        Err(LockerError::UnexpectedDecimalConversion)
    }
}

/// The amount that an event log records for `amount` native units.
pub open spec fn event_amount(amount: u64) -> nat {
    amount as nat * pow10((UNDERLYING_DECIMALS - SPL_DECIMALS) as nat)
}

/// Whether the account `key` is the record `seed` of `program_id`; on success, its bump.
pub open spec fn check_derived(key: [u8; 32], program_id: [u8; 32], seed: Seed) -> Result<
    u8,
    ProcessError,
> {
    match derived(program_id@, seed) {
        None => Err(ProcessError::InvalidSeeds),
        Some((address, bump)) => if key@ == address {
            Ok(bump)
        } else {
            Err(ProcessError::InvalidAccountData)
        },
    }
}

/// The initialized ledger that the record `data` holds.
pub open spec fn read_ledger(data: Seq<u8>) -> Result<LockerModel, ProcessError> {
    if data.len() != STATESIZE || !ledger_flag_valid(data) {
        Err(ProcessError::InvalidAccountData)
    } else if !ledger_model(data).is_initialized {
        Err(ProcessError::UninitializedAccount)
    } else {
        Ok(ledger_model(data))
    }
}

pub open spec fn with_locked(l: LockerModel, total_locked: u64) -> LockerModel {
    LockerModel {
        is_initialized: l.is_initialized,
        authority: l.authority,
        total_locked,
        total_minted: l.total_minted,
    }
}

pub open spec fn with_minted(l: LockerModel, total_minted: u64) -> LockerModel {
    LockerModel {
        is_initialized: l.is_initialized,
        authority: l.authority,
        total_locked: l.total_locked,
        total_minted,
    }
}

/// Initialize: accounts are the signer, the ledger, the mint log, the burn log,
/// this program, the system program and the rent parameters.
pub open spec fn init_outcome(program_id: [u8; 32], accs: Seq<AccountInput>, authority: [u8; 32]) -> Result<
    EffectsModel,
    ProcessError,
> {
    if accs.len() < 1 {
        Err(ProcessError::NotEnoughAccountKeys)
    } else if !accs[0].is_signer {
        Err(ProcessError::MissingRequiredSignature)
    } else if accs.len() < 5 {
        Err(ProcessError::NotEnoughAccountKeys)
    } else if accs[4].key@ != program_id@ {
        Err(ProcessError::InvalidAccountData)
    } else if accs.len() < 6 {
        Err(ProcessError::NotEnoughAccountKeys)
    } else if accs[5].key@ != spec_system_program_id() {
        Err(ProcessError::InvalidAccountData)
    } else {
        match check_derived(accs[1].key, program_id, Seed::Init) {
            Err(e) => Err(e),
            Ok(ledger_bump) => if accs.len() < 7 {
                Err(ProcessError::NotEnoughAccountKeys)
            } else {
                match check_derived(accs[2].key, program_id, Seed::Mint) {
                    Err(e) => Err(e),
                    Ok(mint_bump) => match check_derived(accs[3].key, program_id, Seed::Burn) {
                        Err(e) => Err(e),
                        Ok(burn_bump) => Ok(
                            EffectsModel {
                                invocations: seq![
                                    Invocation::CreateAccount {
                                        payer: accs[0].key,
                                        address: accs[1].key,
                                        space: STATESIZE as u64,
                                        owner: program_id,
                                        seed: Seed::Init,
                                        bump: ledger_bump,
                                    },
                                    Invocation::CreateAccount {
                                        payer: accs[0].key,
                                        address: accs[2].key,
                                        space: LOGSIZE as u64,
                                        owner: program_id,
                                        seed: Seed::Mint,
                                        bump: mint_bump,
                                    },
                                    Invocation::CreateAccount {
                                        payer: accs[0].key,
                                        address: accs[3].key,
                                        space: LOGSIZE as u64,
                                        owner: program_id,
                                        seed: Seed::Burn,
                                        bump: burn_bump,
                                    },
                                ],
                                ledger: Some(
                                    LockerModel {
                                        is_initialized: true,
                                        authority: authority@,
                                        total_locked: 0,
                                        total_minted: 0,
                                    },
                                ),
                                mint_log: None,
                                burn_log: None,
                            },
                        ),
                    },
                }
            },
        }
    }
}

/// LockAndMint: accounts are the signer, the ledger, the mint log and the system program.
pub open spec fn lock_and_mint_outcome(
    program_id: [u8; 32],
    accs: Seq<AccountInput>,
    amount: u64,
    destination: [u8; DESTINATION_CHAIN_ADDRESS_LEN],
) -> Result<EffectsModel, ProcessError> {
    if accs.len() < 1 {
        Err(ProcessError::NotEnoughAccountKeys)
    } else if !accs[0].is_signer {
        Err(ProcessError::MissingRequiredSignature)
    } else if accs.len() < 2 {
        Err(ProcessError::NotEnoughAccountKeys)
    } else {
        match check_derived(accs[1].key, program_id, Seed::Init) {
            Err(e) => Err(e),
            Ok(_) => if accs.len() < 3 {
                Err(ProcessError::NotEnoughAccountKeys)
            } else {
                match check_derived(accs[2].key, program_id, Seed::Mint) {
                    Err(e) => Err(e),
                    Ok(_) => if accs.len() < 4 {
                        Err(ProcessError::NotEnoughAccountKeys)
                    } else if accs[3].key@ != spec_system_program_id() {
                        Err(ProcessError::InvalidAccountData)
                    } else {
                        match read_ledger(accs[1].data@) {
                            Err(e) => Err(e),
                            Ok(l) => if l.total_locked + amount > u64::MAX {
                                Err(ProcessError::ArithmeticOverflow)
                            } else if accs[2].data@.len() != LOGSIZE {
                                Err(ProcessError::InvalidAccountData)
                            } else {
                                Ok(
                                    EffectsModel {
                                        invocations: seq![
                                            Invocation::Transfer {
                                                from: accs[0].key,
                                                to: accs[1].key,
                                                lamports: amount,
                                                signer: None,
                                            },
                                        ],
                                        ledger: Some(
                                            with_locked(l, (l.total_locked + amount) as u64),
                                        ),
                                        mint_log: Some((event_amount(amount), destination@)),
                                        burn_log: None,
                                    },
                                )
                            },
                        }
                    },
                }
            },
        }
    }
}

/// Release: accounts are the authority, the ledger, the destination and the
/// system program.
pub open spec fn release_outcome(program_id: [u8; 32], accs: Seq<AccountInput>, amount: u64) -> Result<
    EffectsModel,
    ProcessError,
> {
    if accs.len() < 1 {
        Err(ProcessError::NotEnoughAccountKeys)
    } else if !accs[0].is_signer {
        Err(ProcessError::MissingRequiredSignature)
    } else if accs.len() < 2 {
        Err(ProcessError::NotEnoughAccountKeys)
    } else {
        match check_derived(accs[1].key, program_id, Seed::Init) {
            Err(e) => Err(e),
            Ok(bump) => match read_ledger(accs[1].data@) {
                Err(e) => Err(e),
                Ok(l) => if l.authority != accs[0].key@ {
                    Err(ProcessError::Locker(LockerError::InvalidAuthority))
                } else if l.total_locked < amount {
                    Err(ProcessError::ArithmeticOverflow)
                } else if accs.len() < 4 {
                    Err(ProcessError::NotEnoughAccountKeys)
                } else if accs[3].key@ != spec_system_program_id() {
                    Err(ProcessError::InvalidAccountData)
                } else {
                    Ok(
                        EffectsModel {
                            invocations: seq![
                                Invocation::Transfer {
                                    from: accs[1].key,
                                    to: accs[2].key,
                                    lamports: amount,
                                    signer: Some((Seed::Init, bump)),
                                },
                            ],
                            ledger: Some(with_locked(l, (l.total_locked - amount) as u64)),
                            mint_log: None,
                            burn_log: None,
                        },
                    )
                },
            },
        }
    }
}

/// Mint: accounts are the authority, the ledger, the recipient token account, the
/// token mint and the token program.
pub open spec fn mint_outcome(program_id: [u8; 32], accs: Seq<AccountInput>, amount: u64) -> Result<
    EffectsModel,
    ProcessError,
> {
    if accs.len() < 1 {
        Err(ProcessError::NotEnoughAccountKeys)
    } else if !accs[0].is_signer {
        Err(ProcessError::MissingRequiredSignature)
    } else if accs.len() < 2 {
        Err(ProcessError::NotEnoughAccountKeys)
    } else {
        match check_derived(accs[1].key, program_id, Seed::Init) {
            Err(e) => Err(e),
            Ok(_) => match read_ledger(accs[1].data@) {
                Err(e) => Err(e),
                Ok(l) => if l.authority != accs[0].key@ {
                    Err(ProcessError::Locker(LockerError::InvalidAuthority))
                } else if l.total_minted + amount > u64::MAX {
                    Err(ProcessError::ArithmeticOverflow)
                } else if accs.len() < 4 {
                    Err(ProcessError::NotEnoughAccountKeys)
                } else if accs[3].owner@ != spec_token_program_id() {
                    Err(ProcessError::InvalidAccountData)
                } else if accs.len() < 5 {
                    Err(ProcessError::NotEnoughAccountKeys)
                } else if accs[4].key@ != spec_token_program_id() {
                    Err(ProcessError::InvalidAccountData)
                } else {
                    Ok(
                        EffectsModel {
                            invocations: seq![
                                Invocation::MintTo {
                                    token_program: accs[4].key,
                                    mint: accs[3].key,
                                    account: accs[2].key,
                                    authority: accs[0].key,
                                    amount,
                                },
                            ],
                            ledger: Some(with_minted(l, (l.total_minted + amount) as u64)),
                            mint_log: None,
                            burn_log: None,
                        },
                    )
                },
            },
        }
    }
}

/// BurnAndRelease: accounts are the signer, the ledger, the burn log, the token
/// account to burn from, the token mint and the token program.
pub open spec fn burn_and_release_outcome(
    program_id: [u8; 32],
    accs: Seq<AccountInput>,
    amount: u64,
    destination: [u8; DESTINATION_CHAIN_ADDRESS_LEN],
) -> Result<EffectsModel, ProcessError> {
    if accs.len() < 1 {
        Err(ProcessError::NotEnoughAccountKeys)
    } else if !accs[0].is_signer {
        Err(ProcessError::MissingRequiredSignature)
    } else if accs.len() < 2 {
        Err(ProcessError::NotEnoughAccountKeys)
    } else {
        match check_derived(accs[1].key, program_id, Seed::Init) {
            Err(e) => Err(e),
            Ok(_) => match read_ledger(accs[1].data@) {
                Err(e) => Err(e),
                Ok(l) => if l.total_minted < amount {
                    Err(ProcessError::ArithmeticOverflow)
                } else if accs.len() < 3 {
                    Err(ProcessError::NotEnoughAccountKeys)
                } else {
                    match check_derived(accs[2].key, program_id, Seed::Burn) {
                        Err(e) => Err(e),
                        Ok(_) => if accs.len() < 5 {
                            Err(ProcessError::NotEnoughAccountKeys)
                        } else if accs[4].owner@ != spec_token_program_id() {
                            Err(ProcessError::InvalidAccountData)
                        } else if accs.len() < 6 {
                            Err(ProcessError::NotEnoughAccountKeys)
                        } else if accs[5].key@ != spec_token_program_id() {
                            Err(ProcessError::InvalidAccountData)
                        } else if accs[2].data@.len() != LOGSIZE {
                            Err(ProcessError::InvalidAccountData)
                        } else {
                            Ok(
                                EffectsModel {
                                    invocations: seq![
                                        Invocation::Burn {
                                            token_program: accs[5].key,
                                            account: accs[3].key,
                                            mint: accs[4].key,
                                            authority: accs[0].key,
                                            amount,
                                        },
                                    ],
                                    ledger: Some(
                                        with_minted(l, (l.total_minted - amount) as u64),
                                    ),
                                    mint_log: None,
                                    burn_log: Some((event_amount(amount), destination@)),
                                },
                            )
                        },
                    }
                },
            },
        }
    }
}

/// The outcome of the instruction `data` on the accounts `accs`.
pub open spec fn process_outcome(program_id: [u8; 32], accs: Seq<AccountInput>, data: Seq<u8>) -> Result<
    EffectsModel,
    ProcessError,
> {
    if !well_formed(data) {
        Err(decode_error(data))
    } else {
        match decoded(data) {
            LockerInstruction::Initialize(i) => init_outcome(program_id, accs, i.authority),
            LockerInstruction::LockAndMint(l) => lock_and_mint_outcome(
                program_id,
                accs,
                l.amount,
                l.destination,
            ),
            LockerInstruction::Release(r) => release_outcome(program_id, accs, r.amount),
            LockerInstruction::Mint(m) => mint_outcome(program_id, accs, m.amount),
            LockerInstruction::BurnAndRelease(b) => burn_and_release_outcome(
                program_id,
                accs,
                b.amount,
                b.destination,
            ),
        }
    }
}

/// Whether widening `native` by the precision gap fits in 256 bits.
pub open spec fn widening_fits(underlying_decimals: u8, spl_decimals: u8, native: u64) -> bool {
    underlying_decimals > spl_decimals ==> {
        &&& pow10((underlying_decimals - spl_decimals) as nat) < u256_limit()
        &&& native as nat * pow10((underlying_decimals - spl_decimals) as nat) < u256_limit()
    }
}

/// Whether narrowing `underlying` can be computed without a panic: the power of
/// ten fits in 256 bits, and with no precision gap the value fits in 64 bits.
pub open spec fn narrowing_defined(underlying_decimals: u8, spl_decimals: u8, underlying: nat) -> bool {
    &&& underlying_decimals > spl_decimals ==> pow10(
        (underlying_decimals - spl_decimals) as nat,
    ) < u256_limit()
    &&& underlying_decimals == spl_decimals ==> underlying <= u64::MAX
}

proof fn lemma_pow10_9()
    ensures
        pow10(9) == 1_000_000_000,
{
    reveal_with_fuel(pow10, 10);
}

proof fn lemma_event_amount_fits(amount: u64)
    ensures
        widening_fits(UNDERLYING_DECIMALS, SPL_DECIMALS, amount),
        underlying_from_native(UNDERLYING_DECIMALS, SPL_DECIMALS, amount) == Ok::<
            nat,
            LockerError,
        >(event_amount(amount)),
{
    lemma_pow10_9();
    assert((UNDERLYING_DECIMALS - SPL_DECIMALS) as nat == 9);
    let a = amount as nat;
    let b = u128::MAX as nat + 1;
    assert(a * 1_000_000_000 < b * b && 1_000_000_000 < b * b) by (nonlinear_arith)
        requires
            a <= u64::MAX,
            b == u128::MAX as nat + 1,
    ;
}

pub struct Processor;

impl Processor {
    /// Decodes `instruction_data` and runs the operation it names.
    pub fn process(
        program_id: &[u8; 32],
        accounts: &[AccountInput],
        instruction_data: &[u8],
    ) -> (r: Result<Effects, ProcessError>)
        ensures
            result_view(r) == process_outcome(*program_id, accounts@, instruction_data@),
    {
        let instruction = match LockerInstruction::unpack(instruction_data) {
            Ok(op) => op,
            Err(e) => return Err(e),
        };
        proof {
            lemma_instruction_round_trip(instruction);
            assert(encode(decoded(instruction_data@)) == encoded_prefix(instruction_data@));
        }
        match instruction {
            LockerInstruction::Initialize(Initialize { authority }) => {
                Self::process_init_locker(accounts, authority, program_id)
            },
            LockerInstruction::LockAndMint(LockandMint { amount, destination }) => {
                Self::process_lock_and_mint(accounts, amount, destination, program_id)
            },
            LockerInstruction::Release(Release { amount }) => {
                Self::process_release(accounts, amount, program_id)
            },
            LockerInstruction::Mint(Mint { amount }) => {
                Self::process_mint(accounts, amount, program_id)
            },
            LockerInstruction::BurnAndRelease(BurnAndRelease { amount, destination }) => {
                Self::process_burn_and_release(accounts, amount, destination, program_id)
            },
        }
    }

    /// Checks that `key` is the record `seed` of `program_id`, and gives its bump.
    fn verify_derived(key: &[u8; 32], program_id: &[u8; 32], seed: Seed) -> (r: Result<
        u8,
        ProcessError,
    >)
        ensures
            r == check_derived(*key, *program_id, seed),
    {
        match derive_address(program_id, seed) {
            None => Err(ProcessError::InvalidSeeds),
            Some((address, bump)) => if same_key(key, &address) {
                Ok(bump)
            } else {
                Err(ProcessError::InvalidAccountData)
            },
        }
    }

    /// Reads the ledger record and requires it to be initialized.
    fn load_ledger(data: &[u8]) -> (r: Result<Locker, ProcessError>)
        ensures
            match (r, read_ledger(data@)) {
                (Ok(l), Ok(m)) => l@ == m,
                (Err(e), Err(f)) => e == f,
                _ => false,
            },
    {
        let ledger = Locker::unpack_unchecked(data)?;
        if !ledger.is_initialized() {
            return Err(ProcessError::UninitializedAccount);
        }
        Ok(ledger)
    }

    /// Widens `amount` to the amount that an event log records.
    fn event_amount_of(amount: u64) -> (r: [u8; 32])
        ensures
            be_value(r@) == event_amount(amount),
    {
        proof {
            lemma_event_amount_fits(amount);
        }
        match Self::underlying_amount_from_spl_amount(UNDERLYING_DECIMALS, SPL_DECIMALS, amount) {
            Ok(v) => v,
            Err(_) => [0u8; 32],
        }
    }
}

impl Processor {
    /// Creates the three records and writes a fresh ledger naming `authority`.
    fn process_init_locker(
        accounts: &[AccountInput],
        authority: [u8; 32],
        program_id: &[u8; 32],
    ) -> (r: Result<Effects, ProcessError>)
        ensures
            result_view(r) == init_outcome(*program_id, accounts@, authority),
    {
        if accounts.len() < 1 {
            return Err(ProcessError::NotEnoughAccountKeys);
        }
        let initializer_info = &accounts[0];
        if !initializer_info.is_signer {
            return Err(ProcessError::MissingRequiredSignature);
        }
        if accounts.len() < 5 {
            return Err(ProcessError::NotEnoughAccountKeys);
        }
        let state_account_info = &accounts[1];
        let mintlog_account_info = &accounts[2];
        let burnlog_account_info = &accounts[3];
        let program_info = &accounts[4];
        if !same_key(&program_info.key, program_id) {
            return Err(ProcessError::InvalidAccountData);
        }
        if accounts.len() < 6 {
            return Err(ProcessError::NotEnoughAccountKeys);
        }
        let system_program_info = &accounts[5];
        if !same_key(&system_program_info.key, &system_program_id()) {
            return Err(ProcessError::InvalidAccountData);
        }
        let ledger_bump = Self::verify_derived(&state_account_info.key, program_id, Seed::Init)?;
        if accounts.len() < 7 {
            return Err(ProcessError::NotEnoughAccountKeys);
        }
        let mint_bump = Self::verify_derived(&mintlog_account_info.key, program_id, Seed::Mint)?;
        let burn_bump = Self::verify_derived(&burnlog_account_info.key, program_id, Seed::Burn)?;
        let mut invocations: Vec<Invocation> = Vec::new();
        invocations.push(
            Invocation::CreateAccount {
                payer: initializer_info.key,
                address: state_account_info.key,
                space: STATESIZE as u64,
                owner: *program_id,
                seed: Seed::Init,
                bump: ledger_bump,
            },
        );
        invocations.push(
            Invocation::CreateAccount {
                payer: initializer_info.key,
                address: mintlog_account_info.key,
                space: LOGSIZE as u64,
                owner: *program_id,
                seed: Seed::Mint,
                bump: mint_bump,
            },
        );
        invocations.push(
            Invocation::CreateAccount {
                payer: initializer_info.key,
                address: burnlog_account_info.key,
                space: LOGSIZE as u64,
                owner: *program_id,
                seed: Seed::Burn,
                bump: burn_bump,
            },
        );
        let ledger = Locker { is_initialized: true, authority, total_locked: 0, total_minted: 0 };
        let effects = Effects {
            invocations,
            ledger: Some(ledger),
            mint_log: None,
            burn_log: None,
        };
        assert(effects@.invocations =~= init_outcome(*program_id, accounts@, authority)->Ok_0.invocations);
        Ok(effects)
    }

    /// Locks `amount` of the signer's native balance and records the mint.
    fn process_lock_and_mint(
        accounts: &[AccountInput],
        amount: u64,
        destination: [u8; DESTINATION_CHAIN_ADDRESS_LEN],
        program_id: &[u8; 32],
    ) -> (r: Result<Effects, ProcessError>)
        ensures
            result_view(r) == lock_and_mint_outcome(*program_id, accounts@, amount, destination),
    {
        if accounts.len() < 1 {
            return Err(ProcessError::NotEnoughAccountKeys);
        }
        let signer_account_info = &accounts[0];
        if !signer_account_info.is_signer {
            return Err(ProcessError::MissingRequiredSignature);
        }
        if accounts.len() < 2 {
            return Err(ProcessError::NotEnoughAccountKeys);
        }
        let state_account_info = &accounts[1];
        Self::verify_derived(&state_account_info.key, program_id, Seed::Init)?;
        if accounts.len() < 3 {
            return Err(ProcessError::NotEnoughAccountKeys);
        }
        let mintlog_account_info = &accounts[2];
        Self::verify_derived(&mintlog_account_info.key, program_id, Seed::Mint)?;
        if accounts.len() < 4 {
            return Err(ProcessError::NotEnoughAccountKeys);
        }
        let system_program_info = &accounts[3];
        if !same_key(&system_program_info.key, &system_program_id()) {
            return Err(ProcessError::InvalidAccountData);
        }
        let mut state_info = Self::load_ledger(state_account_info.data.as_slice())?;
        if amount > u64::MAX - state_info.total_locked {
            return Err(ProcessError::ArithmeticOverflow);
        }
        state_info.total_locked = state_info.total_locked + amount;
        let mut log_info = LockAndMintLog::unpack_unchecked(mintlog_account_info.data.as_slice())?;
        log_info.amount = Self::event_amount_of(amount);
        log_info.recipient = destination;
        let mut invocations: Vec<Invocation> = Vec::new();
        invocations.push(
            Invocation::Transfer {
                from: signer_account_info.key,
                to: state_account_info.key,
                lamports: amount,
                signer: None,
            },
        );
        let effects = Effects {
            invocations,
            ledger: Some(state_info),
            mint_log: Some(log_info),
            burn_log: None,
        };
        assert(effects@.invocations =~= lock_and_mint_outcome(
            *program_id,
            accounts@,
            amount,
            destination,
        )->Ok_0.invocations);
        Ok(effects)
    }

    /// Releases `amount` of locked balance to the destination account.
    fn process_release(accounts: &[AccountInput], amount: u64, program_id: &[u8; 32]) -> (r: Result<
        Effects,
        ProcessError,
    >)
        ensures
            result_view(r) == release_outcome(*program_id, accounts@, amount),
    {
        if accounts.len() < 1 {
            return Err(ProcessError::NotEnoughAccountKeys);
        }
        let signer_account_info = &accounts[0];
        if !signer_account_info.is_signer {
            return Err(ProcessError::MissingRequiredSignature);
        }
        if accounts.len() < 2 {
            return Err(ProcessError::NotEnoughAccountKeys);
        }
        let state_account_info = &accounts[1];
        let nonce = Self::verify_derived(&state_account_info.key, program_id, Seed::Init)?;
        let mut state_info = Self::load_ledger(state_account_info.data.as_slice())?;
        if !same_key(&state_info.authority, &signer_account_info.key) {
            return Err(ProcessError::Locker(LockerError::InvalidAuthority));
        }
        if state_info.total_locked < amount {
            return Err(ProcessError::ArithmeticOverflow);
        }
        state_info.total_locked = state_info.total_locked - amount;
        if accounts.len() < 4 {
            return Err(ProcessError::NotEnoughAccountKeys);
        }
        let destination_info = &accounts[2];
        let system_program_info = &accounts[3];
        if !same_key(&system_program_info.key, &system_program_id()) {
            return Err(ProcessError::InvalidAccountData);
        }
        let mut invocations: Vec<Invocation> = Vec::new();
        invocations.push(
            Invocation::Transfer {
                from: state_account_info.key,
                to: destination_info.key,
                lamports: amount,
                signer: Some((Seed::Init, nonce)),
            },
        );
        let effects = Effects {
            invocations,
            ledger: Some(state_info),
            mint_log: None,
            burn_log: None,
        };
        assert(effects@.invocations =~= release_outcome(
            *program_id,
            accounts@,
            amount,
        )->Ok_0.invocations);
        Ok(effects)
    }

    /// Mints `amount` of the wrapped token for the authority.
    fn process_mint(accounts: &[AccountInput], amount: u64, program_id: &[u8; 32]) -> (r: Result<
        Effects,
        ProcessError,
    >)
        ensures
            result_view(r) == mint_outcome(*program_id, accounts@, amount),
    {
        if accounts.len() < 1 {
            return Err(ProcessError::NotEnoughAccountKeys);
        }
        let signer_account_info = &accounts[0];
        if !signer_account_info.is_signer {
            return Err(ProcessError::MissingRequiredSignature);
        }
        if accounts.len() < 2 {
            return Err(ProcessError::NotEnoughAccountKeys);
        }
        let state_account_info = &accounts[1];
        Self::verify_derived(&state_account_info.key, program_id, Seed::Init)?;
        let mut state_info = Self::load_ledger(state_account_info.data.as_slice())?;
        if !same_key(&state_info.authority, &signer_account_info.key) {
            return Err(ProcessError::Locker(LockerError::InvalidAuthority));
        }
        if amount > u64::MAX - state_info.total_minted {
            return Err(ProcessError::ArithmeticOverflow);
        }
        state_info.total_minted = state_info.total_minted + amount;
        if accounts.len() < 4 {
            return Err(ProcessError::NotEnoughAccountKeys);
        }
        let recipient_account_info = &accounts[2];
        let minter_info = &accounts[3];
        let token_id = token_program_id();
        if !same_key(&minter_info.owner, &token_id) {
            return Err(ProcessError::InvalidAccountData);
        }
        if accounts.len() < 5 {
            return Err(ProcessError::NotEnoughAccountKeys);
        }
        let token_program_info = &accounts[4];
        if !same_key(&token_id, &token_program_info.key) {
            return Err(ProcessError::InvalidAccountData);
        }
        let mut invocations: Vec<Invocation> = Vec::new();
        invocations.push(
            Invocation::MintTo {
                token_program: token_program_info.key,
                mint: minter_info.key,
                account: recipient_account_info.key,
                authority: signer_account_info.key,
                amount,
            },
        );
        let effects = Effects {
            invocations,
            ledger: Some(state_info),
            mint_log: None,
            burn_log: None,
        };
        assert(effects@.invocations =~= mint_outcome(
            *program_id,
            accounts@,
            amount,
        )->Ok_0.invocations);
        Ok(effects)
    }

    /// Burns `amount` of the wrapped token and records the release.
    fn process_burn_and_release(
        accounts: &[AccountInput],
        amount: u64,
        destination: [u8; DESTINATION_CHAIN_ADDRESS_LEN],
        program_id: &[u8; 32],
    ) -> (r: Result<Effects, ProcessError>)
        ensures
            result_view(r) == burn_and_release_outcome(*program_id, accounts@, amount, destination),
    {
        if accounts.len() < 1 {
            return Err(ProcessError::NotEnoughAccountKeys);
        }
        let signer_account_info = &accounts[0];
        if !signer_account_info.is_signer {
            return Err(ProcessError::MissingRequiredSignature);
        }
        if accounts.len() < 2 {
            return Err(ProcessError::NotEnoughAccountKeys);
        }
        let state_account_info = &accounts[1];
        Self::verify_derived(&state_account_info.key, program_id, Seed::Init)?;
        let mut state_info = Self::load_ledger(state_account_info.data.as_slice())?;
        if state_info.total_minted < amount {
            return Err(ProcessError::ArithmeticOverflow);
        }
        state_info.total_minted = state_info.total_minted - amount;
        if accounts.len() < 3 {
            return Err(ProcessError::NotEnoughAccountKeys);
        }
        let burnlog_account_info = &accounts[2];
        Self::verify_derived(&burnlog_account_info.key, program_id, Seed::Burn)?;
        if accounts.len() < 5 {
            return Err(ProcessError::NotEnoughAccountKeys);
        }
        let token_account_info = &accounts[3];
        let minter_info = &accounts[4];
        let token_id = token_program_id();
        if !same_key(&minter_info.owner, &token_id) {
            return Err(ProcessError::InvalidAccountData);
        }
        if accounts.len() < 6 {
            return Err(ProcessError::NotEnoughAccountKeys);
        }
        let token_program_info = &accounts[5];
        if !same_key(&token_id, &token_program_info.key) {
            return Err(ProcessError::InvalidAccountData);
        }
        let mut log_info = BurnAndReleaseLog::unpack_unchecked(burnlog_account_info.data.as_slice())?;
        log_info.amount = Self::event_amount_of(amount);
        log_info.recipient = destination;
        let mut invocations: Vec<Invocation> = Vec::new();
        invocations.push(
            Invocation::Burn {
                token_program: token_program_info.key,
                account: token_account_info.key,
                mint: minter_info.key,
                authority: signer_account_info.key,
                amount,
            },
        );
        let effects = Effects {
            invocations,
            ledger: Some(state_info),
            mint_log: None,
            burn_log: Some(log_info),
        };
        assert(effects@.invocations =~= burn_and_release_outcome(
            *program_id,
            accounts@,
            amount,
            destination,
        )->Ok_0.invocations);
        Ok(effects)
    }

    /// Narrows an amount in the accounting unit to the token's own unit: equal
    /// precisions keep it, a larger accounting precision divides by the power of
    /// ten of the gap (truncating) and fails unless the quotient fits in 64 bits,
    /// and a smaller one always fails.
    pub fn spl_amount_from_underlying_amount(
        underlying_decimals: u8,
        spl_decimals: u8,
        underlying_amount: [u8; 32],
    ) -> (r: Result<u64, LockerError>)
        requires
            narrowing_defined(underlying_decimals, spl_decimals, be_value(underlying_amount@)),
        ensures
            r == native_from_underlying(
                underlying_decimals,
                spl_decimals,
                be_value(underlying_amount@),
            ),
    {
        if underlying_decimals == spl_decimals {
            return Ok(wide_as_u64(&underlying_amount));
        }
        if underlying_decimals > spl_decimals {
            let divisor = wide_exp10((underlying_decimals - spl_decimals) as usize);
            proof {
                lemma_pow10_positive((underlying_decimals - spl_decimals) as nat);
            }
            let spl_amount = wide_div(&underlying_amount, &divisor);
            return match wide_try_to_u64(&spl_amount) {
                Some(v) => Ok(v),
                None => Err(LockerError::UnexpectedDecimalConversion),
            };
        }
        Err(LockerError::UnexpectedDecimalConversion)
    }

    /// Widens an amount in the token's own unit to the accounting unit: equal
    /// precisions keep it, a larger accounting precision multiplies by the power
    /// of ten of the gap, and a smaller one always fails.
    pub fn underlying_amount_from_spl_amount(
        underlying_decimals: u8,
        spl_decimals: u8,
        spl_amount: u64,
    ) -> (r: Result<[u8; 32], LockerError>)
        requires
            widening_fits(underlying_decimals, spl_decimals, spl_amount),
        ensures
            match (r, underlying_from_native(underlying_decimals, spl_decimals, spl_amount)) {
                (Ok(a), Ok(v)) => be_value(a@) == v,
                (Err(e), Err(f)) => e == f,
                _ => false,
            },
    {
        if underlying_decimals == spl_decimals {
            return Ok(wide_from_u64(spl_amount));
        }
        if underlying_decimals > spl_decimals {
            let scale = wide_exp10((underlying_decimals - spl_decimals) as usize);
            let native = wide_from_u64(spl_amount);
            let underlying_amount = wide_mul(&native, &scale);
            return Ok(underlying_amount);
        }
        Err(LockerError::UnexpectedDecimalConversion)
    }
}

proof fn lemma_pow10_positive(n: nat)
    ensures
        pow10(n) > 0,
    decreases n,
{
    if n > 0 {
        lemma_pow10_positive((n - 1) as nat);
    }
}

/// Widening a native amount from 9 to 18 decimals and narrowing it back gives
/// the amount again.
pub proof fn lemma_rescale_round_trip(x: u64)
    ensures
        underlying_from_native(18, 9, x) matches Ok(v) && native_from_underlying(18, 9, v) == Ok::<
            u64,
            LockerError,
        >(x),
{
    lemma_pow10_9();
    assert((x as nat * 1_000_000_000) / 1_000_000_000 == x as nat) by (nonlinear_arith);
}

/// Narrowing an 18-decimal amount with nothing below the ninth decimal, whose
/// quotient fits in 64 bits, and widening it back gives the amount again.
pub proof fn lemma_rescale_round_trip_underlying(v: nat)
    requires
        v % pow10(9) == 0,
        v / pow10(9) <= u64::MAX,
    ensures
        native_from_underlying(18, 9, v) matches Ok(x) && underlying_from_native(18, 9, x) == Ok::<
            nat,
            LockerError,
        >(v),
{
    lemma_pow10_9();
    let p: nat = 1_000_000_000;
    assert((v / p) * p == v) by (nonlinear_arith)
        requires
            v % p == 0,
            p > 0,
    ;
}

/// A successful LockAndMint of `amount` raises `total_locked` by exactly `amount`,
/// leaves the rest of the ledger, and records the widened amount and the
/// destination bytes unchanged in the mint log.
pub proof fn lemma_lock_and_mint_records(
    program_id: [u8; 32],
    accs: Seq<AccountInput>,
    amount: u64,
    destination: [u8; DESTINATION_CHAIN_ADDRESS_LEN],
)
    requires
        lock_and_mint_outcome(program_id, accs, amount, destination) is Ok,
    ensures
        ({
            let e = lock_and_mint_outcome(program_id, accs, amount, destination)->Ok_0;
            let before = read_ledger(accs[1].data@)->Ok_0;
            &&& read_ledger(accs[1].data@) is Ok
            &&& e.ledger matches Some(after) && after.total_locked == before.total_locked + amount
                && after.total_minted == before.total_minted && after.authority == before.authority
                && after.is_initialized
            &&& underlying_from_native(UNDERLYING_DECIMALS, SPL_DECIMALS, amount) == Ok::<
                nat,
                LockerError,
            >(event_amount(amount))
            &&& e.mint_log == Some((event_amount(amount), destination@))
        }),
{
    lemma_event_amount_fits(amount);
}

/// A Release of more than is locked aborts, so no transfer is made.
pub proof fn lemma_release_underflow_aborts(
    program_id: [u8; 32],
    accs: Seq<AccountInput>,
    amount: u64,
)
    requires
        accs.len() >= 2,
        read_ledger(accs[1].data@) matches Ok(l) && l.total_locked < amount,
    ensures
        release_outcome(program_id, accs, amount) is Err,
{
}

} // verus!
