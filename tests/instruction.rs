use bridge_locker::error::{LockerError, ProcessError};
use bridge_locker::instruction::{
    BurnAndRelease, Initialize, LockandMint, LockerInstruction, Mint, Release,
};

fn with_amount(tag: u8, amount: u64, tail: &[u8]) -> Vec<u8> {
    let mut v = vec![tag];
    v.extend_from_slice(&amount.to_le_bytes());
    v.extend_from_slice(tail);
    v
}

#[test]
fn decodes_every_operation() {
    let mut init = vec![0u8];
    init.extend_from_slice(&[4u8; 32]);
    assert_eq!(
        LockerInstruction::unpack(&init),
        Ok(LockerInstruction::Initialize(Initialize { authority: [4u8; 32] }))
    );
    assert_eq!(
        LockerInstruction::unpack(&with_amount(1, 77, &[8u8; 32])),
        Ok(LockerInstruction::LockAndMint(LockandMint { amount: 77, destination: [8u8; 32] }))
    );
    assert_eq!(
        LockerInstruction::unpack(&with_amount(2, 5, &[])),
        Ok(LockerInstruction::Release(Release { amount: 5 }))
    );
    assert_eq!(
        LockerInstruction::unpack(&with_amount(3, u64::MAX, &[])),
        Ok(LockerInstruction::Mint(Mint { amount: u64::MAX }))
    );
    assert_eq!(
        LockerInstruction::unpack(&with_amount(4, 1, &[2u8; 32])),
        Ok(LockerInstruction::BurnAndRelease(BurnAndRelease { amount: 1, destination: [2u8; 32] }))
    );
}

#[test]
fn trailing_bytes_are_ignored() {
    let data = with_amount(2, 300, &[1, 2, 3]);
    assert_eq!(
        LockerInstruction::unpack(&data),
        Ok(LockerInstruction::Release(Release { amount: 300 }))
    );
}

#[test]
fn short_or_unknown_input_is_refused() {
    let bad = Err(ProcessError::Locker(LockerError::InvalidInstruction));
    assert_eq!(LockerInstruction::unpack(&[]), bad);
    assert_eq!(LockerInstruction::unpack(&[0u8; 32]), bad);
    assert_eq!(LockerInstruction::unpack(&with_amount(1, 1, &[0u8; 31])), bad);
    assert_eq!(LockerInstruction::unpack(&[2, 1, 2, 3, 4, 5, 6, 7]), bad);
    assert_eq!(LockerInstruction::unpack(&[3]), bad);
    assert_eq!(LockerInstruction::unpack(&with_amount(4, 1, &[])), bad);
    assert_eq!(
        LockerInstruction::unpack(&with_amount(5, 1, &[0u8; 32])),
        Err(ProcessError::InvalidInstructionData)
    );
    assert_eq!(LockerInstruction::unpack(&[255]), Err(ProcessError::InvalidInstructionData));
}

#[test]
fn pack_then_unpack_is_identity() {
    let ops = [
        LockerInstruction::Initialize(Initialize { authority: [1u8; 32] }),
        LockerInstruction::LockAndMint(LockandMint { amount: 1_000_000_000, destination: [7u8; 32] }),
        LockerInstruction::Release(Release { amount: 0 }),
        LockerInstruction::Mint(Mint { amount: 42 }),
        LockerInstruction::BurnAndRelease(BurnAndRelease { amount: u64::MAX, destination: [0u8; 32] }),
    ];
    for op in ops {
        let bytes = op.pack();
        assert_eq!(LockerInstruction::unpack(&bytes), Ok(op));
    }
    assert_eq!(
        LockerInstruction::Mint(Mint { amount: 0x0102 }).pack(),
        vec![3, 2, 1, 0, 0, 0, 0, 0, 0]
    );
}

#[test]
fn error_codes() {
    assert_eq!(LockerError::InvalidAuthority.code(), 0);
    assert_eq!(LockerError::InvalidInstruction.code(), 1);
    assert_eq!(LockerError::UnexpectedDecimalConversion.code(), 2);
}
