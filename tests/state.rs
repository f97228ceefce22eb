use bridge_locker::error::ProcessError;
use bridge_locker::state::{
    BurnAndReleaseLog, LockAndMintLog, Locker, LOGSIZE, STATESIZE,
};
use bridge_locker::types::DESTINATION_CHAIN_ADDRESS_LEN;
use rand::RngCore;
use spl_math::uint::U256;

fn rand_bytes(n: usize) -> Vec<u8> {
    let mut output = vec![0u8; n];
    rand::thread_rng().fill_bytes(output.as_mut_slice());
    output
}

#[test]
fn test_burn_log_pack() {
    let amount = rand_bytes(32);
    let mut amount_arr = [0u8; 32];
    amount_arr.copy_from_slice(amount.as_slice());
    let recipient = rand_bytes(25);
    let mut recipient_arr = [0u8; DESTINATION_CHAIN_ADDRESS_LEN];
    recipient_arr[0..25].copy_from_slice(recipient.as_slice());
    let mut amount_be = [0u8; 32];
    U256::from_big_endian(amount.as_slice()).to_big_endian(&mut amount_be);
    let burn_log = BurnAndReleaseLog {
        amount: amount_be,
        recipient: recipient_arr,
    };
    let mut burn_log_bytes = [0u8; 64];
    let res = BurnAndReleaseLog::pack(burn_log, &mut burn_log_bytes);
    assert!(res.is_ok());
}

#[test]
fn locker_layout_is_fixed() {
    let locker = Locker {
        is_initialized: true,
        authority: [0xAB; 32],
        total_locked: 0x0102030405060708,
        total_minted: 1,
    };
    let mut bytes = [0u8; STATESIZE];
    assert_eq!(Locker::pack(locker, &mut bytes), Ok(()));
    assert_eq!(bytes[0], 1);
    assert!(bytes[1..33].iter().all(|b| *b == 0xAB));
    assert_eq!(bytes[33..41], [8, 7, 6, 5, 4, 3, 2, 1]);
    assert_eq!(bytes[41..49], [1, 0, 0, 0, 0, 0, 0, 0]);
}

#[test]
fn locker_round_trip_at_extremes() {
    for (locked, minted) in [(0u64, 0u64), (u64::MAX, u64::MAX), (0, u64::MAX), (u64::MAX, 0)] {
        for init in [false, true] {
            let locker = Locker {
                is_initialized: init,
                authority: [3u8; 32],
                total_locked: locked,
                total_minted: minted,
            };
            let mut bytes = vec![0u8; STATESIZE];
            Locker::pack(locker, &mut bytes).unwrap();
            assert_eq!(Locker::unpack_unchecked(&bytes), Ok(locker));
        }
    }
}

#[test]
fn locker_rejects_bad_flag_and_size() {
    let mut bytes = vec![0u8; STATESIZE];
    bytes[0] = 2;
    assert_eq!(Locker::unpack_unchecked(&bytes), Err(ProcessError::InvalidAccountData));
    assert_eq!(Locker::unpack_unchecked(&bytes[..48]), Err(ProcessError::InvalidAccountData));
    let mut short = vec![9u8; 48];
    assert_eq!(Locker::pack(Locker::default(), &mut short), Err(ProcessError::InvalidAccountData));
    assert_eq!(short, vec![9u8; 48]);
}

#[test]
fn mint_log_round_trip() {
    let log = LockAndMintLog { amount: [5u8; 32], recipient: [6u8; DESTINATION_CHAIN_ADDRESS_LEN] };
    let mut bytes = vec![0u8; LOGSIZE];
    LockAndMintLog::pack(log, &mut bytes).unwrap();
    assert_eq!(&bytes[..32], &[5u8; 32]);
    assert_eq!(&bytes[32..], &[6u8; 32]);
    assert_eq!(LockAndMintLog::unpack_unchecked(&bytes), Ok(log));
    assert_eq!(LockAndMintLog::unpack_unchecked(&bytes[1..]), Err(ProcessError::InvalidAccountData));
}

#[test]
fn burn_log_wrong_size_is_refused() {
    let mut bytes = [0u8; 63];
    assert_eq!(
        BurnAndReleaseLog::pack(BurnAndReleaseLog::default(), &mut bytes),
        Err(ProcessError::InvalidAccountData)
    );
}
