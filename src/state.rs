use vstd::prelude::*;

use crate::bytes::{
    le_u64, lemma_le_bytes_round_trip, lemma_le_u64_round_trip, read_array32, read_u64_le,
    u64_le_bytes, write_array32, write_u64_le,
};
use crate::error::ProcessError;
use crate::types::DESTINATION_CHAIN_ADDRESS_LEN;

verus! {

/// Size in bytes of the ledger record.
pub const STATESIZE: usize = 49;

/// Size in bytes of an event-log record.
pub const LOGSIZE: usize = 32 + DESTINATION_CHAIN_ADDRESS_LEN;

/// The bridge's ledger: who may act on it and what it holds.
#[derive(Clone, Copy, Debug, Default, PartialEq, Eq)]
pub struct Locker {
    pub is_initialized: bool,
    pub authority: [u8; 32],
    pub total_locked: u64,
    pub total_minted: u64,
}

/// What a ledger record holds, with the authority as a sequence of bytes.
pub struct LockerModel {
    pub is_initialized: bool,
    pub authority: Seq<u8>,
    pub total_locked: u64,
    pub total_minted: u64,
}

impl View for Locker {
    type V = LockerModel;

    open spec fn view(&self) -> LockerModel {
        LockerModel {
            is_initialized: self.is_initialized,
            authority: self.authority@,
            total_locked: self.total_locked,
            total_minted: self.total_minted,
        }
    }
}

/// The ledger that the bytes `s` (at least `STATESIZE` of them) describe.
pub open spec fn ledger_model(s: Seq<u8>) -> LockerModel {
    LockerModel {
        is_initialized: s[0] == 1,
        authority: s.subrange(1, 33),
        total_locked: le_u64(s.subrange(33, 41)),
        total_minted: le_u64(s.subrange(41, 49)),
    }
}

/// Whether `s` holds a readable ledger record: only `0` and `1` mark initialization.
pub open spec fn ledger_flag_valid(s: Seq<u8>) -> bool {
    s[0] <= 1
}

/// The layout of a ledger record: flag, authority, then both counters little-endian.
pub open spec fn locker_bytes(l: LockerModel) -> Seq<u8> {
    seq![if l.is_initialized { 1u8 } else { 0u8 }] + l.authority + u64_le_bytes(l.total_locked)
        + u64_le_bytes(l.total_minted)
}

impl Locker {
    pub fn is_initialized(&self) -> (r: bool)
        ensures
            r == self.is_initialized,
    {
        self.is_initialized
    }

    /// Reads a ledger from the first `STATESIZE` bytes of `src`.
    pub fn unpack_from_slice(src: &[u8]) -> (r: Result<Locker, ProcessError>)
        requires
            src@.len() >= STATESIZE,
        ensures
            r is Ok <==> ledger_flag_valid(src@),
            r matches Ok(l) ==> l@ == ledger_model(src@),
            r matches Err(e) ==> e == ProcessError::InvalidAccountData,
    {
        let is_initialized = if src[0] == 0 {
            false
        } else if src[0] == 1 {
            true
        } else {
            return Err(ProcessError::InvalidAccountData);
        };
        let authority = read_array32(src, 1);
        let total_locked = read_u64_le(src, 33);
        let total_minted = read_u64_le(src, 41);
        Ok(Locker { is_initialized, authority, total_locked, total_minted })
    }

    /// Writes this ledger over the first `STATESIZE` bytes of `dst`.
    pub fn pack_into_slice(&self, dst: &mut [u8])
        requires
            old(dst)@.len() >= STATESIZE,
        ensures
            final(dst)@ == locker_bytes(self@) + old(dst)@.subrange(
                STATESIZE as int,
                old(dst)@.len() as int,
            ),
    {
        dst[0] = if self.is_initialized { 1u8 } else { 0u8 };
        write_array32(dst, 1, &self.authority);
        write_u64_le(dst, 33, self.total_locked);
        write_u64_le(dst, 41, self.total_minted);
        assert(final(dst)@ =~= locker_bytes(self@) + old(dst)@.subrange(
            STATESIZE as int,
            old(dst)@.len() as int,
        ));
    }

    /// Reads a ledger from a record of exactly `STATESIZE` bytes, initialized or not.
    pub fn unpack_unchecked(src: &[u8]) -> (r: Result<Locker, ProcessError>)
        ensures
            r is Ok <==> src@.len() == STATESIZE && ledger_flag_valid(src@),
            r matches Ok(l) ==> l@ == ledger_model(src@),
            r matches Err(e) ==> e == ProcessError::InvalidAccountData,
    {
        if src.len() != STATESIZE {
            return Err(ProcessError::InvalidAccountData);
        }
        Self::unpack_from_slice(src)
    }

    /// Writes `src` into a record of exactly `STATESIZE` bytes; any other size is refused
    /// and left as it was.
    pub fn pack(src: Locker, dst: &mut [u8]) -> (r: Result<(), ProcessError>)
        ensures
            r is Ok <==> old(dst)@.len() == STATESIZE,
            r is Ok ==> final(dst)@ == locker_bytes(src@),
            r matches Err(e) ==> e == ProcessError::InvalidAccountData && final(dst)@ == old(dst)@,
    {
        if dst.len() != STATESIZE {
            return Err(ProcessError::InvalidAccountData);
        }
        src.pack_into_slice(dst);
        assert(final(dst)@ =~= locker_bytes(src@));
        Ok(())
    }
}

/// Packing a ledger and reading it back gives the same ledger, for every value
/// of every field, the counters at `0` and at `u64::MAX` included.
pub proof fn lemma_locker_round_trip(l: Locker)
    ensures
        locker_bytes(l@).len() == STATESIZE,
        ledger_flag_valid(locker_bytes(l@)),
        ledger_model(locker_bytes(l@)) == l@,
        forall|m: Locker| m@ == ledger_model(locker_bytes(l@)) ==> m == l,
{
    let s = locker_bytes(l@);
    lemma_le_u64_round_trip(l.total_locked);
    lemma_le_u64_round_trip(l.total_minted);
    assert(s.subrange(1, 33) =~= l.authority@);
    assert(s.subrange(33, 41) =~= u64_le_bytes(l.total_locked));
    assert(s.subrange(41, 49) =~= u64_le_bytes(l.total_minted));
    assert forall|m: Locker| m@ == ledger_model(locker_bytes(l@)) implies m == l by {
        assert(m.authority =~= l.authority);
    }
}

/// Reading a valid ledger record and packing it again gives the same bytes.
pub proof fn lemma_ledger_bytes_round_trip(s: Seq<u8>)
    requires
        s.len() == STATESIZE,
        ledger_flag_valid(s),
    ensures
        locker_bytes(ledger_model(s)) == s,
{
    lemma_le_bytes_round_trip(s.subrange(33, 41));
    lemma_le_bytes_round_trip(s.subrange(41, 49));
    assert(locker_bytes(ledger_model(s)) =~= s);
}

/// The most recent burn: its amount in 256-bit big-endian form and its recipient
/// on the destination chain.
#[derive(Clone, Copy, Debug, Default, PartialEq, Eq)]
pub struct BurnAndReleaseLog {
    pub amount: [u8; 32],
    pub recipient: [u8; DESTINATION_CHAIN_ADDRESS_LEN],
}

/// The most recent lock: its amount in 256-bit big-endian form and its recipient
/// on the destination chain.
#[derive(Clone, Copy, Debug, Default, PartialEq, Eq)]
pub struct LockAndMintLog {
    pub amount: [u8; 32],
    pub recipient: [u8; DESTINATION_CHAIN_ADDRESS_LEN],
}

/// What an event-log record holds.
pub struct LogModel {
    pub amount: Seq<u8>,
    pub recipient: Seq<u8>,
}

/// The event log that the bytes `s` (at least `LOGSIZE` of them) describe.
pub open spec fn log_model(s: Seq<u8>) -> LogModel {
    LogModel { amount: s.subrange(0, 32), recipient: s.subrange(32, LOGSIZE as int) }
}

/// The layout of an event-log record: amount, then recipient.
pub open spec fn log_bytes(m: LogModel) -> Seq<u8> {
    m.amount + m.recipient
}

impl View for BurnAndReleaseLog {
    type V = LogModel;

    open spec fn view(&self) -> LogModel {
        LogModel { amount: self.amount@, recipient: self.recipient@ }
    }
}

impl View for LockAndMintLog {
    type V = LogModel;

    open spec fn view(&self) -> LogModel {
        LogModel { amount: self.amount@, recipient: self.recipient@ }
    }
}

/// Reads the two fields of an event log from the first `LOGSIZE` bytes of `src`.
fn read_log(src: &[u8]) -> (r: ([u8; 32], [u8; DESTINATION_CHAIN_ADDRESS_LEN]))
    requires
        src@.len() >= LOGSIZE,
    ensures
        r.0@ == log_model(src@).amount,
        r.1@ == log_model(src@).recipient,
{
    (read_array32(src, 0), read_array32(src, 32))
}

/// Writes the two fields of an event log over the first `LOGSIZE` bytes of `dst`.
fn write_log(amount: &[u8; 32], recipient: &[u8; DESTINATION_CHAIN_ADDRESS_LEN], dst: &mut [u8])
    requires
        old(dst)@.len() >= LOGSIZE,
    ensures
        final(dst)@ == amount@ + recipient@ + old(dst)@.subrange(
            LOGSIZE as int,
            old(dst)@.len() as int,
        ),
{
    write_array32(dst, 0, amount);
    write_array32(dst, 32, recipient);
    assert(final(dst)@ =~= amount@ + recipient@ + old(dst)@.subrange(
        LOGSIZE as int,
        old(dst)@.len() as int,
    ));
}

impl BurnAndReleaseLog {
    /// Reads a burn log from the first `LOGSIZE` bytes of `src`.
    pub fn unpack_from_slice(src: &[u8]) -> (r: Result<BurnAndReleaseLog, ProcessError>)
        requires
            src@.len() >= LOGSIZE,
        ensures
            r matches Ok(l) && l@ == log_model(src@),
    {
        let (amount, recipient) = read_log(src);
        Ok(BurnAndReleaseLog { amount, recipient })
    }

    /// Writes this burn log over the first `LOGSIZE` bytes of `dst`.
    pub fn pack_into_slice(&self, dst: &mut [u8])
        requires
            old(dst)@.len() >= LOGSIZE,
        ensures
            final(dst)@ == log_bytes(self@) + old(dst)@.subrange(
                LOGSIZE as int,
                old(dst)@.len() as int,
            ),
    {
        write_log(&self.amount, &self.recipient, dst);
    }

    /// Reads a burn log from a record of exactly `LOGSIZE` bytes.
    pub fn unpack_unchecked(src: &[u8]) -> (r: Result<BurnAndReleaseLog, ProcessError>)
        ensures
            r is Ok <==> src@.len() == LOGSIZE,
            r matches Ok(l) ==> l@ == log_model(src@),
            r matches Err(e) ==> e == ProcessError::InvalidAccountData,
    {
        if src.len() != LOGSIZE {
            return Err(ProcessError::InvalidAccountData);
        }
        Self::unpack_from_slice(src)
    }

    /// Writes `src` into a record of exactly `LOGSIZE` bytes; any other size is refused
    /// and left as it was.
    pub fn pack(src: BurnAndReleaseLog, dst: &mut [u8]) -> (r: Result<(), ProcessError>)
        ensures
            r is Ok <==> old(dst)@.len() == LOGSIZE,
            r is Ok ==> final(dst)@ == log_bytes(src@),
            r matches Err(e) ==> e == ProcessError::InvalidAccountData && final(dst)@ == old(dst)@,
    {
        if dst.len() != LOGSIZE {
            return Err(ProcessError::InvalidAccountData);
        }
        src.pack_into_slice(dst);
        assert(final(dst)@ =~= log_bytes(src@));
        Ok(())
    }
}

impl LockAndMintLog {
    /// Reads a mint log from the first `LOGSIZE` bytes of `src`.
    pub fn unpack_from_slice(src: &[u8]) -> (r: Result<LockAndMintLog, ProcessError>)
        requires
            src@.len() >= LOGSIZE,
        ensures
            r matches Ok(l) && l@ == log_model(src@),
    {
        let (amount, recipient) = read_log(src);
        Ok(LockAndMintLog { amount, recipient })
    }

    /// Writes this mint log over the first `LOGSIZE` bytes of `dst`.
    pub fn pack_into_slice(&self, dst: &mut [u8])
        requires
            old(dst)@.len() >= LOGSIZE,
        ensures
            final(dst)@ == log_bytes(self@) + old(dst)@.subrange(
                LOGSIZE as int,
                old(dst)@.len() as int,
            ),
    {
        write_log(&self.amount, &self.recipient, dst);
    }

    /// Reads a mint log from a record of exactly `LOGSIZE` bytes.
    pub fn unpack_unchecked(src: &[u8]) -> (r: Result<LockAndMintLog, ProcessError>)
        ensures
            r is Ok <==> src@.len() == LOGSIZE,
            r matches Ok(l) ==> l@ == log_model(src@),
            r matches Err(e) ==> e == ProcessError::InvalidAccountData,
    {
        if src.len() != LOGSIZE {
            return Err(ProcessError::InvalidAccountData);
        }
        Self::unpack_from_slice(src)
    }

    /// Writes `src` into a record of exactly `LOGSIZE` bytes; any other size is refused
    /// and left as it was.
    pub fn pack(src: LockAndMintLog, dst: &mut [u8]) -> (r: Result<(), ProcessError>)
        ensures
            r is Ok <==> old(dst)@.len() == LOGSIZE,
            r is Ok ==> final(dst)@ == log_bytes(src@),
            r matches Err(e) ==> e == ProcessError::InvalidAccountData && final(dst)@ == old(dst)@,
    {
        if dst.len() != LOGSIZE {
            return Err(ProcessError::InvalidAccountData);
        }
        src.pack_into_slice(dst);
        assert(final(dst)@ =~= log_bytes(src@));
        Ok(())
    }
}

/// Packing an event log and reading it back gives the same log.
pub proof fn lemma_log_round_trip(m: LogModel)
    requires
        m.amount.len() == 32,
        m.recipient.len() == DESTINATION_CHAIN_ADDRESS_LEN,
    ensures
        log_bytes(m).len() == LOGSIZE,
        log_model(log_bytes(m)) == m,
{
    assert(log_bytes(m).subrange(0, 32) =~= m.amount);
    assert(log_bytes(m).subrange(32, LOGSIZE as int) =~= m.recipient);
}

} // verus!
