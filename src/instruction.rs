use vstd::prelude::*;

use crate::bytes::{
    le_u64, lemma_le_bytes_round_trip, lemma_le_u64_round_trip, read_array32, read_u64_le,
    u64_le_bytes,
};
use crate::error::{LockerError, ProcessError};
use crate::types::DESTINATION_CHAIN_ADDRESS_LEN;

verus! {

/// Creates the bridge's records and names the authority.
#[derive(Clone, Copy, Debug, PartialEq, Eq)]
pub struct Initialize {
    pub authority: [u8; 32],
}

/// Locks `amount` of native balance and records a mint for `destination`.
#[derive(Clone, Copy, Debug, PartialEq, Eq)]
pub struct LockandMint {
    pub amount: u64,
    pub destination: [u8; DESTINATION_CHAIN_ADDRESS_LEN],
}

/// Releases `amount` of locked native balance.
#[derive(Clone, Copy, Debug, PartialEq, Eq)]
pub struct Release {
    pub amount: u64,
}

/// Mints `amount` of the wrapped token.
#[derive(Clone, Copy, Debug, PartialEq, Eq)]
pub struct Mint {
    pub amount: u64,
}

/// Burns `amount` of the wrapped token and records a release for `destination`.
#[derive(Clone, Copy, Debug, PartialEq, Eq)]
pub struct BurnAndRelease {
    pub amount: u64,
    pub destination: [u8; DESTINATION_CHAIN_ADDRESS_LEN],
}

/// The five operations of the bridge.
#[derive(Clone, Copy, Debug, PartialEq, Eq)]
pub enum LockerInstruction {
    Initialize(Initialize),
    LockAndMint(LockandMint),
    Release(Release),
    Mint(Mint),
    BurnAndRelease(BurnAndRelease),
}

/// Number of payload bytes that follow the tag of each operation.
pub open spec fn payload_len(tag: u8) -> nat {
    if tag == 0 {
        32
    } else if tag == 1 || tag == 4 {
        (8 + DESTINATION_CHAIN_ADDRESS_LEN) as nat
    } else {
        8
    }
}

/// The wire form of an operation: its tag, then its fields.
pub open spec fn encode(op: LockerInstruction) -> Seq<u8> {
    match op {
        LockerInstruction::Initialize(i) => seq![0u8] + i.authority@,
        LockerInstruction::LockAndMint(l) => seq![1u8] + u64_le_bytes(l.amount) + l.destination@,
        LockerInstruction::Release(r) => seq![2u8] + u64_le_bytes(r.amount),
        LockerInstruction::Mint(m) => seq![3u8] + u64_le_bytes(m.amount),
        LockerInstruction::BurnAndRelease(b) => seq![4u8] + u64_le_bytes(b.amount)
            + b.destination@,
    }
}

/// Whether `s` starts with a known tag followed by at least that operation's payload.
pub open spec fn well_formed(s: Seq<u8>) -> bool {
    s.len() > 0 && s[0] < 5 && s.len() >= 1 + payload_len(s[0])
}

/// The part of `s` that a well-formed instruction is read from.
pub open spec fn encoded_prefix(s: Seq<u8>) -> Seq<u8> {
    s.subrange(0, (1 + payload_len(s[0])) as int)
}

/// The error for bytes that are not well formed: an unknown tag is the host's
/// invalid-data condition, anything else a malformed instruction.
pub open spec fn decode_error(s: Seq<u8>) -> ProcessError {
    if s.len() > 0 && s[0] >= 5 {
        ProcessError::InvalidInstructionData
    } else {
        ProcessError::Locker(LockerError::InvalidInstruction)
    }
}

/// The operation that well-formed bytes `s` decode to.
pub open spec fn decoded(s: Seq<u8>) -> LockerInstruction {
    choose|op: LockerInstruction| encode(op) == encoded_prefix(s)
}

impl LockerInstruction {
    /// Decodes an instruction: a tag, then that operation's fixed-width payload.
    /// Bytes past the payload are ignored.
    pub fn unpack(input: &[u8]) -> (r: Result<LockerInstruction, ProcessError>)
        ensures
            r is Ok <==> well_formed(input@),
            r matches Ok(op) ==> encode(op) == encoded_prefix(input@),
            r matches Err(e) ==> e == decode_error(input@),
    {
        if input.len() == 0 {
            return Err(ProcessError::Locker(LockerError::InvalidInstruction));
        }
        let tag = input[0];
        let (_, rest) = input.split_at(1);
        assert(rest@ == input@.subrange(1, input@.len() as int));
        if tag == 0 {
            if rest.len() >= 32 {
                let authority = read_array32(input, 1);
                let op = LockerInstruction::Initialize(Initialize { authority });
                assert(encode(op) =~= encoded_prefix(input@));
                return Ok(op);
            }
            Err(ProcessError::Locker(LockerError::InvalidInstruction))
        } else if tag == 1 || tag == 4 {
            if rest.len() >= 8 + DESTINATION_CHAIN_ADDRESS_LEN {
                let amount = read_u64_le(input, 1);
                let destination = read_array32(input, 9);
                proof {
                    lemma_le_bytes_round_trip(input@.subrange(1, 9));
                }
                let op = if tag == 1 {
                    LockerInstruction::LockAndMint(LockandMint { amount, destination })
                } else {
                    LockerInstruction::BurnAndRelease(BurnAndRelease { amount, destination })
                };
                assert(encode(op) =~= encoded_prefix(input@));
                return Ok(op);
            }
            Err(ProcessError::Locker(LockerError::InvalidInstruction))
        } else if tag == 2 || tag == 3 {
            let amount = Self::unpack_amount(rest)?;
            proof {
                lemma_le_bytes_round_trip(input@.subrange(1, 9));
            }
            let op = if tag == 2 {
                LockerInstruction::Release(Release { amount })
            } else {
                LockerInstruction::Mint(Mint { amount })
            };
            assert(encode(op) =~= encoded_prefix(input@));
            Ok(op)
        } else {
            Err(ProcessError::InvalidInstructionData)
        }
    }

    /// Reads the little-endian amount at the start of `input`; fewer than eight
    /// bytes are refused, not padded.
    fn unpack_amount(input: &[u8]) -> (r: Result<u64, ProcessError>)
        ensures
            r is Ok <==> input@.len() >= 8,
            r matches Ok(a) ==> a == le_u64(input@.subrange(0, 8)),
            r matches Err(e) ==> e == ProcessError::Locker(LockerError::InvalidInstruction),
    {
        if input.len() < 8 {
            return Err(ProcessError::Locker(LockerError::InvalidInstruction));
        }
        Ok(read_u64_le(input, 0))
    }

    /// Encodes this operation in its wire form.
    pub fn pack(&self) -> (r: Vec<u8>)
        ensures
            r@ == encode(*self),
    {
        let mut out: Vec<u8> = Vec::new();
        match self {
            LockerInstruction::Initialize(i) => {
                out.push(0u8);
                push_array32(&mut out, &i.authority);
            },
            LockerInstruction::LockAndMint(l) => {
                out.push(1u8);
                push_u64_le(&mut out, l.amount);
                push_array32(&mut out, &l.destination);
            },
            LockerInstruction::Release(r) => {
                out.push(2u8);
                push_u64_le(&mut out, r.amount);
            },
            LockerInstruction::Mint(m) => {
                out.push(3u8);
                push_u64_le(&mut out, m.amount);
            },
            LockerInstruction::BurnAndRelease(b) => {
                out.push(4u8);
                push_u64_le(&mut out, b.amount);
                push_array32(&mut out, &b.destination);
            },
        }
        assert(out@ =~= encode(*self));
        out
    }
}

/// Appends the eight little-endian bytes of `x`.
fn push_u64_le(out: &mut Vec<u8>, x: u64)
    ensures
        final(out)@ == old(out)@ + u64_le_bytes(x),
{
    out.push(x as u8);
    out.push((x >> 8u64) as u8);
    out.push((x >> 16u64) as u8);
    out.push((x >> 24u64) as u8);
    out.push((x >> 32u64) as u8);
    out.push((x >> 40u64) as u8);
    out.push((x >> 48u64) as u8);
    out.push((x >> 56u64) as u8);
    assert(final(out)@ =~= old(out)@ + u64_le_bytes(x));
}

/// Appends the 32 bytes of `a`.
fn push_array32(out: &mut Vec<u8>, a: &[u8; 32])
    ensures
        final(out)@ == old(out)@ + a@,
{
    let mut i: usize = 0;
    while i < 32
        invariant
            i <= 32,
            a@.len() == 32,
            out@ == old(out)@ + a@.subrange(0, i as int),
        decreases 32 - i,
    {
        out.push(a[i]);
        i = i + 1;
        assert(out@ =~= old(out)@ + a@.subrange(0, i as int));
    }
    assert(a@.subrange(0, 32) =~= a@);
}

/// Decoding the wire form of an operation gives that operation back: the bytes
/// are well formed, are read whole, and no other operation has the same form.
pub proof fn lemma_instruction_round_trip(op: LockerInstruction)
    ensures
        well_formed(encode(op)),
        encoded_prefix(encode(op)) == encode(op),
        forall|other: LockerInstruction| encode(other) == encode(op) ==> other == op,
        decoded(encode(op)) == op,
{
    let s = encode(op);
    match op {
        LockerInstruction::LockAndMint(l) => lemma_le_u64_round_trip(l.amount),
        LockerInstruction::Release(r) => lemma_le_u64_round_trip(r.amount),
        LockerInstruction::Mint(m) => lemma_le_u64_round_trip(m.amount),
        LockerInstruction::BurnAndRelease(b) => lemma_le_u64_round_trip(b.amount),
        _ => {},
    }
    assert(s.subrange(0, s.len() as int) =~= s);
    assert forall|other: LockerInstruction| encode(other) == encode(op) implies other == op by {
        lemma_encoding_injective(other, op);
    }
    lemma_encoding_injective(decoded(s), op);
}

/// Two operations with the same wire form are the same operation.
proof fn lemma_encoding_injective(a: LockerInstruction, b: LockerInstruction)
    requires
        encode(a) == encode(b),
    ensures
        a == b,
{
    let s = encode(a);
    assert(s[0] == encode(b)[0]);
    match (a, b) {
        (LockerInstruction::Initialize(x), LockerInstruction::Initialize(y)) => {
            assert(x.authority@ =~= s.subrange(1, 33));
            assert(y.authority@ =~= s.subrange(1, 33));
            assert(x.authority =~= y.authority);
        },
        (LockerInstruction::LockAndMint(x), LockerInstruction::LockAndMint(y)) => {
            assert(s.subrange(1, 9) =~= u64_le_bytes(x.amount));
            assert(encode(b).subrange(1, 9) =~= u64_le_bytes(y.amount));
            lemma_amounts_agree(s, x.amount, y.amount);
            assert(x.destination@ =~= s.subrange(9, 41));
            assert(y.destination@ =~= s.subrange(9, 41));
            assert(x.destination =~= y.destination);
        },
        (LockerInstruction::Release(x), LockerInstruction::Release(y)) => {
            assert(s.subrange(1, 9) =~= u64_le_bytes(x.amount));
            assert(encode(b).subrange(1, 9) =~= u64_le_bytes(y.amount));
            lemma_amounts_agree(s, x.amount, y.amount);
        },
        (LockerInstruction::Mint(x), LockerInstruction::Mint(y)) => {
            assert(s.subrange(1, 9) =~= u64_le_bytes(x.amount));
            assert(encode(b).subrange(1, 9) =~= u64_le_bytes(y.amount));
            lemma_amounts_agree(s, x.amount, y.amount);
        },
        (LockerInstruction::BurnAndRelease(x), LockerInstruction::BurnAndRelease(y)) => {
            assert(s.subrange(1, 9) =~= u64_le_bytes(x.amount));
            assert(encode(b).subrange(1, 9) =~= u64_le_bytes(y.amount));
            lemma_amounts_agree(s, x.amount, y.amount);
            assert(x.destination@ =~= s.subrange(9, 41));
            assert(y.destination@ =~= s.subrange(9, 41));
            assert(x.destination =~= y.destination);
        },
        _ => {},
    }
}

/// Two amounts that both stand at `s[1..9]` are equal.
proof fn lemma_amounts_agree(s: Seq<u8>, x: u64, y: u64)
    requires
        s.len() >= 9,
        s.subrange(1, 9) == u64_le_bytes(x),
        s.subrange(1, 9) == u64_le_bytes(y),
    ensures
        x == y,
{
    lemma_le_u64_round_trip(x);
    lemma_le_u64_round_trip(y);
}

} // verus!
