use crate::errors::MeridianError;
use byteorder::{ByteOrder, LittleEndian};
use vstd::prelude::*;

verus! {

/// Consistency level asked of the bridge: wait for finality.
pub const CONSISTENCY_LEVEL_FINALIZED: u8 = 1;

/// Largest call data a proposal may carry, in bytes.
pub const MAX_CALL_DATA_SIZE: usize = 10000;

/// Version byte that opens every payload.
pub const PAYLOAD_VERSION: u8 = 1;

/// Bytes that a payload holds besides its call data.
pub const PAYLOAD_HEADER_LEN: usize = 100;

/// Kinds of message this program emits.
pub enum MeridianMessageType {
    Transaction,
}

impl MeridianMessageType {
    /// The byte that stands for this kind on the wire.
    pub open spec fn spec_code(&self) -> u8 {
        match self {
            MeridianMessageType::Transaction => 1,
        }
    }

    pub fn code(&self) -> (r: u8)
        ensures
            r == self.spec_code(),
    {
        match self {
            MeridianMessageType::Transaction => 1,
        }
    }
}

// ---------------------------------------------------------------------------
// Little-endian integers
// ---------------------------------------------------------------------------

pub open spec fn le16(n: u16) -> Seq<u8> {
    seq![n as u8, (n >> 8u16) as u8]
}

pub open spec fn le32(n: u32) -> Seq<u8> {
    seq![n as u8, (n >> 8u32) as u8, (n >> 16u32) as u8, (n >> 24u32) as u8]
}

pub open spec fn le64(n: u64) -> Seq<u8> {
    seq![
        n as u8,
        (n >> 8u64) as u8,
        (n >> 16u64) as u8,
        (n >> 24u64) as u8,
        (n >> 32u64) as u8,
        (n >> 40u64) as u8,
        (n >> 48u64) as u8,
        (n >> 56u64) as u8,
    ]
}

/// The integer that two bytes hold, least significant first.
pub open spec fn read16(b: Seq<u8>) -> u16 {
    (b[0] as u16) | ((b[1] as u16) << 8u16)
}

/// The integer that four bytes hold, least significant first.
pub open spec fn read32(b: Seq<u8>) -> u32 {
    (b[0] as u32) | ((b[1] as u32) << 8u32) | ((b[2] as u32) << 16u32) | ((b[3] as u32) << 24u32)
}

/// The integer that eight bytes hold, least significant first.
pub open spec fn read64(b: Seq<u8>) -> u64 {
    (b[0] as u64) | ((b[1] as u64) << 8u64) | ((b[2] as u64) << 16u64) | ((b[3] as u64) << 24u64)
        | ((b[4] as u64) << 32u64) | ((b[5] as u64) << 40u64) | ((b[6] as u64) << 48u64) | ((
    b[7] as u64) << 56u64)
}

pub proof fn lemma_le16_round_trip(n: u16)
    ensures
        read16(le16(n)) == n,
{
    assert(((n as u8) as u16) | ((((n >> 8u16) as u8) as u16) << 8u16) == n) by (bit_vector);
}

pub proof fn lemma_le32_round_trip(n: u32)
    ensures
        read32(le32(n)) == n,
{
    assert(((n as u8) as u32) | ((((n >> 8u32) as u8) as u32) << 8u32) | ((((n >> 16u32) as u8)
        as u32) << 16u32) | ((((n >> 24u32) as u8) as u32) << 24u32) == n) by (bit_vector);
}

pub proof fn lemma_le64_round_trip(n: u64)
    ensures
        read64(le64(n)) == n,
{
    assert(((n as u8) as u64) | ((((n >> 8u64) as u8) as u64) << 8u64) | ((((n >> 16u64) as u8)
        as u64) << 16u64) | ((((n >> 24u64) as u8) as u64) << 24u64) | ((((n >> 32u64) as u8)
        as u64) << 32u64) | ((((n >> 40u64) as u8) as u64) << 40u64) | ((((n >> 48u64) as u8)
        as u64) << 48u64) | ((((n >> 56u64) as u8) as u64) << 56u64) == n) by (bit_vector);
}

/// Relies on byteorder's `LittleEndian::write_u16`: the two bytes of `n`,
/// least significant first.
#[verifier::external_body]
fn le_u16_bytes(n: u16) -> (r: [u8; 2])
    ensures
        r@ == le16(n),
{
    let mut buf = [0u8; 2];
    LittleEndian::write_u16(&mut buf, n);
    buf
}

/// Relies on byteorder's `LittleEndian::write_u32`: the four bytes of `n`,
/// least significant first.
#[verifier::external_body]
fn le_u32_bytes(n: u32) -> (r: [u8; 4])
    ensures
        r@ == le32(n),
{
    let mut buf = [0u8; 4];
    LittleEndian::write_u32(&mut buf, n);
    buf
}

/// Relies on byteorder's `LittleEndian::write_u64`: the eight bytes of `n`,
/// least significant first.
#[verifier::external_body]
fn le_u64_bytes(n: u64) -> (r: [u8; 8])
    ensures
        r@ == le64(n),
{
    let mut buf = [0u8; 8];
    LittleEndian::write_u64(&mut buf, n);
    buf
}

/// Relies on byteorder's `LittleEndian::write_i64`: the two's complement
/// bytes of `n`, least significant first.
#[verifier::external_body]
fn le_i64_bytes(n: i64) -> (r: [u8; 8])
    ensures
        r@ == le64(n as u64),
{
    let mut buf = [0u8; 8];
    LittleEndian::write_i64(&mut buf, n);
    buf
}

/// Appends `bytes` to `out`, in order.
pub fn append_bytes(out: &mut Vec<u8>, bytes: &[u8])
    ensures
        final(out)@ == old(out)@ + bytes@,
{
    let n = bytes.len();
    let mut i: usize = 0;
    while i < n
        invariant
            n == bytes@.len(),
            i <= n,
            out@ == old(out)@ + bytes@.subrange(0, i as int),
        decreases n - i,
    {
        out.push(bytes[i]);
        i = i + 1;
        assert(out@ =~= old(out)@ + bytes@.subrange(0, i as int));
    }
    assert(bytes@.subrange(0, n as int) =~= bytes@);
}

// ---------------------------------------------------------------------------
// Transaction payload
// ---------------------------------------------------------------------------

/// The canonical payload of a transaction message: version, kind, sequence,
/// timestamp, nonce (always zero), proposal key, target chain, target address,
/// gas limit, call data length, then the call data itself.
pub open spec fn transaction_payload(
    proposal_key: Seq<u8>,
    target_chain: u16,
    target_address: Seq<u8>,
    call_data: Seq<u8>,
    gas_limit: u64,
    sequence: u64,
    timestamp: i64,
) -> Seq<u8> {
    seq![PAYLOAD_VERSION, MeridianMessageType::Transaction.spec_code()] + le64(sequence) + le64(
        timestamp as u64,
    ) + le32(0) + proposal_key + le16(target_chain) + target_address + le64(gas_limit) + le32(
        call_data.len() as u32,
    ) + call_data
}

/// The version byte of a payload.
pub open spec fn payload_version(b: Seq<u8>) -> u8 {
    b[0]
}

/// The message kind byte of a payload.
pub open spec fn payload_message_type(b: Seq<u8>) -> u8 {
    b[1]
}

pub open spec fn payload_sequence(b: Seq<u8>) -> u64 {
    read64(b.subrange(2, 10))
}

pub open spec fn payload_timestamp(b: Seq<u8>) -> i64 {
    read64(b.subrange(10, 18)) as i64
}

pub open spec fn payload_nonce(b: Seq<u8>) -> u32 {
    read32(b.subrange(18, 22))
}

pub open spec fn payload_proposal_key(b: Seq<u8>) -> Seq<u8> {
    b.subrange(22, 54)
}

pub open spec fn payload_target_chain(b: Seq<u8>) -> u16 {
    read16(b.subrange(54, 56))
}

pub open spec fn payload_target_address(b: Seq<u8>) -> Seq<u8> {
    b.subrange(56, 88)
}

pub open spec fn payload_gas_limit(b: Seq<u8>) -> u64 {
    read64(b.subrange(88, 96))
}

pub open spec fn payload_call_data_len(b: Seq<u8>) -> u32 {
    read32(b.subrange(96, 100))
}

pub open spec fn payload_call_data(b: Seq<u8>) -> Seq<u8> {
    b.subrange(100, b.len() as int)
}

/// A decoder accepts `b`: a full header of a version and kind it knows,
/// and a length field that accounts for exactly the bytes that follow.
pub open spec fn payload_well_formed(b: Seq<u8>) -> bool {
    &&& b.len() >= PAYLOAD_HEADER_LEN
    &&& payload_version(b) == PAYLOAD_VERSION
    &&& payload_message_type(b) == MeridianMessageType::Transaction.spec_code()
    &&& payload_call_data_len(b) as int == b.len() - PAYLOAD_HEADER_LEN
}

/// Decoding an encoded payload gives back every field that went in, and the
/// payload is one hundred bytes longer than its call data.
pub proof fn lemma_payload_round_trip(
    proposal_key: Seq<u8>,
    target_chain: u16,
    target_address: Seq<u8>,
    call_data: Seq<u8>,
    gas_limit: u64,
    sequence: u64,
    timestamp: i64,
)
    requires
        proposal_key.len() == 32,
        target_address.len() == 32,
        call_data.len() <= MAX_CALL_DATA_SIZE,
    ensures
        ({
            let b = transaction_payload(
                proposal_key,
                target_chain,
                target_address,
                call_data,
                gas_limit,
                sequence,
                timestamp,
            );
            &&& b.len() == PAYLOAD_HEADER_LEN + call_data.len()
            &&& payload_well_formed(b)
            &&& payload_sequence(b) == sequence
            &&& payload_timestamp(b) == timestamp
            &&& payload_nonce(b) == 0
            &&& payload_proposal_key(b) == proposal_key
            &&& payload_target_chain(b) == target_chain
            &&& payload_target_address(b) == target_address
            &&& payload_gas_limit(b) == gas_limit
            &&& payload_call_data(b) == call_data
        }),
{
    let b = transaction_payload(
        proposal_key,
        target_chain,
        target_address,
        call_data,
        gas_limit,
        sequence,
        timestamp,
    );
    let len = call_data.len() as u32;
    assert(b.subrange(2, 10) =~= le64(sequence));
    assert(b.subrange(10, 18) =~= le64(timestamp as u64));
    assert(b.subrange(18, 22) =~= le32(0));
    assert(b.subrange(22, 54) =~= proposal_key);
    assert(b.subrange(54, 56) =~= le16(target_chain));
    assert(b.subrange(56, 88) =~= target_address);
    assert(b.subrange(88, 96) =~= le64(gas_limit));
    assert(b.subrange(96, 100) =~= le32(len));
    assert(b.subrange(100, b.len() as int) =~= call_data);
    lemma_le64_round_trip(sequence);
    lemma_le64_round_trip(timestamp as u64);
    lemma_le32_round_trip(0);
    lemma_le16_round_trip(target_chain);
    lemma_le64_round_trip(gas_limit);
    lemma_le32_round_trip(len);
    assert((timestamp as u64) as i64 == timestamp) by (bit_vector);
}

/// Encodes a transaction into its canonical payload.
pub fn create_transaction_payload(
    proposal_key: [u8; 32],
    target_chain: u16,
    target_address: [u8; 32],
    call_data: Vec<u8>,
    gas_limit: u64,
    sequence: u64,
    timestamp: i64,
) -> (r: Vec<u8>)
    requires
        call_data@.len() <= u32::MAX,
    ensures
        r@ == transaction_payload(
            proposal_key@,
            target_chain,
            target_address@,
            call_data@,
            gas_limit,
            sequence,
            timestamp,
        ),
{
    let mut payload: Vec<u8> = Vec::new();
    payload.push(PAYLOAD_VERSION);
    payload.push(MeridianMessageType::Transaction.code());
    append_bytes(&mut payload, le_u64_bytes(sequence).as_slice());
    append_bytes(&mut payload, le_i64_bytes(timestamp).as_slice());
    append_bytes(&mut payload, le_u32_bytes(0).as_slice());
    append_bytes(&mut payload, proposal_key.as_slice());
    append_bytes(&mut payload, le_u16_bytes(target_chain).as_slice());
    append_bytes(&mut payload, target_address.as_slice());
    append_bytes(&mut payload, le_u64_bytes(gas_limit).as_slice());
    append_bytes(&mut payload, le_u32_bytes(call_data.len() as u32).as_slice());
    append_bytes(&mut payload, call_data.as_slice());
    assert(payload@ =~= transaction_payload(
        proposal_key@,
        target_chain,
        target_address@,
        call_data@,
        gas_limit,
        sequence,
        timestamp,
    ));
    payload
}

// ---------------------------------------------------------------------------
// Bridge instruction data
// ---------------------------------------------------------------------------

/// What is handed to the bridge to post one message.
pub struct PostMessageData {
    pub nonce: u32,
    pub payload: Vec<u8>,
    pub consistency_level: u8,
}

/// The instruction data of a post: nonce, payload length and payload bytes,
/// consistency level.
pub open spec fn post_message_bytes(nonce: u32, payload: Seq<u8>, consistency_level: u8) -> Seq<
    u8,
> {
    le32(nonce) + le32(payload.len() as u32) + payload + seq![consistency_level]
}

impl PostMessageData {
    /// Frames this message as the bridge's instruction data; refused when the
    /// payload length does not fit its four-byte length field.
    pub fn to_instruction_data(&self) -> (r: Result<Vec<u8>, MeridianError>)
        ensures
            self.payload@.len() <= u32::MAX ==> r is Ok && r->Ok_0@ == post_message_bytes(
                self.nonce,
                self.payload@,
                self.consistency_level,
            ),
            self.payload@.len() > u32::MAX ==> r == Err::<Vec<u8>, MeridianError>(
                MeridianError::FailedToSendMessage,
            ),
    {
        if self.payload.len() > u32::MAX as usize {
            return Err(MeridianError::FailedToSendMessage);
        }
        let mut data: Vec<u8> = Vec::new();
        append_bytes(&mut data, le_u32_bytes(self.nonce).as_slice());
        append_bytes(&mut data, le_u32_bytes(self.payload.len() as u32).as_slice());
        append_bytes(&mut data, self.payload.as_slice());
        data.push(self.consistency_level);
        assert(data@ =~= post_message_bytes(self.nonce, self.payload@, self.consistency_level));
        Ok(data)
    }
}

// ---------------------------------------------------------------------------
// Decoding
// ---------------------------------------------------------------------------

/// The fields of a transaction payload, as a decoder reads them back.
pub struct TransactionPayload {
    pub sequence: u64,
    pub timestamp: i64,
    pub nonce: u32,
    pub proposal_key: Vec<u8>,
    pub target_chain: u16,
    pub target_address: Vec<u8>,
    pub gas_limit: u64,
    pub call_data: Vec<u8>,
}

fn read_u16_at(b: &[u8], at: usize) -> (r: u16)
    requires
        at + 2 <= b@.len(),
    ensures
        r == read16(b@.subrange(at as int, at + 2)),
{
    (b[at] as u16) | ((b[at + 1] as u16) << 8u16)
}

fn read_u32_at(b: &[u8], at: usize) -> (r: u32)
    requires
        at + 4 <= b@.len(),
    ensures
        r == read32(b@.subrange(at as int, at + 4)),
{
    (b[at] as u32) | ((b[at + 1] as u32) << 8u32) | ((b[at + 2] as u32) << 16u32) | ((b[at + 3]
        as u32) << 24u32)
}

fn read_u64_at(b: &[u8], at: usize) -> (r: u64)
    requires
        at + 8 <= b@.len(),
    ensures
        r == read64(b@.subrange(at as int, at + 8)),
{
    (b[at] as u64) | ((b[at + 1] as u64) << 8u64) | ((b[at + 2] as u64) << 16u64) | ((b[at + 3]
        as u64) << 24u64) | ((b[at + 4] as u64) << 32u64) | ((b[at + 5] as u64) << 40u64) | ((b[at
        + 6] as u64) << 48u64) | ((b[at + 7] as u64) << 56u64)
}

fn copy_range(b: &[u8], start: usize, end: usize) -> (r: Vec<u8>)
    requires
        start <= end <= b@.len(),
    ensures
        r@ == b@.subrange(start as int, end as int),
{
    let mut out: Vec<u8> = Vec::new();
    let mut i: usize = start;
    while i < end
        invariant
            start <= i <= end,
            end <= b@.len(),
            out@ == b@.subrange(start as int, i as int),
        decreases end - i,
    {
        out.push(b[i]);
        i = i + 1;
        assert(out@ =~= b@.subrange(start as int, i as int));
    }
    out
}

/// Reads a transaction payload back into its fields; refuses bytes that are
/// not well formed, an unknown version among them.
pub fn decode_transaction_payload(b: &[u8]) -> (r: Option<TransactionPayload>)
    ensures
        r is Some <==> payload_well_formed(b@),
        r is Some ==> {
            let t = r->Some_0;
            &&& t.sequence == payload_sequence(b@)
            &&& t.timestamp == payload_timestamp(b@)
            &&& t.nonce == payload_nonce(b@)
            &&& t.proposal_key@ == payload_proposal_key(b@)
            &&& t.target_chain == payload_target_chain(b@)
            &&& t.target_address@ == payload_target_address(b@)
            &&& t.gas_limit == payload_gas_limit(b@)
            &&& t.call_data@ == payload_call_data(b@)
        },
{
    if b.len() < PAYLOAD_HEADER_LEN {
        return None;
    }
    if b[0] != PAYLOAD_VERSION || b[1] != MeridianMessageType::Transaction.code() {
        return None;
    }
    let len = read_u32_at(b, 96);
    if len as usize != b.len() - PAYLOAD_HEADER_LEN {
        return None;
    }
    Some(
        TransactionPayload {
            sequence: read_u64_at(b, 2),
            timestamp: read_u64_at(b, 10) as i64,
            nonce: read_u32_at(b, 18),
            proposal_key: copy_range(b, 22, 54),
            target_chain: read_u16_at(b, 54),
            target_address: copy_range(b, 56, 88),
            gas_limit: read_u64_at(b, 88),
            call_data: copy_range(b, PAYLOAD_HEADER_LEN, b.len()),
        },
    )
}

} // verus!
