use vstd::prelude::*;

verus! {

/// The process-wide configuration: who may act, where messages go, and the
/// counter that numbers outbound messages.
pub struct MeridianConfig {
    /// Identity permitted to change settings.
    pub authority: [u8; 32],
    /// The one governance identity whose proposals are honoured.
    pub authorized_multisig: [u8; 32],
    /// The bridge program.
    pub wormhole_program: [u8; 32],
    /// The bridge's state record.
    pub wormhole_bridge: [u8; 32],
    /// Where bridge fees are paid.
    pub wormhole_fee_collector: [u8; 32],
    /// The identity that emits messages on this program's behalf.
    pub emitter: [u8; 32],
    pub emitter_bump: u8,
    /// The last sequence number consumed; zero before the first message.
    pub sequence: u64,
    pub bump: u8,
}

impl MeridianConfig {
    /// Bytes that a stored configuration occupies, its 8-byte tag included.
    pub const SIZE: usize = 8 + 32 + 32 + 32 + 32 + 32 + 32 + 1 + 8 + 1;
}

/// Sets up the configuration once, with the sequence counter at zero.
pub fn initialize(
    authority: [u8; 32],
    authorized_multisig: [u8; 32],
    wormhole_program: [u8; 32],
    wormhole_bridge: [u8; 32],
    wormhole_fee_collector: [u8; 32],
    emitter: [u8; 32],
    emitter_bump: u8,
    bump: u8,
) -> (r: MeridianConfig)
    ensures
        r.authority == authority,
        r.authorized_multisig == authorized_multisig,
        r.wormhole_program == wormhole_program,
        r.wormhole_bridge == wormhole_bridge,
        r.wormhole_fee_collector == wormhole_fee_collector,
        r.emitter == emitter,
        r.emitter_bump == emitter_bump,
        r.sequence == 0,
        r.bump == bump,
{
    MeridianConfig {
        authority,
        authorized_multisig,
        wormhole_program,
        wormhole_bridge,
        wormhole_fee_collector,
        emitter,
        emitter_bump,
        sequence: 0,
        bump,
    }
}

/// Where a proposal stands. Pending is the only state that can change.
#[derive(Debug, Clone, Copy, PartialEq, Eq, Structural)]
pub enum ProposalStatus {
    Pending,
    Executed,
    Failed,
    Cancelled,
}

/// One cross-chain transaction proposal, keyed by its governance identity and
/// transaction index.
pub struct CrossChainProposal {
    /// The governance identity this proposal belongs to.
    pub multisig: [u8; 32],
    pub transaction_index: u64,
    /// Destination chain identifier.
    pub target_chain: u16,
    /// Destination contract address, always 32 bytes wide.
    pub target_address: [u8; 32],
    pub call_data: Vec<u8>,
    pub gas_limit: u64,
    pub status: ProposalStatus,
    /// The sequence number its message was sent under, once executed.
    pub wormhole_sequence: Option<u64>,
    pub created_at: i64,
    pub executed_at: Option<i64>,
    pub bump: u8,
}

impl CrossChainProposal {
    /// Bytes that a stored proposal with `call_data_len` bytes of call data
    /// occupies, its 8-byte tag included.
    pub fn space(call_data_len: usize) -> (r: usize)
        requires
            call_data_len <= usize::MAX - 122,
        ensures
            r == 122 + call_data_len,
    {
        8 + 32 + 8 + 2 + 32 + 4 + call_data_len + 8 + 1 + 9 + 8 + 9 + 1
    }
}

/// Whether two 32-byte identities are the same.
pub fn same_key(a: &[u8; 32], b: &[u8; 32]) -> (r: bool)
    ensures
        r == (a@ == b@),
{
    let mut i: usize = 0;
    while i < 32
        invariant
            i <= 32,
            a@.len() == 32,
            b@.len() == 32,
            forall|j: int| 0 <= j < i ==> a@[j] == b@[j],
        decreases 32 - i,
    {
        if a[i] != b[i] {
            return false;
        }
        i = i + 1;
    }
    assert(a@ =~= b@);
    true
}

} // verus!
