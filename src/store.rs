use crate::codec::{
    create_transaction_payload, transaction_payload, PostMessageData,
    CONSISTENCY_LEVEL_FINALIZED, MAX_CALL_DATA_SIZE,
};
use crate::errors::MeridianError;
use crate::state::{same_key, CrossChainProposal, MeridianConfig, ProposalStatus};
use vstd::prelude::*;

verus! {

/// Whether the proposal is filed under `owner` and `transaction_index`.
pub open spec fn has_key(p: CrossChainProposal, owner: Seq<u8>, transaction_index: u64) -> bool {
    p.multisig@ == owner && p.transaction_index == transaction_index
}

/// Every proposal, each under its own (owner, transaction index) key.
pub struct ProposalStore {
    pub proposals: Vec<CrossChainProposal>,
}

impl ProposalStore {
    /// No two proposals share a key, and no call data exceeds the bound.
    pub open spec fn wf(&self) -> bool {
        &&& forall|i: int|
            0 <= i < self.proposals@.len() ==> (#[trigger] self.proposals@[i]).call_data@.len()
                <= MAX_CALL_DATA_SIZE
        &&& forall|i: int, j: int|
            0 <= i < self.proposals@.len() && 0 <= j < self.proposals@.len() && i != j
                ==> !has_key(
                #[trigger] self.proposals@[i],
                self.proposals@[j].multisig@,
                #[trigger] self.proposals@[j].transaction_index,
            )
    }

    pub open spec fn contains(&self, owner: Seq<u8>, transaction_index: u64) -> bool {
        exists|i: int|
            0 <= i < self.proposals@.len() && has_key(
                #[trigger] self.proposals@[i],
                owner,
                transaction_index,
            )
    }

    /// The position of the proposal filed under the key, where there is one.
    pub open spec fn position(&self, owner: Seq<u8>, transaction_index: u64) -> int {
        choose|i: int|
            0 <= i < self.proposals@.len() && has_key(
                #[trigger] self.proposals@[i],
                owner,
                transaction_index,
            )
    }

    /// The proposal filed under the key, where there is one.
    pub open spec fn record(&self, owner: Seq<u8>, transaction_index: u64) -> CrossChainProposal {
        self.proposals@[self.position(owner, transaction_index)]
    }

    pub fn new() -> (r: ProposalStore)
        ensures
            r.wf(),
            r.proposals@.len() == 0,
    {
        ProposalStore { proposals: Vec::new() }
    }

    /// The position of the proposal filed under the key, if any.
    pub fn find(&self, multisig: &[u8; 32], transaction_index: u64) -> (r: Option<usize>)
        requires
            self.wf(),
        ensures
            r is None <==> !self.contains(multisig@, transaction_index),
            r is Some ==> r->Some_0 == self.position(multisig@, transaction_index),
            r is Some ==> r->Some_0 < self.proposals@.len(),
    {
        let mut i: usize = 0;
        while i < self.proposals.len()
            invariant
                self.wf(),
                i <= self.proposals@.len(),
                forall|j: int|
                    0 <= j < i ==> !has_key(
                        #[trigger] self.proposals@[j],
                        multisig@,
                        transaction_index,
                    ),
            decreases self.proposals@.len() - i,
        {
            let p = &self.proposals[i];
            if p.transaction_index == transaction_index && same_key(&p.multisig, multisig) {
                proof {
                    self.lemma_position_unique(multisig@, transaction_index, i as int);
                }
                return Some(i);
            }
            i = i + 1;
        }
        None
    }

    /// Once a proposal is known at `i`, it is the one `position` names.
    pub proof fn lemma_position_unique(&self, owner: Seq<u8>, transaction_index: u64, i: int)
        requires
            self.wf(),
            0 <= i < self.proposals@.len(),
            has_key(self.proposals@[i], owner, transaction_index),
        ensures
            self.contains(owner, transaction_index),
            self.position(owner, transaction_index) == i,
    {
        assert(self.contains(owner, transaction_index));
        let k = self.position(owner, transaction_index);
        if k != i {
            assert(!has_key(self.proposals@[k], self.proposals@[i].multisig@, self.proposals@[i].transaction_index));
        }
    }
}

/// The refusal a submission meets before anything is stored, if any:
/// a foreign owner, then oversized call data, then a taken key.
pub open spec fn propose_check(
    store: ProposalStore,
    authorized: Seq<u8>,
    owner: Seq<u8>,
    transaction_index: u64,
    call_data_len: nat,
) -> Result<(), MeridianError> {
    if owner != authorized {
        Err(MeridianError::UnauthorizedMultisig)
    } else if call_data_len > MAX_CALL_DATA_SIZE {
        Err(MeridianError::CallDataTooLarge)
    } else if store.contains(owner, transaction_index) {
        Err(MeridianError::DuplicateIndex)
    } else {
        Ok(())
    }
}

/// `p` is a freshly submitted proposal with exactly these fields.
pub open spec fn is_fresh_proposal(
    p: CrossChainProposal,
    owner: Seq<u8>,
    transaction_index: u64,
    target_chain: u16,
    target_address: Seq<u8>,
    call_data: Seq<u8>,
    gas_limit: u64,
    created_at: i64,
    bump: u8,
) -> bool {
    &&& p.multisig@ == owner
    &&& p.transaction_index == transaction_index
    &&& p.target_chain == target_chain
    &&& p.target_address@ == target_address
    &&& p.call_data@ == call_data
    &&& p.gas_limit == gas_limit
    &&& p.status == ProposalStatus::Pending
    &&& p.wormhole_sequence is None
    &&& p.created_at == created_at
    &&& p.executed_at is None
    &&& p.bump == bump
}

impl ProposalStore {
    /// Files a new pending proposal for the authorized governance identity.
    pub fn propose_transaction(
        &mut self,
        config: &MeridianConfig,
        multisig: [u8; 32],
        transaction_index: u64,
        target_chain: u16,
        target_address: [u8; 32],
        call_data: Vec<u8>,
        gas_limit: u64,
        now: i64,
        bump: u8,
    ) -> (r: Result<(), MeridianError>)
        requires
            old(self).wf(),
        ensures
            final(self).wf(),
            status_step(*old(self), *final(self)),
            r == propose_check(
                *old(self),
                config.authorized_multisig@,
                multisig@,
                transaction_index,
                call_data@.len(),
            ),
            r is Err ==> final(self).proposals@ == old(self).proposals@,
            r is Ok ==> final(self).proposals@.len() == old(self).proposals@.len() + 1,
            r is Ok ==> final(self).proposals@.drop_last() == old(self).proposals@,
            r is Ok ==> is_fresh_proposal(
                final(self).proposals@.last(),
                multisig@,
                transaction_index,
                target_chain,
                target_address@,
                call_data@,
                gas_limit,
                now,
                bump,
            ),
            forall|c: u64|
                sequences_consistent(*old(self), c) ==> #[trigger] sequences_consistent(
                    *final(self),
                    c,
                ),
    {
        if !same_key(&multisig, &config.authorized_multisig) {
            return Err(MeridianError::UnauthorizedMultisig);
        }
        if call_data.len() > MAX_CALL_DATA_SIZE {
            return Err(MeridianError::CallDataTooLarge);
        }
        if self.find(&multisig, transaction_index).is_some() {
            return Err(MeridianError::DuplicateIndex);
        }
        let proposal = CrossChainProposal {
            multisig,
            transaction_index,
            target_chain,
            target_address,
            call_data,
            gas_limit,
            status: ProposalStatus::Pending,
            wormhole_sequence: None,
            created_at: now,
            executed_at: None,
            bump,
        };
        self.proposals.push(proposal);
        proof {
            assert(self.proposals@.drop_last() =~= old(self).proposals@);
            assert(forall|j: int| 0 <= j < old(self).proposals@.len() ==> self.proposals@[j] == old(self).proposals@[j]);
            let n = old(self).proposals@.len() as int;
            assert forall|i: int, j: int|
                0 <= i < self.proposals@.len() && 0 <= j < self.proposals@.len() && i != j
                    implies !has_key(
                    #[trigger] self.proposals@[i],
                    self.proposals@[j].multisig@,
                    #[trigger] self.proposals@[j].transaction_index,
                ) by {
                if i == n {
                    assert(!has_key(old(self).proposals@[j], multisig@, transaction_index));
                } else if j == n {
                    assert(!has_key(old(self).proposals@[i], multisig@, transaction_index));
                }
            }
        }
        Ok(())
    }
}

/// The refusal an execution meets before any sequence number is consumed,
/// if any: an unknown key, a proposal no longer pending, a foreign owner, then
/// a quorum that has not approved.
pub open spec fn execute_check(
    store: ProposalStore,
    authorized: Seq<u8>,
    owner: Seq<u8>,
    transaction_index: u64,
    approved: bool,
) -> Result<(), MeridianError> {
    if !store.contains(owner, transaction_index) {
        Err(MeridianError::ProposalNotFound)
    } else if store.record(owner, transaction_index).status != ProposalStatus::Pending {
        Err(MeridianError::ProposalNotPending)
    } else if owner != authorized {
        Err(MeridianError::UnauthorizedMultisig)
    } else if !approved {
        Err(MeridianError::ProposalNotApproved)
    } else {
        Ok(())
    }
}

/// `after` is `before` marked executed under `sequence` at `now`.
pub open spec fn is_executed_record(
    before: CrossChainProposal,
    after: CrossChainProposal,
    sequence: u64,
    now: i64,
) -> bool {
    &&& after.multisig == before.multisig
    &&& after.transaction_index == before.transaction_index
    &&& after.target_chain == before.target_chain
    &&& after.target_address == before.target_address
    &&& after.call_data@ == before.call_data@
    &&& after.gas_limit == before.gas_limit
    &&& after.status == ProposalStatus::Executed
    &&& after.wormhole_sequence == Some(sequence)
    &&& after.created_at == before.created_at
    &&& after.executed_at == Some(now)
    &&& after.bump == before.bump
}

/// `after` is `before` with the proposal under the key executed under
/// `sequence` at `now`, and every other proposal left as it was.
pub open spec fn executed_transition(
    before: ProposalStore,
    after: ProposalStore,
    owner: Seq<u8>,
    transaction_index: u64,
    sequence: u64,
    now: i64,
) -> bool {
    let i = before.position(owner, transaction_index);
    &&& after.proposals@.len() == before.proposals@.len()
    &&& is_executed_record(before.proposals@[i], after.proposals@[i], sequence, now)
    &&& forall|j: int|
        0 <= j < before.proposals@.len() && j != i ==> after.proposals@[j]
            == before.proposals@[j]
}

/// `after` is `before` with the counter advanced by one and nothing else changed.
pub open spec fn sequence_consumed(before: MeridianConfig, after: MeridianConfig) -> bool {
    &&& before.sequence < u64::MAX
    &&& after == MeridianConfig { sequence: (before.sequence + 1) as u64, ..before }
}

/// The message that carries a proposal under `sequence` at `now`.
pub open spec fn is_message_for(
    m: PostMessageData,
    p: CrossChainProposal,
    proposal_key: Seq<u8>,
    sequence: u64,
    now: i64,
) -> bool {
    &&& m.nonce == 0
    &&& m.consistency_level == CONSISTENCY_LEVEL_FINALIZED
    &&& m.payload@ == transaction_payload(
        proposal_key,
        p.target_chain,
        p.target_address@,
        p.call_data@,
        p.gas_limit,
        sequence,
        now,
    )
}

impl ProposalStore {
    /// Executes the pending proposal under the key: consumes the next
    /// sequence number, hands the encoded message to `send`, and marks the
    /// proposal executed when `send` reports that the bridge took it.
    /// `approved` is the quorum's answer for this transaction, and
    /// `proposal_key` the identity under which the proposal is stored.
    pub fn execute_proposal<F: FnOnce(PostMessageData) -> bool>(
        &mut self,
        config: &mut MeridianConfig,
        multisig: [u8; 32],
        transaction_index: u64,
        approved: bool,
        proposal_key: [u8; 32],
        now: i64,
        send: F,
    ) -> (r: Result<u64, MeridianError>)
        requires
            old(self).wf(),
            old(config).sequence < u64::MAX,
            forall|m: PostMessageData| send.requires((m,)),
        ensures
            final(self).wf(),
            status_step(*old(self), *final(self)),
            sequences_consistent(*old(self), old(config).sequence) ==> sequences_consistent(
                *final(self),
                final(config).sequence,
            ),
            execute_check(
                *old(self),
                old(config).authorized_multisig@,
                multisig@,
                transaction_index,
                approved,
            ) is Err ==> {
                &&& r == Err::<u64, MeridianError>(
                    execute_check(
                        *old(self),
                        old(config).authorized_multisig@,
                        multisig@,
                        transaction_index,
                        approved,
                    )->Err_0,
                )
                &&& final(self).proposals@ == old(self).proposals@
                &&& *final(config) == *old(config)
            },
            execute_check(
                *old(self),
                old(config).authorized_multisig@,
                multisig@,
                transaction_index,
                approved,
            ) is Ok ==> {
                let q = (old(config).sequence + 1) as u64;
                &&& sequence_consumed(*old(config), *final(config))
                &&& exists|m: PostMessageData|
                    is_message_for(
                        m,
                        old(self).record(multisig@, transaction_index),
                        proposal_key@,
                        q,
                        now,
                    ) && #[trigger] send.ensures((m,), r is Ok)
                &&& r is Ok ==> r->Ok_0 == q && executed_transition(
                    *old(self),
                    *final(self),
                    multisig@,
                    transaction_index,
                    q,
                    now,
                )
                &&& r is Err ==> r->Err_0 == MeridianError::FailedToSendMessage
                    && final(self).proposals@ == old(self).proposals@
            },
    {
        let i = match self.find(&multisig, transaction_index) {
            Some(i) => i,
            None => {
                return Err(MeridianError::ProposalNotFound);
            },
        };
        if self.proposals[i].status != ProposalStatus::Pending {
            return Err(MeridianError::ProposalNotPending);
        }
        if !same_key(&multisig, &config.authorized_multisig) {
            return Err(MeridianError::UnauthorizedMultisig);
        }
        if !approved {
            return Err(MeridianError::ProposalNotApproved);
        }
        proof {
            if sequences_consistent(*old(self), old(config).sequence) {
                lemma_consumed_sequence_not_reissued(*old(self), old(config).sequence);
            }
        }
        config.sequence = config.sequence + 1;
        let sequence = config.sequence;
        let call_data = self.proposals[i].call_data.clone();
        assert(call_data@ =~= self.proposals@[i as int].call_data@);
        let payload = create_transaction_payload(
            proposal_key,
            self.proposals[i].target_chain,
            self.proposals[i].target_address,
            call_data,
            self.proposals[i].gas_limit,
            sequence,
            now,
        );
        let message = PostMessageData {
            nonce: 0,
            payload,
            consistency_level: CONSISTENCY_LEVEL_FINALIZED,
        };
        let ghost sent_message = message;
        let sent = send(message);
        assert(is_message_for(
            sent_message,
            old(self).record(multisig@, transaction_index),
            proposal_key@,
            sequence,
            now,
        ));
        if !sent {
            let r: Result<u64, MeridianError> = Err(MeridianError::FailedToSendMessage);
            assert(send.ensures((sent_message,), r is Ok));
            return r;
        }
        assert(send.ensures((sent_message,), true));
        self.proposals[i].status = ProposalStatus::Executed;
        self.proposals[i].wormhole_sequence = Some(sequence);
        self.proposals[i].executed_at = Some(now);
        proof {
            assert(self.proposals@.len() == old(self).proposals@.len());
            assert(forall|j: int|
                0 <= j < self.proposals@.len() && j != i ==> self.proposals@[j]
                    == old(self).proposals@[j]);
            assert(is_executed_record(
                old(self).proposals@[i as int],
                self.proposals@[i as int],
                sequence,
                now,
            ));
        }
        proof {
            lemma_executed_is_final(
                *old(self),
                *self,
                old(config).authorized_multisig@,
                multisig@,
                transaction_index,
                approved,
                sequence,
                now,
                approved,
            );
            if sequences_consistent(*old(self), old(config).sequence) {
                lemma_sequence_refs_increase(
                    *old(self),
                    *self,
                    old(config).sequence,
                    multisig@,
                    transaction_index,
                    now,
                );
            }
        }
        let r: Result<u64, MeridianError> = Ok(sequence);
        assert(send.ensures((sent_message,), r is Ok));
        r
    }
}

/// Every status in `after` is the one in `before`, or Executed where
/// `before` had Pending.
pub open spec fn status_step(before: ProposalStore, after: ProposalStore) -> bool {
    &&& after.proposals@.len() >= before.proposals@.len()
    &&& forall|j: int|
        0 <= j < before.proposals@.len() ==> (#[trigger] after.proposals@[j]).status
            == before.proposals@[j].status || (before.proposals@[j].status
            == ProposalStatus::Pending && after.proposals@[j].status == ProposalStatus::Executed)
}

/// Every recorded sequence number is at most `counter`, and no two
/// proposals record the same one.
pub open spec fn sequences_consistent(store: ProposalStore, counter: u64) -> bool {
    &&& forall|j: int|
        0 <= j < store.proposals@.len() && (#[trigger] store.proposals@[j]).wormhole_sequence is Some
            ==> store.proposals@[j].wormhole_sequence->Some_0 <= counter
    &&& forall|j: int, k: int|
        0 <= j < store.proposals@.len() && 0 <= k < store.proposals@.len() && j != k
            && (#[trigger] store.proposals@[j]).wormhole_sequence is Some
            ==> (#[trigger] store.proposals@[k]).wormhole_sequence != store.proposals@[j].wormhole_sequence
}

/// An execution keeps every key where it was, and so keeps the store
/// well formed and the executed proposal under its key.
pub proof fn lemma_execution_keeps_keys(
    before: ProposalStore,
    after: ProposalStore,
    owner: Seq<u8>,
    transaction_index: u64,
    sequence: u64,
    now: i64,
)
    requires
        before.wf(),
        before.contains(owner, transaction_index),
        executed_transition(before, after, owner, transaction_index, sequence, now),
    ensures
        after.wf(),
        after.contains(owner, transaction_index),
        after.position(owner, transaction_index) == before.position(owner, transaction_index),
        after.record(owner, transaction_index).status == ProposalStatus::Executed,
        after.record(owner, transaction_index).wormhole_sequence == Some(sequence),
{
    let i = before.position(owner, transaction_index);
    assert forall|j: int| 0 <= j < after.proposals@.len() implies (#[trigger] after.proposals@[j]).multisig
        == before.proposals@[j].multisig && after.proposals@[j].transaction_index
        == before.proposals@[j].transaction_index && after.proposals@[j].call_data@
        == before.proposals@[j].call_data@ by {
        if j != i {
            assert(after.proposals@[j] == before.proposals@[j]);
        }
    }
    assert forall|j: int, k: int|
        0 <= j < after.proposals@.len() && 0 <= k < after.proposals@.len() && j != k
            implies !has_key(
            #[trigger] after.proposals@[j],
            after.proposals@[k].multisig@,
            #[trigger] after.proposals@[k].transaction_index,
        ) by {
        assert(!has_key(before.proposals@[j], before.proposals@[k].multisig@, before.proposals@[k].transaction_index));
    }
    assert(has_key(after.proposals@[i], owner, transaction_index));
    after.lemma_position_unique(owner, transaction_index, i);
}

/// A proposal moves only from Pending to Executed, and once executed, every
/// further execution of it is refused as no longer pending.
pub proof fn lemma_executed_is_final(
    before: ProposalStore,
    after: ProposalStore,
    authorized: Seq<u8>,
    owner: Seq<u8>,
    transaction_index: u64,
    approved: bool,
    sequence: u64,
    now: i64,
    approved_again: bool,
)
    requires
        before.wf(),
        execute_check(before, authorized, owner, transaction_index, approved) is Ok,
        executed_transition(before, after, owner, transaction_index, sequence, now),
    ensures
        status_step(before, after),
        execute_check(after, authorized, owner, transaction_index, approved_again) == Err::<
            (),
            MeridianError,
        >(MeridianError::ProposalNotPending),
{
    lemma_execution_keeps_keys(before, after, owner, transaction_index, sequence, now);
    let i = before.position(owner, transaction_index);
    assert forall|j: int| 0 <= j < before.proposals@.len() implies (#[trigger] after.proposals@[j]).status
        == before.proposals@[j].status || (before.proposals@[j].status == ProposalStatus::Pending
        && after.proposals@[j].status == ProposalStatus::Executed) by {
        if j != i {
            assert(after.proposals@[j] == before.proposals@[j]);
        }
    }
}

/// Each successful execution records a sequence number above every one
/// recorded before it, so the recorded numbers never repeat and grow in the
/// order of execution.
pub proof fn lemma_sequence_refs_increase(
    before: ProposalStore,
    after: ProposalStore,
    counter: u64,
    owner: Seq<u8>,
    transaction_index: u64,
    now: i64,
)
    requires
        before.wf(),
        before.contains(owner, transaction_index),
        counter < u64::MAX,
        sequences_consistent(before, counter),
        executed_transition(before, after, owner, transaction_index, (counter + 1) as u64, now),
    ensures
        sequences_consistent(after, (counter + 1) as u64),
        forall|j: int|
            0 <= j < before.proposals@.len() && (#[trigger] before.proposals@[j]).wormhole_sequence is Some
                ==> before.proposals@[j].wormhole_sequence->Some_0 < after.record(
                owner,
                transaction_index,
            ).wormhole_sequence->Some_0,
{
    lemma_execution_keeps_keys(before, after, owner, transaction_index, (counter + 1) as u64, now);
    let i = before.position(owner, transaction_index);
    assert forall|j: int, k: int|
        0 <= j < after.proposals@.len() && 0 <= k < after.proposals@.len() && j != k
            && (#[trigger] after.proposals@[j]).wormhole_sequence is Some
            implies (#[trigger] after.proposals@[k]).wormhole_sequence != after.proposals@[j].wormhole_sequence by {
        if j != i {
            assert(after.proposals@[j] == before.proposals@[j]);
        }
        if k != i {
            assert(after.proposals@[k] == before.proposals@[k]);
        }
    }
    assert forall|j: int|
        0 <= j < after.proposals@.len() && (#[trigger] after.proposals@[j]).wormhole_sequence is Some
            implies after.proposals@[j].wormhole_sequence->Some_0 <= counter + 1 by {
        if j != i {
            assert(after.proposals@[j] == before.proposals@[j]);
        }
    }
}

/// A send that fails still consumes its sequence number: the records stay
/// consistent under the advanced counter.
pub proof fn lemma_consumed_sequence_not_reissued(store: ProposalStore, counter: u64)
    requires
        counter < u64::MAX,
        sequences_consistent(store, counter),
    ensures
        sequences_consistent(store, (counter + 1) as u64),
        forall|j: int|
            0 <= j < store.proposals@.len() && (#[trigger] store.proposals@[j]).wormhole_sequence is Some
                ==> store.proposals@[j].wormhole_sequence != Some((counter + 1) as u64),
{
}

/// Once a key is taken, a second submission under it is refused as a
/// duplicate, whatever else it carries.
pub proof fn lemma_duplicate_submission_refused(
    before: ProposalStore,
    after: ProposalStore,
    authorized: Seq<u8>,
    owner: Seq<u8>,
    transaction_index: u64,
    target_chain: u16,
    target_address: Seq<u8>,
    call_data: Seq<u8>,
    gas_limit: u64,
    created_at: i64,
    bump: u8,
    second_call_data_len: nat,
)
    requires
        propose_check(before, authorized, owner, transaction_index, call_data.len()) is Ok,
        after.proposals@.len() == before.proposals@.len() + 1,
        after.proposals@.drop_last() == before.proposals@,
        is_fresh_proposal(
            after.proposals@.last(),
            owner,
            transaction_index,
            target_chain,
            target_address,
            call_data,
            gas_limit,
            created_at,
            bump,
        ),
        second_call_data_len <= MAX_CALL_DATA_SIZE,
    ensures
        propose_check(after, authorized, owner, transaction_index, second_call_data_len) == Err::<
            (),
            MeridianError,
        >(MeridianError::DuplicateIndex),
{
    let n = before.proposals@.len() as int;
    assert(has_key(after.proposals@[n], owner, transaction_index));
}

} // verus!
