//! The proof-of-cooperation consensus engine.
//!
//! Validators carry a reputation in the closed unit interval, held as a
//! fixed-point integer scaled by `RATIO_SCALE`. A submitted block is decided
//! by polling validators in a deterministic order fixed at round start:
//! reputations accumulate into a participation mass, and at the first point
//! where that mass reaches the quorum fraction of the total reputation the
//! round commits the block when the accepting mass reaches the threshold
//! fraction of the participating mass, and rejects it otherwise. While the
//! participation mass is zero — the validator set is empty or carries no
//! reputation — the quorum is never reached and the block stays pending.

use vstd::prelude::*;

use crate::errors::{IcnError, IcnResult};
use crate::ledger::{block_hash_chars, Block, block_eq, Transaction};
use crate::text::str_eq;

verus! {

/// Fixed-point scale for reputations, thresholds and quorum fractions: a
/// value of `RATIO_SCALE` stands for one.
pub const RATIO_SCALE: u64 = 1000;

/// A consensus participant: an identity and a reputation in `[0, 1]`,
/// scaled by `RATIO_SCALE`.
#[derive(Debug)]
pub struct Validator {
    pub id: String,
    pub reputation: u64,
}

/// Registry well-formedness: every reputation is at most one, and no two
/// entries share an identity.
pub open spec fn validators_wf(vs: Seq<Validator>) -> bool {
    &&& forall|i: int| 0 <= i < vs.len() ==> (#[trigger] vs[i]).reputation <= RATIO_SCALE
    &&& forall|i: int, j: int| 0 <= i < j < vs.len() ==> vs[i].id@ != vs[j].id@
}

/// Whether the registry holds an entry with the given identity.
pub open spec fn has_validator(vs: Seq<Validator>, id: Seq<char>) -> bool {
    exists|i: int| 0 <= i < vs.len() && (#[trigger] vs[i]).id@ == id
}

/// The summed reputation of a validator sequence.
pub open spec fn sum_rep(vs: Seq<Validator>) -> int
    decreases vs.len(),
{
    if vs.len() == 0 {
        0
    } else {
        sum_rep(vs.drop_last()) + vs.last().reputation
    }
}

/// The verdict of one consensus round over one candidate block.
#[derive(Debug, PartialEq, Eq, Structural)]
pub enum RoundDecision {
    /// The block was appended to the chain.
    Committed,
    /// The block was rejected by the weighted vote.
    Rejected,
    /// The quorum was never reached; the block stays pending.
    Pending,
}

/// The accumulator semantics of a consensus round, from state `(seen, yes)`
/// after the first `i` validators: poll the next validator, add its
/// reputation to the participation mass and, when it accepts, to the
/// accepting mass. The quorum counts as unreached while the participation
/// mass is zero, so a round over zero total reputation decides nothing and
/// the candidate stays pending. At the first point where a positive
/// participation mass reaches the quorum mass, commit exactly when the
/// accepting mass reaches the threshold fraction of the participating mass.
pub open spec fn decide_from(
    vs: Seq<Validator>,
    votes: Seq<bool>,
    threshold: int,
    quorum_mass: int,
    seen: int,
    yes: int,
    i: int,
) -> RoundDecision
    decreases vs.len() - i,
{
    if i < 0 || i >= vs.len() {
        RoundDecision::Pending
    } else {
        let seen2 = seen + vs[i].reputation;
        let yes2 = yes + if 0 <= i < votes.len() && votes[i] {
            vs[i].reputation as int
        } else {
            0
        };
        if seen2 > 0 && seen2 * (RATIO_SCALE as int) >= quorum_mass {
            if yes2 * (RATIO_SCALE as int) >= threshold * seen2 {
                RoundDecision::Committed
            } else {
                RoundDecision::Rejected
            }
        } else {
            decide_from(vs, votes, threshold, quorum_mass, seen2, yes2, i + 1)
        }
    }
}

/// The verdict of a full round: accumulate from an empty state against a
/// quorum mass that is the quorum fraction of the total reputation.
pub open spec fn round_decision(
    vs: Seq<Validator>,
    votes: Seq<bool>,
    threshold: int,
    quorum: int,
) -> RoundDecision {
    decide_from(vs, votes, threshold, sum_rep(vs) * quorum, 0, 0, 0)
}

/// The vote sequence in which every validator casts the same verdict.
pub open spec fn uniform_votes(n: nat, valid: bool) -> Seq<bool> {
    Seq::new(n, |i: int| valid)
}

/// For a fixed set of votes, raising the threshold can never turn a
/// rejection into a commit: whatever commits at the higher threshold
/// already commits at the lower one.
pub proof fn lemma_decide_threshold_monotonic(
    vs: Seq<Validator>,
    votes: Seq<bool>,
    t1: int,
    t2: int,
    quorum_mass: int,
    seen: int,
    yes: int,
    i: int,
)
    requires
        0 <= t1 <= t2,
        seen >= 0,
        forall|j: int| 0 <= j < vs.len() ==> (#[trigger] vs[j]).reputation >= 0,
    ensures
        decide_from(vs, votes, t2, quorum_mass, seen, yes, i) is Committed ==> decide_from(
            vs,
            votes,
            t1,
            quorum_mass,
            seen,
            yes,
            i,
        ) is Committed,
    decreases vs.len() - i,
{
    if 0 <= i < vs.len() {
        let seen2 = seen + vs[i].reputation;
        let yes2 = yes + if 0 <= i < votes.len() && votes[i] {
            vs[i].reputation as int
        } else {
            0
        };
        if seen2 > 0 && seen2 * (RATIO_SCALE as int) >= quorum_mass {
            if yes2 * (RATIO_SCALE as int) >= t2 * seen2 {
                assert(t1 * seen2 <= t2 * seen2) by (nonlinear_arith)
                    requires
                        t1 <= t2,
                        seen2 > 0,
                ;
            }
        } else {
            lemma_decide_threshold_monotonic(vs, votes, t1, t2, quorum_mass, seen2, yes2, i + 1);
        }
    }
}

/// A block that every polled validator refuses is never committed, as long
/// as the threshold is positive.
pub proof fn lemma_all_refuse_never_commits(
    vs: Seq<Validator>,
    votes: Seq<bool>,
    threshold: int,
    quorum_mass: int,
    seen: int,
    i: int,
)
    requires
        threshold > 0,
        forall|j: int| 0 <= j < votes.len() ==> !(#[trigger] votes[j]),
    ensures
        !(decide_from(vs, votes, threshold, quorum_mass, seen, 0, i) is Committed),
    decreases vs.len() - i,
{
    if 0 <= i < vs.len() {
        let seen2 = seen + vs[i].reputation;
        if seen2 > 0 && seen2 * (RATIO_SCALE as int) >= quorum_mass {
            assert(threshold * seen2 > 0) by (nonlinear_arith)
                requires
                    threshold > 0,
                    seen2 > 0,
            ;
        } else {
            lemma_all_refuse_never_commits(vs, votes, threshold, quorum_mass, seen2, i + 1);
        }
    }
}

/// Whether every transaction of a block moves a positive amount.
pub open spec fn block_txs_ok(b: Block) -> bool {
    forall|i: int| 0 <= i < b.transactions@.len() ==> (#[trigger] b.transactions@[i]).amount > 0
}

/// The engine's block validation predicate: the initial block is exempt;
/// any other block must link to the tip of the committed chain, carry the
/// digest of its own contents, and hold only positive-amount transactions.
pub open spec fn block_valid_spec(chain: Seq<Block>, b: Block) -> bool {
    ||| b.index == 0
    ||| (chain.len() > 0 && b.previous_hash@ == chain.last().hash@ && b.hash@ == block_hash_chars(b)
        && block_txs_ok(b))
}

/// The committed chain stays well formed under the engine: every block is
/// either an exempt initial block or links to its predecessor and carries
/// its own digest.
pub open spec fn engine_chain_ok(c: Seq<Block>) -> bool {
    forall|i: int|
        0 <= i < c.len() ==> ((#[trigger] c[i]).index == 0 || (i > 0 && c[i].previous_hash@ == c[i
            - 1].hash@ && c[i].hash@ == block_hash_chars(c[i]) && block_txs_ok(c[i])))
}

/// The status of one run over the queue of pending candidates.
#[derive(Debug, PartialEq, Eq, Structural)]
pub enum RoundStatus {
    /// Every candidate was committed or kept pending.
    Done,
    /// A non-initial candidate arrived before any block was committed.
    MissingPrev,
    /// A candidate was rejected by the weighted vote.
    RejectedBlock,
}

/// The engine's behaviour over its whole queue of pending candidates, front
/// to back: a candidate seen by an empty validator set stays pending; a
/// non-initial candidate on an empty chain aborts the run; otherwise the
/// round decides, committing appends to the chain, a rejection drops the
/// candidate and aborts the run, and an unreached quorum keeps it pending.
/// Returns the final chain, the candidates still pending, and the status.
pub open spec fn process_queue(
    chain: Seq<Block>,
    vs: Seq<Validator>,
    threshold: int,
    quorum: int,
    queue: Seq<Block>,
) -> (Seq<Block>, Seq<Block>, RoundStatus)
    decreases queue.len(),
{
    if queue.len() == 0 {
        (chain, Seq::<Block>::empty(), RoundStatus::Done)
    } else {
        let b = queue[0];
        let rest = queue.drop_first();
        if vs.len() == 0 {
            let sub = process_queue(chain, vs, threshold, quorum, rest);
            (sub.0, seq![b] + sub.1, sub.2)
        } else if b.index != 0 && chain.len() == 0 {
            (chain, queue, RoundStatus::MissingPrev)
        } else {
            let valid = block_valid_spec(chain, b);
            let d = round_decision(vs, uniform_votes(vs.len(), valid), threshold, quorum);
            if d is Committed {
                process_queue(chain.push(b), vs, threshold, quorum, rest)
            } else if d is Rejected {
                (chain, rest, RoundStatus::RejectedBlock)
            } else {
                let sub = process_queue(chain, vs, threshold, quorum, rest);
                (sub.0, seq![b] + sub.1, sub.2)
            }
        }
    }
}

/// The proof-of-cooperation engine: configuration, validator registry,
/// pending candidates, and the committed chain.
#[derive(Debug)]
pub struct PoCConsensus {
    threshold: u64,
    quorum: u64,
    validators: Vec<Validator>,
    pending_blocks: Vec<Block>,
    blockchain: Vec<Block>,
}

impl PoCConsensus {
    /// The configured threshold fraction, scaled by `RATIO_SCALE`.
    pub closed spec fn spec_threshold(self) -> u64 {
        self.threshold
    }

    /// The configured quorum fraction, scaled by `RATIO_SCALE`.
    pub closed spec fn spec_quorum(self) -> u64 {
        self.quorum
    }

    /// The validator registry as an abstract sequence.
    pub closed spec fn spec_validators(self) -> Seq<Validator> {
        self.validators@
    }

    /// The queue of pending candidate blocks.
    pub closed spec fn spec_pending(self) -> Seq<Block> {
        self.pending_blocks@
    }

    /// The committed chain.
    pub closed spec fn spec_chain(self) -> Seq<Block> {
        self.blockchain@
    }

    /// Engine well-formedness: fractions lie in the half-open unit
    /// interval, the registry is well formed, and the chain is hash-linked.
    pub open spec fn wf(self) -> bool {
        &&& 0 < self.spec_threshold() <= RATIO_SCALE
        &&& 0 < self.spec_quorum() <= RATIO_SCALE
        &&& validators_wf(self.spec_validators())
        &&& engine_chain_ok(self.spec_chain())
    }

    /// Builds an engine. Fails unless both the threshold and the quorum lie
    /// in the half-open unit interval.
    pub fn new(threshold: u64, quorum: u64) -> (r: IcnResult<PoCConsensus>)
        ensures
            (0 < threshold <= RATIO_SCALE && 0 < quorum <= RATIO_SCALE) <==> r is Ok,
            r matches Ok(c) ==> c.wf() && c.spec_threshold() == threshold && c.spec_quorum()
                == quorum && c.spec_validators() =~= Seq::<Validator>::empty() && c.spec_pending()
                =~= Seq::<Block>::empty() && c.spec_chain() =~= Seq::<Block>::empty(),
            r is Err ==> (r matches Err(IcnError::Consensus(m)) && m@
                == "Invalid threshold or quorum value"@),
    {
        if threshold == 0 || threshold > RATIO_SCALE || quorum == 0 || quorum > RATIO_SCALE {
            return Err(IcnError::Consensus("Invalid threshold or quorum value".to_owned()));
        }
        Ok(
            PoCConsensus {
                threshold,
                quorum,
                validators: Vec::new(),
                pending_blocks: Vec::new(),
                blockchain: Vec::new(),
            },
        )
    }

    /// Brings the engine online. The engine keeps no run state, so this
    /// never fails.
    pub fn start(&self) -> (r: IcnResult<()>)
        ensures
            r is Ok,
    {
        Ok(())
    }

    /// Takes the engine offline. The engine keeps no run state, so this
    /// never fails.
    pub fn stop(&self) -> (r: IcnResult<()>)
        ensures
            r is Ok,
    {
        Ok(())
    }

    /// The number of registered validators.
    pub fn validator_count(&self) -> (r: usize)
        ensures
            r == self.spec_validators().len(),
    {
        self.validators.len()
    }

    /// Looks up the reputation recorded for an identity.
    pub fn get_validator_reputation(&self, id: &str) -> (r: Option<u64>)
        ensures
            r is Some <==> has_validator(self.spec_validators(), id@),
            r matches Some(x) ==> exists|i: int|
                0 <= i < self.spec_validators().len() && (#[trigger] self.spec_validators()[i]).id@
                    == id@ && self.spec_validators()[i].reputation == x,
    {
        let mut i: usize = 0;
        while i < self.validators.len()
            invariant
                i <= self.validators@.len(),
                forall|j: int| 0 <= j < i ==> (#[trigger] self.validators@[j]).id@ != id@,
            decreases self.validators@.len() - i,
        {
            if str_eq(self.validators[i].id.as_str(), id) {
                proof {
                    assert(self.spec_validators()[i as int].id@ == id@);
                }
                return Some(self.validators[i].reputation);
            }
            i += 1;
        }
        None
    }

    /// Inserts a validator or replaces the reputation of an existing one.
    /// Fails when the reputation lies outside the unit interval.
    pub fn add_validator(&mut self, id: String, initial_reputation: u64) -> (r: IcnResult<()>)
        requires
            old(self).wf(),
        ensures
            final(self).wf(),
            final(self).spec_threshold() == old(self).spec_threshold(),
            final(self).spec_quorum() == old(self).spec_quorum(),
            final(self).spec_pending() == old(self).spec_pending(),
            final(self).spec_chain() == old(self).spec_chain(),
            r is Ok <==> initial_reputation <= RATIO_SCALE,
            r is Err ==> (r matches Err(IcnError::Consensus(m)) && m@
                == "Invalid initial reputation"@) && final(self).spec_validators() == old(self).spec_validators(),
            r is Ok && !has_validator(old(self).spec_validators(), id@) ==> final(self).spec_validators() =~= old(self).spec_validators().push(
                Validator { id: id, reputation: initial_reputation },
            ),
            r is Ok && has_validator(old(self).spec_validators(), id@) ==> exists|i: int|
                0 <= i < old(self).spec_validators().len() && (#[trigger] old(self).spec_validators()[i]).id@ == id@ && final(self).spec_validators() =~= old(self).spec_validators().update(i, Validator { id: id, reputation: initial_reputation }),
    {
        if initial_reputation > RATIO_SCALE {
            return Err(IcnError::Consensus("Invalid initial reputation".to_owned()));
        }
        let mut i: usize = 0;
        while i < self.validators.len()
            invariant
                *self == *old(self),
                old(self).wf(),
                initial_reputation <= RATIO_SCALE,
                i <= self.validators@.len(),
                forall|j: int| 0 <= j < i ==> (#[trigger] self.validators@[j]).id@ != id@,
            decreases self.validators@.len() - i,
        {
            if str_eq(self.validators[i].id.as_str(), id.as_str()) {
                let ghost pre = self.validators@;
                let ghost vnew = Validator { id: id, reputation: initial_reputation };
                self.validators.set(i, Validator { id, reputation: initial_reputation });
                proof {
                    assert(self.validators@ =~= pre.update(i as int, vnew));
                    assert(pre[i as int].id@ == id@);
                    assert forall|a: int, b: int|
                        0 <= a < b < self.validators@.len() implies self.validators@[a].id@
                        != self.validators@[b].id@ by {
                        assert(pre[a].id@ != pre[b].id@);
                    }
                }
                return Ok(());
            }
            i += 1;
        }
        self.validators.push(Validator { id, reputation: initial_reputation });
        Ok(())
    }

    /// Removes a validator. Removing an absent identity is not an error.
    pub fn remove_validator(&mut self, id: &str) -> (r: IcnResult<()>)
        requires
            old(self).wf(),
        ensures
            final(self).wf(),
            r is Ok,
            final(self).spec_threshold() == old(self).spec_threshold(),
            final(self).spec_quorum() == old(self).spec_quorum(),
            final(self).spec_pending() == old(self).spec_pending(),
            final(self).spec_chain() == old(self).spec_chain(),
            !has_validator(old(self).spec_validators(), id@) ==> final(self).spec_validators()
                == old(self).spec_validators(),
            has_validator(old(self).spec_validators(), id@) ==> exists|i: int|
                0 <= i < old(self).spec_validators().len() && (#[trigger] old(self).spec_validators()[i]).id@ == id@ && final(self).spec_validators() =~= old(self).spec_validators().remove(i),
            !has_validator(final(self).spec_validators(), id@),
    {
        let mut i: usize = 0;
        while i < self.validators.len()
            invariant
                *self == *old(self),
                old(self).wf(),
                i <= self.validators@.len(),
                forall|j: int| 0 <= j < i ==> (#[trigger] self.validators@[j]).id@ != id@,
            decreases self.validators@.len() - i,
        {
            if str_eq(self.validators[i].id.as_str(), id) {
                let ghost pre = self.validators@;
                self.validators.remove(i);
                proof {
                    assert forall|a: int, b: int|
                        0 <= a < b < self.validators@.len() implies self.validators@[a].id@
                        != self.validators@[b].id@ by {
                        if b < i {
                        } else if a < i {
                            assert(self.validators@[b] == pre[b + 1]);
                        } else {
                            assert(self.validators@[a] == pre[a + 1]);
                            assert(self.validators@[b] == pre[b + 1]);
                        }
                    }
                    assert forall|a: int|
                        0 <= a < self.validators@.len() implies self.validators@[a].id@ != id@ by {
                        if a < i {
                        } else {
                            assert(self.validators@[a] == pre[a + 1]);
                        }
                    }
                }
                return Ok(());
            }
            i += 1;
        }
        Ok(())
    }

    /// Replaces the reputation of a registered validator. Fails when the
    /// reputation lies outside the unit interval or the identity is absent.
    pub fn update_validator_reputation(&mut self, id: &str, new_reputation: u64) -> (r: IcnResult<
        (),
    >)
        requires
            old(self).wf(),
        ensures
            final(self).wf(),
            final(self).spec_threshold() == old(self).spec_threshold(),
            final(self).spec_quorum() == old(self).spec_quorum(),
            final(self).spec_pending() == old(self).spec_pending(),
            final(self).spec_chain() == old(self).spec_chain(),
            r is Ok <==> (new_reputation <= RATIO_SCALE && has_validator(
                old(self).spec_validators(),
                id@,
            )),
            new_reputation > RATIO_SCALE ==> (r matches Err(IcnError::Consensus(m)) && m@
                == "Invalid reputation value"@) && final(self).spec_validators() == old(self).spec_validators(),
            new_reputation <= RATIO_SCALE && !has_validator(old(self).spec_validators(), id@) ==> (
            r matches Err(IcnError::Consensus(m)) && m@ == "Validator not found"@) && final(self).spec_validators() == old(self).spec_validators(),
            r is Ok ==> exists|i: int|
                0 <= i < old(self).spec_validators().len() && (#[trigger] old(self).spec_validators()[i]).id@ == id@ && final(self).spec_validators() =~= old(self).spec_validators().update(
                    i,
                    Validator { id: old(self).spec_validators()[i].id, reputation: new_reputation },
                ),
    {
        if new_reputation > RATIO_SCALE {
            return Err(IcnError::Consensus("Invalid reputation value".to_owned()));
        }
        let mut i: usize = 0;
        while i < self.validators.len()
            invariant
                *self == *old(self),
                old(self).wf(),
                new_reputation <= RATIO_SCALE,
                i <= self.validators@.len(),
                forall|j: int| 0 <= j < i ==> (#[trigger] self.validators@[j]).id@ != id@,
            decreases self.validators@.len() - i,
        {
            if str_eq(self.validators[i].id.as_str(), id) {
                let ghost pre = self.validators@;
                let entry = self.validators.remove(i);
                let replaced = Validator { id: entry.id, reputation: new_reputation };
                self.validators.insert(i, replaced);
                proof {
                    assert(pre[i as int].id@ == id@);
                    assert(self.validators@ =~= pre.update(
                        i as int,
                        Validator { id: pre[i as int].id, reputation: new_reputation },
                    ));
                    assert forall|a: int, b: int|
                        0 <= a < b < self.validators@.len() implies self.validators@[a].id@
                        != self.validators@[b].id@ by {
                        assert(pre[a].id@ != pre[b].id@);
                    }
                }
                return Ok(());
            }
            i += 1;
        }
        Err(IcnError::Consensus("Validator not found".to_owned()))
    }

    /// A structural copy of the committed chain.
    pub fn get_blockchain(&self) -> (r: IcnResult<Vec<Block>>)
        ensures
            r matches Ok(c) && c@.len() == self.spec_chain().len(),
            r matches Ok(c) ==> forall|i: int|
                0 <= i < c@.len() ==> block_eq(#[trigger] c@[i], self.spec_chain()[i]),
    {
        let mut out: Vec<Block> = Vec::new();
        let mut i: usize = 0;
        while i < self.blockchain.len()
            invariant
                i <= self.blockchain@.len(),
                out@.len() == i,
                forall|j: int| 0 <= j < i ==> block_eq(#[trigger] out@[j], self.blockchain@[j]),
            decreases self.blockchain@.len() - i,
        {
            out.push(self.blockchain[i].clone());
            i += 1;
        }
        Ok(out)
    }

    /// Appends a block that the engine's validation predicate accepts.
    pub fn add_block_to_chain(&mut self, block: Block) -> (r: IcnResult<()>)
        requires
            old(self).wf(),
            block_valid_spec(old(self).spec_chain(), block),
        ensures
            final(self).wf(),
            r is Ok,
            final(self).spec_chain() =~= old(self).spec_chain().push(block),
            final(self).spec_threshold() == old(self).spec_threshold(),
            final(self).spec_quorum() == old(self).spec_quorum(),
            final(self).spec_pending() == old(self).spec_pending(),
            final(self).spec_validators() == old(self).spec_validators(),
    {
        let ghost pre = self.blockchain@;
        self.blockchain.push(block);
        proof {
            assert forall|i: int|
                0 <= i < self.blockchain@.len() implies ((#[trigger] self.blockchain@[i]).index
                == 0 || (i > 0 && self.blockchain@[i].previous_hash@ == self.blockchain@[i
                - 1].hash@ && self.blockchain@[i].hash@ == block_hash_chars(self.blockchain@[i])
                && block_txs_ok(self.blockchain@[i]))) by {
                if i < pre.len() {
                    assert(self.blockchain@[i] == pre[i]);
                    if i > 0 {
                        assert(self.blockchain@[i - 1] == pre[i - 1]);
                    }
                } else {
                    assert(self.blockchain@[i] == block);
                    if block.index != 0 {
                        assert(pre.len() > 0);
                        assert(self.blockchain@[i - 1] == pre.last());
                    }
                }
            }
        }
        Ok(())
    }

    /// The engine's per-transaction predicate: the amount must be positive.
    fn validate_transaction(&self, transaction: &Transaction) -> (r: IcnResult<bool>)
        ensures
            r matches Ok(b) && b == (transaction.amount > 0),
    {
        if transaction.amount == 0 {
            return Ok(false);
        }
        Ok(true)
    }

    /// Runs the engine's block validation predicate against the committed
    /// chain. A non-initial block on an empty chain is an error; any other
    /// outcome is the predicate's verdict.
    fn validate_block(&self, block: &Block) -> (r: IcnResult<bool>)
        requires
            self.wf(),
        ensures
            block.index != 0 && self.spec_chain().len() == 0 ==> (r matches Err(
                IcnError::Consensus(m),
            ) && m@ == "No previous block found"@),
            !(block.index != 0 && self.spec_chain().len() == 0) ==> (r matches Ok(b) && b
                == block_valid_spec(self.spec_chain(), *block)),
    {
        if block.index == 0 {
            return Ok(true);
        }
        if self.blockchain.len() == 0 {
            return Err(IcnError::Consensus("No previous block found".to_owned()));
        }
        let previous_block = &self.blockchain[self.blockchain.len() - 1];
        if !str_eq(block.previous_hash.as_str(), previous_block.hash.as_str()) {
            return Ok(false);
        }
        let recomputed = block.calculate_hash();
        if !str_eq(block.hash.as_str(), recomputed.as_str()) {
            return Ok(false);
        }
        let mut i: usize = 0;
        while i < block.transactions.len()
            invariant
                block.index != 0,
                self.spec_chain().len() > 0,
                block.previous_hash@ == self.spec_chain().last().hash@,
                block.hash@ == block_hash_chars(*block),
                i <= block.transactions@.len(),
                forall|j: int|
                    0 <= j < i ==> (#[trigger] block.transactions@[j]).amount > 0,
            decreases block.transactions@.len() - i,
        {
            if !self.validate_transaction(&block.transactions[i])? {
                return Ok(false);
            }
            i += 1;
        }
        Ok(true)
    }

    /// Polls the validators in registry order with a uniform verdict and
    /// returns the round decision of the accumulator semantics.
    fn weigh_votes(&self, valid: bool) -> (d: RoundDecision)
        requires
            self.wf(),
        ensures
            d == round_decision(
                self.spec_validators(),
                uniform_votes(self.spec_validators().len(), valid),
                self.spec_threshold() as int,
                self.spec_quorum() as int,
            ),
    {
        let ghost vs = self.validators@;
        let ghost votes = uniform_votes(vs.len(), valid);
        let mut total: u128 = 0;
        let mut i: usize = 0;
        while i < self.validators.len()
            invariant
                self.wf(),
                vs == self.validators@,
                i <= vs.len(),
                total == sum_rep(vs.subrange(0, i as int)),
                total <= (i as int) * (RATIO_SCALE as int),
            decreases vs.len() - i,
        {
            proof {
                let pre = vs.subrange(0, i as int);
                let post = vs.subrange(0, i + 1);
                assert(post.drop_last() =~= pre);
                assert(post.last() == vs[i as int]);
            }
            total = total + self.validators[i].reputation as u128;
            i += 1;
        }
        proof {
            assert(vs.subrange(0, vs.len() as int) =~= vs);
            assert((total as int) * (self.quorum as int) <= (usize::MAX as int) * 1000 * 1000)
                by (nonlinear_arith)
                requires
                    0 <= total as int <= (usize::MAX as int) * 1000,
                    0 <= self.quorum as int <= 1000,
            ;
        }
        let quorum_mass: u128 = total * self.quorum as u128;
        let ghost qm = sum_rep(vs) * self.spec_quorum() as int;
        let mut seen: u128 = 0;
        let mut yes: u128 = 0;
        let mut k: usize = 0;
        while k < self.validators.len()
            invariant
                self.wf(),
                vs == self.validators@,
                votes == uniform_votes(vs.len(), valid),
                k <= vs.len(),
                seen == sum_rep(vs.subrange(0, k as int)),
                yes == if valid {
                    seen
                } else {
                    0
                },
                seen <= (k as int) * (RATIO_SCALE as int),
                quorum_mass == qm,
                qm == sum_rep(vs) * (self.spec_quorum() as int),
                decide_from(vs, votes, self.spec_threshold() as int, qm, 0, 0, 0) == decide_from(
                    vs,
                    votes,
                    self.spec_threshold() as int,
                    qm,
                    seen as int,
                    yes as int,
                    k as int,
                ),
            decreases vs.len() - k,
        {
            proof {
                let pre = vs.subrange(0, k as int);
                let post = vs.subrange(0, k + 1);
                assert(post.drop_last() =~= pre);
                assert(post.last() == vs[k as int]);
            }
            let rep = self.validators[k].reputation;
            let seen2 = seen + rep as u128;
            let yes2 = if valid {
                yes + rep as u128
            } else {
                yes
            };
            let ghost t = self.spec_threshold() as int;
            proof {
                assert(votes[k as int] == valid);
                assert(decide_from(vs, votes, t, qm, seen as int, yes as int, k as int) == (if (
                seen2 as int) > 0 && (seen2 as int) * (RATIO_SCALE as int) >= qm {
                    if (yes2 as int) * (RATIO_SCALE as int) >= t * (seen2 as int) {
                        RoundDecision::Committed
                    } else {
                        RoundDecision::Rejected
                    }
                } else {
                    decide_from(vs, votes, t, qm, seen2 as int, yes2 as int, k + 1)
                }));
                assert((t) * (seen2 as int) <= 1000 * ((usize::MAX as int) * 1000))
                    by (nonlinear_arith)
                    requires
                        0 <= t <= 1000,
                        0 <= seen2 as int <= (usize::MAX as int) * 1000,
                ;
            }
            seen = seen2;
            yes = yes2;
            if seen > 0 && seen * (RATIO_SCALE as u128) >= quorum_mass {
                if yes * (RATIO_SCALE as u128) >= self.threshold as u128 * seen {
                    return RoundDecision::Committed;
                } else {
                    return RoundDecision::Rejected;
                }
            }
            k += 1;
        }
        RoundDecision::Pending
    }

    /// Enqueues a candidate block, then runs the consensus round over the
    /// whole queue of pending candidates.
    pub fn process_new_block(&mut self, block: Block) -> (r: IcnResult<()>)
        requires
            old(self).wf(),
        ensures
            final(self).wf(),
            final(self).spec_threshold() == old(self).spec_threshold(),
            final(self).spec_quorum() == old(self).spec_quorum(),
            final(self).spec_validators() == old(self).spec_validators(),
            ({
                let out = process_queue(
                    old(self).spec_chain(),
                    old(self).spec_validators(),
                    old(self).spec_threshold() as int,
                    old(self).spec_quorum() as int,
                    old(self).spec_pending().push(block),
                );
                &&& final(self).spec_chain() =~= out.0
                &&& final(self).spec_pending() =~= out.1
                &&& (r is Ok <==> out.2 is Done)
                &&& (out.2 is MissingPrev ==> (r matches Err(IcnError::Consensus(m)) && m@
                    == "No previous block found"@))
                &&& (out.2 is RejectedBlock ==> (r matches Err(IcnError::Consensus(m)) && m@
                    == "Block rejected by consensus"@))
            }),
    {
        self.pending_blocks.push(block);
        self.try_reach_consensus()
    }

    /// Works through the queue of pending candidates, front to back: each
    /// candidate is committed, rejected, or kept pending, as the queue
    /// semantics states.
    fn try_reach_consensus(&mut self) -> (r: IcnResult<()>)
        requires
            old(self).wf(),
        ensures
            final(self).wf(),
            final(self).spec_threshold() == old(self).spec_threshold(),
            final(self).spec_quorum() == old(self).spec_quorum(),
            final(self).spec_validators() == old(self).spec_validators(),
            ({
                let out = process_queue(
                    old(self).spec_chain(),
                    old(self).spec_validators(),
                    old(self).spec_threshold() as int,
                    old(self).spec_quorum() as int,
                    old(self).spec_pending(),
                );
                &&& final(self).spec_chain() =~= out.0
                &&& final(self).spec_pending() =~= out.1
                &&& (r is Ok <==> out.2 is Done)
                &&& (out.2 is MissingPrev ==> (r matches Err(IcnError::Consensus(m)) && m@
                    == "No previous block found"@))
                &&& (out.2 is RejectedBlock ==> (r matches Err(IcnError::Consensus(m)) && m@
                    == "Block rejected by consensus"@))
            }),
    {
        let ghost chain0 = self.blockchain@;
        let ghost queue0 = self.pending_blocks@;
        let ghost vs = self.validators@;
        let ghost t = self.threshold as int;
        let ghost q = self.quorum as int;
        let ghost target = process_queue(chain0, vs, t, q, queue0);
        let mut queue: Vec<Block> = Vec::new();
        core::mem::swap(&mut queue, &mut self.pending_blocks);
        let mut kept: Vec<Block> = Vec::new();
        proof {
            assert(kept@ + process_queue(self.blockchain@, vs, t, q, queue@).1 =~= process_queue(
                self.blockchain@,
                vs,
                t,
                q,
                queue@,
            ).1);
        }
        while queue.len() > 0
            invariant
                self.wf(),
                self.validators@ == vs,
                vs == old(self).spec_validators(),
                self.threshold == old(self).spec_threshold(),
                self.quorum == old(self).spec_quorum(),
                t == self.threshold as int,
                q == self.quorum as int,
                self.pending_blocks@ =~= Seq::<Block>::empty(),
                target == process_queue(chain0, vs, t, q, queue0),
                chain0 == old(self).spec_chain(),
                queue0 == old(self).spec_pending(),
                target.0 == process_queue(self.blockchain@, vs, t, q, queue@).0,
                target.1 =~= kept@ + process_queue(self.blockchain@, vs, t, q, queue@).1,
                target.2 == process_queue(self.blockchain@, vs, t, q, queue@).2,
            decreases queue.len(),
        {
            let ghost chain_pre = self.blockchain@;
            let ghost queue_pre = queue@;
            let b = queue.remove(0);
            proof {
                assert(queue@ =~= queue_pre.drop_first());
                assert(queue_pre[0] == b);
            }
            let ghost rest = queue@;
            if self.validators.len() == 0 {
                let ghost kept_pre = kept@;
                kept.push(b);
                proof {
                    let sub = process_queue(chain_pre, vs, t, q, rest);
                    assert(process_queue(chain_pre, vs, t, q, queue_pre) == (
                    sub.0,
                    seq![b] + sub.1,
                    sub.2,
                    ));
                    assert(kept_pre + (seq![b] + sub.1) =~= kept@ + sub.1);
                }
            } else if b.index != 0 && self.blockchain.len() == 0 {
                let ghost kept_pre = kept@;
                kept.push(b);
                kept.append(&mut queue);
                core::mem::swap(&mut self.pending_blocks, &mut kept);
                proof {
                    assert(process_queue(chain_pre, vs, t, q, queue_pre) == (
                    chain_pre,
                    queue_pre,
                    RoundStatus::MissingPrev,
                    ));
                    assert(self.pending_blocks@ =~= kept_pre.push(b) + rest);
                    assert(kept_pre.push(b) + rest =~= kept_pre + queue_pre);
                }
                return Err(IcnError::Consensus("No previous block found".to_owned()));
            } else {
                let valid = match self.validate_block(&b) {
                    Ok(v) => v,
                    Err(e) => {
                        proof {
                            assert(false);
                        }
                        return Err(e);
                    },
                };
                let d = self.weigh_votes(valid);
                proof {
                    assert(valid == block_valid_spec(chain_pre, b));
                    assert(d == round_decision(vs, uniform_votes(vs.len(), valid), t, q));
                }
                match d {
                    RoundDecision::Committed => {
                        proof {
                            if !valid {
                                lemma_all_refuse_never_commits(
                                    vs,
                                    uniform_votes(vs.len(), false),
                                    t,
                                    sum_rep(vs) * q,
                                    0,
                                    0,
                                );
                                assert(false);
                            }
                        }
                        let outcome = self.add_block_to_chain(b);
                        proof {
                            let sub = process_queue(chain_pre.push(b), vs, t, q, rest);
                            assert(process_queue(chain_pre, vs, t, q, queue_pre) == sub);
                        }
                        match outcome {
                            Ok(()) => (),
                            Err(e) => {
                                proof {
                                    assert(false);
                                }
                                return Err(e);
                            },
                        }
                    },
                    RoundDecision::Rejected => {
                        let ghost kept_pre = kept@;
                        kept.append(&mut queue);
                        core::mem::swap(&mut self.pending_blocks, &mut kept);
                        proof {
                            assert(process_queue(chain_pre, vs, t, q, queue_pre) == (
                            chain_pre,
                            rest,
                            RoundStatus::RejectedBlock,
                            ));
                            assert(self.pending_blocks@ =~= kept_pre + rest);
                        }
                        return Err(IcnError::Consensus("Block rejected by consensus".to_owned()));
                    },
                    RoundDecision::Pending => {
                        let ghost kept_pre = kept@;
                        kept.push(b);
                        proof {
                            let sub = process_queue(chain_pre, vs, t, q, rest);
                            assert(process_queue(chain_pre, vs, t, q, queue_pre) == (
                            sub.0,
                            seq![b] + sub.1,
                            sub.2,
                            ));
                            assert(kept_pre + (seq![b] + sub.1) =~= kept@ + sub.1);
                        }
                    },
                }
            }
        }
        core::mem::swap(&mut self.pending_blocks, &mut kept);
        proof {
            assert(process_queue(self.blockchain@, vs, t, q, queue@) == (
            self.blockchain@,
            Seq::<Block>::empty(),
            RoundStatus::Done,
            ));
            assert(self.pending_blocks@ + Seq::<Block>::empty() =~= self.pending_blocks@);
        }
        Ok(())
    }
}

/// Raising the consensus threshold can never turn a rejected round into a
/// committed one: for a fixed validator set and fixed votes, if the round
/// rejects at some threshold, it does not commit at any higher threshold.
pub proof fn lemma_threshold_monotonic(
    vs: Seq<Validator>,
    votes: Seq<bool>,
    t1: int,
    t2: int,
    quorum: int,
)
    requires
        0 <= t1 <= t2,
        round_decision(vs, votes, t1, quorum) is Rejected,
    ensures
        !(round_decision(vs, votes, t2, quorum) is Committed),
{
    if round_decision(vs, votes, t2, quorum) is Committed {
        lemma_decide_threshold_monotonic(vs, votes, t1, t2, sum_rep(vs) * quorum, 0, 0, 0);
    }
}

/// With a uniform verdict and thresholds inside the half-open unit
/// interval, the round decision does not depend on the threshold: a block
/// every validator accepts clears any threshold of at most one, and a block
/// every validator refuses clears none that is positive.
proof fn lemma_uniform_decide_threshold_independent(
    vs: Seq<Validator>,
    votes: Seq<bool>,
    valid: bool,
    t1: int,
    t2: int,
    quorum_mass: int,
    seen: int,
    yes: int,
    i: int,
)
    requires
        0 < t1 <= RATIO_SCALE as int,
        0 < t2 <= RATIO_SCALE as int,
        votes.len() == vs.len(),
        forall|j: int| 0 <= j < votes.len() ==> votes[j] == valid,
        seen >= 0,
        yes == if valid {
            seen
        } else {
            0
        },
    ensures
        decide_from(vs, votes, t1, quorum_mass, seen, yes, i) == decide_from(
            vs,
            votes,
            t2,
            quorum_mass,
            seen,
            yes,
            i,
        ),
    decreases vs.len() - i,
{
    if 0 <= i < vs.len() {
        let seen2 = seen + vs[i].reputation;
        let yes2 = yes + if votes[i] {
            vs[i].reputation as int
        } else {
            0
        };
        if seen2 > 0 && seen2 * (RATIO_SCALE as int) >= quorum_mass {
            if valid {
                assert(yes2 == seen2);
                assert(t1 * seen2 <= seen2 * (RATIO_SCALE as int)) by (nonlinear_arith)
                    requires
                        seen2 > 0,
                        t1 <= RATIO_SCALE as int,
                ;
                assert(t2 * seen2 <= seen2 * (RATIO_SCALE as int)) by (nonlinear_arith)
                    requires
                        seen2 > 0,
                        t2 <= RATIO_SCALE as int,
                ;
            } else {
                assert(yes2 == 0);
                assert(t1 * seen2 > 0) by (nonlinear_arith)
                    requires
                        seen2 > 0,
                        t1 > 0,
                ;
                assert(t2 * seen2 > 0) by (nonlinear_arith)
                    requires
                        seen2 > 0,
                        t2 > 0,
                ;
            }
        } else {
            lemma_uniform_decide_threshold_independent(
                vs,
                votes,
                valid,
                t1,
                t2,
                quorum_mass,
                seen2,
                yes2,
                i + 1,
            );
        }
    }
}

/// Engine-level threshold independence: two engines that differ only in
/// their threshold, both inside the half-open unit interval, work through
/// the same queue of candidates to the same chain, the same pending
/// candidates and the same status. In particular, raising the threshold
/// never converts a rejected candidate into a committed one: whatever the
/// higher threshold commits, the lower one commits too.
pub proof fn lemma_queue_threshold_independent(
    chain: Seq<Block>,
    vs: Seq<Validator>,
    t1: int,
    t2: int,
    quorum: int,
    queue: Seq<Block>,
)
    requires
        0 < t1 <= RATIO_SCALE as int,
        0 < t2 <= RATIO_SCALE as int,
    ensures
        process_queue(chain, vs, t1, quorum, queue) == process_queue(chain, vs, t2, quorum, queue),
    decreases queue.len(),
{
    if queue.len() > 0 {
        let b = queue[0];
        let rest = queue.drop_first();
        if vs.len() == 0 {
            lemma_queue_threshold_independent(chain, vs, t1, t2, quorum, rest);
        } else if b.index != 0 && chain.len() == 0 {
        } else {
            let valid = block_valid_spec(chain, b);
            let votes = uniform_votes(vs.len(), valid);
            lemma_uniform_decide_threshold_independent(
                vs,
                votes,
                valid,
                t1,
                t2,
                sum_rep(vs) * quorum,
                0,
                0,
                0,
            );
            let d = round_decision(vs, votes, t1, quorum);
            if d is Committed {
                lemma_queue_threshold_independent(chain.push(b), vs, t1, t2, quorum, rest);
            } else if d is Pending {
                lemma_queue_threshold_independent(chain, vs, t1, t2, quorum, rest);
            }
        }
    }
}

/// Every chain the engine maintains is hash-linked: each committed block
/// that is not an exempt initial block records its predecessor's hash and
/// carries the digest of its own contents.
pub proof fn lemma_engine_chain_linked(c: Seq<Block>)
    requires
        engine_chain_ok(c),
    ensures
        forall|i: int|
            0 < i < c.len() && (#[trigger] c[i]).index != 0 ==> c[i].previous_hash@ == c[i
                - 1].hash@ && c[i].hash@ == block_hash_chars(c[i]),
{
}

} // verus!
