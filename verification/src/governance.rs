//! The governance module: time-bounded proposals and quorum-weighted voting.
//!
//! Vote weights and the required quorum are absolute weight units held as
//! fixed-point integers scaled by one thousand, never fractions of a total.
//! A proposal is Active until it is finalized after its voting window
//! closes: it passes exactly when the summed weight reaches its required
//! quorum and the weight in favor holds a strict majority.

use vstd::prelude::*;

use crate::errors::{IcnError, IcnResult};
use crate::text::str_eq;

verus! {

/// The domain a proposal belongs to.
#[derive(Clone, Copy, Debug, PartialEq, Eq, Structural)]
pub enum ProposalCategory {
    Constitutional,
    Economic,
    Technical,
}

/// The lifecycle state of a proposal: Active, then Passed or Rejected, and
/// Passed may become Executed.
#[derive(Clone, Copy, Debug, PartialEq, Eq, Structural)]
pub enum ProposalStatus {
    Active,
    Passed,
    Rejected,
    Executed,
}

/// The kind of change a proposal asks for.
#[derive(Clone, Copy, Debug, PartialEq, Eq, Structural)]
pub enum ProposalType {
    Constitutional,
    EconomicAdjustment,
    NetworkUpgrade,
}

/// A governance proposal with a bounded voting window. `required_quorum`
/// is an absolute aggregate vote weight, in the same fixed-point units as
/// vote weights.
#[derive(Debug)]
pub struct Proposal {
    pub id: String,
    pub title: String,
    pub description: String,
    pub proposer: String,
    pub created_at: i64,
    pub voting_ends_at: i64,
    pub status: ProposalStatus,
    pub proposal_type: ProposalType,
    pub category: ProposalCategory,
    pub required_quorum: u64,
    pub execution_timestamp: Option<i64>,
}

/// Addition on timestamps that clamps at the ends of the representable
/// range instead of wrapping.
pub open spec fn sat_add_i64(a: i64, b: i64) -> i64 {
    let s = a + b;
    if s > i64::MAX {
        i64::MAX
    } else if s < i64::MIN {
        i64::MIN
    } else {
        s as i64
    }
}

/// Executable clamped addition on timestamps.
pub fn sat_add_i64_exec(a: i64, b: i64) -> (r: i64)
    ensures
        r == sat_add_i64(a, b),
{
    let s: i128 = a as i128 + b as i128;
    if s > i64::MAX as i128 {
        i64::MAX
    } else if s < i64::MIN as i128 {
        i64::MIN
    } else {
        s as i64
    }
}

impl Proposal {
    /// Builds an Active proposal created at the given time, whose voting
    /// window closes `voting_period` seconds later.
    pub fn new_at(
        id: String,
        title: String,
        description: String,
        proposer: String,
        voting_period: i64,
        proposal_type: ProposalType,
        category: ProposalCategory,
        required_quorum: u64,
        execution_timestamp: Option<i64>,
        now: i64,
    ) -> (r: Proposal)
        ensures
            r.id@ == id@,
            r.title@ == title@,
            r.description@ == description@,
            r.proposer@ == proposer@,
            r.created_at == now,
            r.voting_ends_at == sat_add_i64(now, voting_period),
            r.status == ProposalStatus::Active,
            r.proposal_type == proposal_type,
            r.category == category,
            r.required_quorum == required_quorum,
            r.execution_timestamp == execution_timestamp,
    {
        let voting_ends_at = sat_add_i64_exec(now, voting_period);
        Proposal {
            id,
            title,
            description,
            proposer,
            created_at: now,
            voting_ends_at,
            status: ProposalStatus::Active,
            proposal_type,
            category,
            required_quorum,
            execution_timestamp,
        }
    }
}

impl Proposal {
    /// Builds an Active proposal created at the current wall-clock second.
    /// The voting window closes `voting_period` seconds after creation.
    pub fn new(
        id: String,
        title: String,
        description: String,
        proposer: String,
        voting_period: i64,
        proposal_type: ProposalType,
        category: ProposalCategory,
        required_quorum: u64,
        execution_timestamp: Option<i64>,
    ) -> (r: Proposal)
        ensures
            r.id@ == id@,
            r.title@ == title@,
            r.description@ == description@,
            r.proposer@ == proposer@,
            r.voting_ends_at == sat_add_i64(r.created_at, voting_period),
            r.status == ProposalStatus::Active,
            r.proposal_type == proposal_type,
            r.category == category,
            r.required_quorum == required_quorum,
            r.execution_timestamp == execution_timestamp,
    {
        let now = crate::clock::now_seconds();
        Self::new_at(
            id,
            title,
            description,
            proposer,
            voting_period,
            proposal_type,
            category,
            required_quorum,
            execution_timestamp,
            now,
        )
    }
}

impl Clone for Proposal {
    /// The copy equals the original.
    fn clone(&self) -> (r: Self)
        ensures
            r == *self,
    {
        Proposal {
            id: self.id.clone(),
            title: self.title.clone(),
            description: self.description.clone(),
            proposer: self.proposer.clone(),
            created_at: self.created_at,
            voting_ends_at: self.voting_ends_at,
            status: self.status,
            proposal_type: self.proposal_type,
            category: self.category,
            required_quorum: self.required_quorum,
            execution_timestamp: self.execution_timestamp,
        }
    }
}

/// One weighted vote by one voter on one proposal.
#[derive(Debug)]
pub struct Vote {
    pub voter: String,
    pub proposal_id: String,
    pub in_favor: bool,
    pub weight: u64,
    pub timestamp: i64,
}

impl Vote {
    /// Builds a vote stamped with the given time.
    pub fn new_at(voter: String, proposal_id: String, in_favor: bool, weight: u64, now: i64) -> (r:
        Vote)
        ensures
            r.voter@ == voter@,
            r.proposal_id@ == proposal_id@,
            r.in_favor == in_favor,
            r.weight == weight,
            r.timestamp == now,
    {
        Vote { voter, proposal_id, in_favor, weight, timestamp: now }
    }
}

impl Vote {
    /// Builds a vote stamped with the current wall-clock second.
    pub fn new(voter: String, proposal_id: String, in_favor: bool, weight: u64) -> (r: Vote)
        ensures
            r.voter@ == voter@,
            r.proposal_id@ == proposal_id@,
            r.in_favor == in_favor,
            r.weight == weight,
    {
        let now = crate::clock::now_seconds();
        Self::new_at(voter, proposal_id, in_favor, weight, now)
    }
}

impl Clone for Vote {
    /// The copy equals the original.
    fn clone(&self) -> (r: Self)
        ensures
            r == *self,
    {
        Vote {
            voter: self.voter.clone(),
            proposal_id: self.proposal_id.clone(),
            in_favor: self.in_favor,
            weight: self.weight,
            timestamp: self.timestamp,
        }
    }
}

/// The summed weight of a vote sequence.
pub open spec fn weight_sum(vs: Seq<Vote>) -> int
    decreases vs.len(),
{
    if vs.len() == 0 {
        0
    } else {
        weight_sum(vs.drop_last()) + vs.last().weight
    }
}

/// The summed weight of the votes in favor.
pub open spec fn yes_sum(vs: Seq<Vote>) -> int
    decreases vs.len(),
{
    if vs.len() == 0 {
        0
    } else {
        yes_sum(vs.drop_last()) + if vs.last().in_favor {
            vs.last().weight as int
        } else {
            0
        }
    }
}

/// Both sums are non-negative and the favorable weight never exceeds the
/// total weight.
pub proof fn lemma_vote_sums_bounded(vs: Seq<Vote>)
    ensures
        0 <= yes_sum(vs) <= weight_sum(vs),
    decreases vs.len(),
{
    if vs.len() > 0 {
        lemma_vote_sums_bounded(vs.drop_last());
    }
}

/// The status that finalization assigns, given the vote tallies and the
/// required quorum: Rejected below quorum, Passed on a strict majority in
/// favor, Rejected otherwise (a tie rejects).
pub open spec fn finalize_status(w: int, y: int, quorum: int) -> ProposalStatus {
    if w < quorum {
        ProposalStatus::Rejected
    } else if 2 * y > w {
        ProposalStatus::Passed
    } else {
        ProposalStatus::Rejected
    }
}

/// Whether a proposal with the given id exists.
pub open spec fn has_proposal(ps: Seq<Proposal>, id: Seq<char>) -> bool {
    exists|i: int| 0 <= i < ps.len() && (#[trigger] ps[i]).id@ == id
}

/// Whether the given voter already voted in a vote sequence.
pub open spec fn voter_voted(vs: Seq<Vote>, voter: Seq<char>) -> bool {
    exists|k: int| 0 <= k < vs.len() && (#[trigger] vs[k]).voter@ == voter
}

/// The full contract of casting a vote at time `now`: which error comes on
/// which store, and how the vote lists change on success.
pub open spec fn vote_outcome(
    pre: GovernanceSystem,
    post: GovernanceSystem,
    proposal_id: Seq<char>,
    voter: String,
    in_favor: bool,
    weight: u64,
    now: i64,
    r: IcnResult<()>,
) -> bool {
    &&& post.spec_proposals() == pre.spec_proposals()
    &&& (r is Err ==> post.spec_votes() == pre.spec_votes())
    &&& (!has_proposal(pre.spec_proposals(), proposal_id) ==> (r matches Err(IcnError::Governance(
        m,
    )) && m@ == "Proposal not found"@))
    &&& (forall|i: int|
        0 <= i < pre.spec_proposals().len() && (#[trigger] pre.spec_proposals()[i]).id@
            == proposal_id ==> {
            let p = pre.spec_proposals()[i];
            let cast = pre.spec_votes()[i];
            &&& (p.status != ProposalStatus::Active ==> (r matches Err(IcnError::Governance(m))
                && m@ == "Proposal is not active"@))
            &&& (p.status == ProposalStatus::Active && now > p.voting_ends_at ==> (r matches Err(
                IcnError::Governance(m),
            ) && m@ == "Voting period has ended"@))
            &&& (p.status == ProposalStatus::Active && now <= p.voting_ends_at && voter_voted(
                cast,
                voter@,
            ) ==> (r matches Err(IcnError::Governance(m)) && m@
                == "Voter has already voted on this proposal"@))
            &&& (p.status == ProposalStatus::Active && now <= p.voting_ends_at && !voter_voted(
                cast,
                voter@,
            ) ==> r is Ok && post.spec_votes() =~= pre.spec_votes().update(
                i,
                cast.push(
                    Vote {
                        voter: voter,
                        proposal_id: p.id,
                        in_favor: in_favor,
                        weight: weight,
                        timestamp: now,
                    },
                ),
            ))
        })
    &&& (r is Ok <==> (exists|i: int|
        0 <= i < pre.spec_proposals().len() && (#[trigger] pre.spec_proposals()[i]).id@
            == proposal_id && pre.spec_proposals()[i].status == ProposalStatus::Active && now
            <= pre.spec_proposals()[i].voting_ends_at && !voter_voted(pre.spec_votes()[i], voter@)))
}

/// The full contract of finalizing a proposal at time `now`: which error
/// comes on which store, the status assigned on success, and the quorum and
/// majority facts that a Passed verdict certifies.
pub open spec fn finalize_outcome(
    pre: GovernanceSystem,
    post: GovernanceSystem,
    proposal_id: Seq<char>,
    now: i64,
    r: IcnResult<ProposalStatus>,
) -> bool {
    &&& post.spec_votes() == pre.spec_votes()
    &&& (r is Err ==> post.spec_proposals() == pre.spec_proposals())
    &&& (!has_proposal(pre.spec_proposals(), proposal_id) ==> (r matches Err(IcnError::Governance(
        m,
    )) && m@ == "Proposal not found"@))
    &&& (forall|i: int|
        0 <= i < pre.spec_proposals().len() && (#[trigger] pre.spec_proposals()[i]).id@
            == proposal_id ==> {
            let p = pre.spec_proposals()[i];
            let w = weight_sum(pre.spec_votes()[i]);
            let y = yes_sum(pre.spec_votes()[i]);
            let st = finalize_status(w, y, p.required_quorum as int);
            &&& (p.status != ProposalStatus::Active ==> (r matches Err(IcnError::Governance(m))
                && m@ == "Proposal is not active"@))
            &&& (p.status == ProposalStatus::Active && now < p.voting_ends_at ==> (r matches Err(
                IcnError::Governance(m),
            ) && m@ == "Voting period has not ended yet"@))
            &&& (p.status == ProposalStatus::Active && now >= p.voting_ends_at ==> r == Ok::<
                ProposalStatus,
                IcnError,
            >(st) && post.spec_proposals() =~= pre.spec_proposals().update(
                i,
                Proposal { status: st, ..p },
            ))
            &&& (r == Ok::<ProposalStatus, IcnError>(ProposalStatus::Passed) ==> (now
                >= p.voting_ends_at && w >= p.required_quorum && 2 * y > w))
        })
    &&& (r is Ok <==> (exists|i: int|
        0 <= i < pre.spec_proposals().len() && (#[trigger] pre.spec_proposals()[i]).id@
            == proposal_id && pre.spec_proposals()[i].status == ProposalStatus::Active && now
            >= pre.spec_proposals()[i].voting_ends_at))
}

/// Proposal lifecycle and weighted voting, backed by parallel stores of
/// proposals and their vote lists.
#[derive(Debug)]
pub struct GovernanceSystem {
    proposals: Vec<Proposal>,
    votes: Vec<Vec<Vote>>,
}

impl GovernanceSystem {
    /// The stored proposals, in creation order.
    pub closed spec fn spec_proposals(self) -> Seq<Proposal> {
        self.proposals@
    }

    /// The stored vote lists: entry `i` holds the votes on proposal `i`.
    pub closed spec fn spec_votes(self) -> Seq<Seq<Vote>> {
        Seq::new(self.votes@.len(), |i: int| self.votes@[i]@)
    }

    /// Well-formedness: the stores run in parallel, proposal ids are
    /// unique, every vote names the proposal it is stored under, and no
    /// voter appears twice under one proposal.
    pub open spec fn wf(self) -> bool {
        &&& self.spec_proposals().len() == self.spec_votes().len()
        &&& forall|i: int, j: int|
            0 <= i < j < self.spec_proposals().len() ==> (#[trigger] self.spec_proposals()[i]).id@
                != (#[trigger] self.spec_proposals()[j]).id@
        &&& forall|i: int, k: int|
            0 <= i < self.spec_votes().len() && 0 <= k < self.spec_votes()[i].len() ==> (
            #[trigger] self.spec_votes()[i][k]).proposal_id@ == self.spec_proposals()[i].id@
        &&& forall|i: int, j: int, k: int|
            0 <= i < self.spec_votes().len() && 0 <= j < k < self.spec_votes()[i].len() ==> (
            #[trigger] self.spec_votes()[i][j]).voter@ != (#[trigger] self.spec_votes()[i][k]).voter@
    }

    /// An empty governance store.
    pub fn new() -> (r: GovernanceSystem)
        ensures
            r.wf(),
            r.spec_proposals() =~= Seq::<Proposal>::empty(),
            r.spec_votes() =~= Seq::<Seq<Vote>>::empty(),
    {
        GovernanceSystem { proposals: Vec::new(), votes: Vec::new() }
    }

    /// Finds the index of the proposal with the given id.
    fn find_index(&self, proposal_id: &str) -> (r: Option<usize>)
        ensures
            r is Some <==> has_proposal(self.spec_proposals(), proposal_id@),
            r matches Some(i) ==> 0 <= i < self.spec_proposals().len()
                && self.spec_proposals()[i as int].id@ == proposal_id@,
    {
        let mut i: usize = 0;
        while i < self.proposals.len()
            invariant
                i <= self.proposals@.len(),
                forall|j: int| 0 <= j < i ==> (#[trigger] self.proposals@[j]).id@ != proposal_id@,
            decreases self.proposals@.len() - i,
        {
            if str_eq(self.proposals[i].id.as_str(), proposal_id) {
                proof {
                    assert(self.spec_proposals()[i as int].id@ == proposal_id@);
                }
                return Some(i);
            }
            i += 1;
        }
        None
    }

    /// Inserts a new proposal with an empty vote list and returns its id.
    /// Fails when the id is already taken.
    pub fn create_proposal(&mut self, proposal: Proposal) -> (r: IcnResult<String>)
        requires
            old(self).wf(),
        ensures
            final(self).wf(),
            has_proposal(old(self).spec_proposals(), proposal.id@) ==> (r matches Err(
                IcnError::Governance(m),
            ) && m@ == "Proposal ID already exists"@) && final(self).spec_proposals() == old(self).spec_proposals() && final(self).spec_votes() == old(self).spec_votes(),
            !has_proposal(old(self).spec_proposals(), proposal.id@) ==> (r matches Ok(s) && s@
                == proposal.id@) && final(self).spec_proposals() =~= old(self).spec_proposals().push(proposal) && final(self).spec_votes() =~= old(self).spec_votes().push(Seq::<Vote>::empty()),
    {
        if self.find_index(proposal.id.as_str()).is_some() {
            return Err(IcnError::Governance("Proposal ID already exists".to_owned()));
        }
        let proposal_id = proposal.id.clone();
        self.proposals.push(proposal);
        self.votes.push(Vec::new());
        proof {
            assert(final(self).spec_votes() =~= old(self).spec_votes().push(Seq::<Vote>::empty()));
            assert(final(self).spec_proposals().drop_last() =~= old(self).spec_proposals());
        }
        Ok(proposal_id)
    }

    /// Looks a proposal up by id.
    pub fn get_proposal(&self, proposal_id: &str) -> (r: Option<&Proposal>)
        ensures
            r is Some <==> has_proposal(self.spec_proposals(), proposal_id@),
            r matches Some(p) ==> exists|i: int|
                0 <= i < self.spec_proposals().len() && (#[trigger] self.spec_proposals()[i]) == *p
                    && self.spec_proposals()[i].id@ == proposal_id@,
    {
        match self.find_index(proposal_id) {
            Some(i) => {
                proof {
                    assert(self.spec_proposals()[i as int].id@ == proposal_id@);
                }
                Some(&self.proposals[i])
            },
            None => None,
        }
    }

    /// Casts a weighted vote, stamped with the given time. Fails when the
    /// proposal is absent, not Active, its window has closed, or the voter
    /// has already voted on it; errors leave the store unchanged.
    pub fn vote_on_proposal_at(
        &mut self,
        proposal_id: &str,
        voter: String,
        in_favor: bool,
        weight: u64,
        now: i64,
    ) -> (r: IcnResult<()>)
        requires
            old(self).wf(),
        ensures
            final(self).wf(),
            vote_outcome(
                *old(self),
                *final(self),
                proposal_id@,
                voter,
                in_favor,
                weight,
                now,
                r,
            ),
    {
        let idx = match self.find_index(proposal_id) {
            Some(i) => i,
            None => {
                return Err(IcnError::Governance("Proposal not found".to_owned()));
            },
        };
        if !matches!(self.proposals[idx].status, ProposalStatus::Active) {
            return Err(IcnError::Governance("Proposal is not active".to_owned()));
        }
        if now > self.proposals[idx].voting_ends_at {
            return Err(IcnError::Governance("Voting period has ended".to_owned()));
        }
        let mut k: usize = 0;
        while k < self.votes[idx].len()
            invariant
                *self == *old(self),
                old(self).wf(),
                idx < self.votes@.len(),
                idx < self.proposals@.len(),
                self.proposals@[idx as int].id@ == proposal_id@,
                self.proposals@[idx as int].status == ProposalStatus::Active,
                now <= self.proposals@[idx as int].voting_ends_at,
                k <= self.votes@[idx as int]@.len(),
                forall|j: int|
                    0 <= j < k ==> (#[trigger] self.votes@[idx as int]@[j]).voter@ != voter@,
            decreases self.votes@[idx as int]@.len() - k,
        {
            if str_eq(self.votes[idx][k].voter.as_str(), voter.as_str()) {
                proof {
                    assert(old(self).spec_votes()[idx as int] == self.votes@[idx as int]@);
                    assert(old(self).spec_votes()[idx as int][k as int].voter@ == voter@);
                    assert(voter_voted(old(self).spec_votes()[idx as int], voter@));
                }
                return Err(
                    IcnError::Governance("Voter has already voted on this proposal".to_owned()),
                );
            }
            k += 1;
        }
        proof {
            assert(old(self).spec_votes()[idx as int] == self.votes@[idx as int]@);
            assert(!voter_voted(old(self).spec_votes()[idx as int], voter@));
        }
        let ghost old_votes = self.spec_votes();
        let mut inner = self.votes.remove(idx);
        let vote = Vote {
            voter,
            proposal_id: self.proposals[idx].id.clone(),
            in_favor,
            weight,
            timestamp: now,
        };
        let ghost v = vote;
        inner.push(vote);
        self.votes.insert(idx, inner);
        proof {
            assert(v.proposal_id@ == old(self).spec_proposals()[idx as int].id@);
            assert(final(self).spec_votes() =~= old_votes.update(
                idx as int,
                old_votes[idx as int].push(v),
            ));
            assert forall|i: int, j: int, k2: int|
                0 <= i < final(self).spec_votes().len() && 0 <= j < k2 < final(self).spec_votes()[i].len() implies (#[trigger] final(self).spec_votes()[i][j]).voter@
                != (#[trigger] final(self).spec_votes()[i][k2]).voter@ by {
                if i == idx as int {
                    if k2 == final(self).spec_votes()[i].len() - 1 {
                        assert(final(self).spec_votes()[i][j] == old_votes[i][j]);
                    } else {
                        assert(final(self).spec_votes()[i][j] == old_votes[i][j]);
                        assert(final(self).spec_votes()[i][k2] == old_votes[i][k2]);
                    }
                } else {
                    assert(final(self).spec_votes()[i] == old_votes[i]);
                }
            }
        }
        Ok(())
    }

    /// Finalizes a proposal whose voting window has closed: below quorum it
    /// is Rejected, with a strict majority in favor it is Passed, and
    /// otherwise Rejected. Fails when the proposal is absent, not Active,
    /// or its window is still open; errors leave the store unchanged.
    pub fn finalize_proposal_at(&mut self, proposal_id: &str, now: i64) -> (r: IcnResult<
        ProposalStatus,
    >)
        requires
            old(self).wf(),
        ensures
            final(self).wf(),
            finalize_outcome(*old(self), *final(self), proposal_id@, now, r),
    {
        let idx = match self.find_index(proposal_id) {
            Some(i) => i,
            None => {
                return Err(IcnError::Governance("Proposal not found".to_owned()));
            },
        };
        if !matches!(self.proposals[idx].status, ProposalStatus::Active) {
            return Err(IcnError::Governance("Proposal is not active".to_owned()));
        }
        if now < self.proposals[idx].voting_ends_at {
            return Err(IcnError::Governance("Voting period has not ended yet".to_owned()));
        }
        let cast = &self.votes[idx];
        let ghost vs = cast@;
        let mut total: u128 = 0;
        let mut favor: u128 = 0;
        let mut k: usize = 0;
        while k < cast.len()
            invariant
                cast == &old(self).votes@[idx as int],
                vs == cast@,
                k <= vs.len(),
                total == weight_sum(vs.subrange(0, k as int)),
                favor == yes_sum(vs.subrange(0, k as int)),
                total <= (k as int) * (u64::MAX as int),
                favor <= total,
            decreases vs.len() - k,
        {
            proof {
                let pre = vs.subrange(0, k as int);
                let post = vs.subrange(0, k + 1);
                assert(post.drop_last() =~= pre);
                assert(post.last() == vs[k as int]);
                lemma_vote_sums_bounded(post);
            }
            total = total + cast[k].weight as u128;
            if cast[k].in_favor {
                favor = favor + cast[k].weight as u128;
            }
            k += 1;
        }
        proof {
            assert(vs.subrange(0, vs.len() as int) =~= vs);
        }
        let quorum = self.proposals[idx].required_quorum;
        let status = if total < quorum as u128 {
            ProposalStatus::Rejected
        } else if favor > total - favor {
            ProposalStatus::Passed
        } else {
            ProposalStatus::Rejected
        };
        proof {
            assert(status == finalize_status(
                weight_sum(vs),
                yes_sum(vs),
                quorum as int,
            ));
        }
        let mut p = self.proposals.remove(idx);
        p.status = status;
        self.proposals.insert(idx, p);
        proof {
            assert(final(self).spec_proposals() =~= old(self).spec_proposals().update(
                idx as int,
                Proposal { status: status, ..old(self).spec_proposals()[idx as int] },
            ));
            assert(final(self).spec_votes() =~= old(self).spec_votes());
        }
        Ok(status)
    }

    /// Marks a Passed proposal as Executed. Fails when the proposal is
    /// absent or has any other status; errors leave the store unchanged.
    pub fn mark_as_executed(&mut self, proposal_id: &str) -> (r: IcnResult<()>)
        requires
            old(self).wf(),
        ensures
            final(self).wf(),
            final(self).spec_votes() == old(self).spec_votes(),
            r is Err ==> final(self).spec_proposals() == old(self).spec_proposals(),
            !has_proposal(old(self).spec_proposals(), proposal_id@) ==> (r matches Err(
                IcnError::Governance(m),
            ) && m@ == "Proposal not found"@),
            (forall|i: int|
                0 <= i < old(self).spec_proposals().len() && (#[trigger] old(self).spec_proposals()[i]).id@ == proposal_id@ ==> {
                    let p = old(self).spec_proposals()[i];
                    &&& (p.status != ProposalStatus::Passed ==> (r matches Err(
                        IcnError::Governance(m),
                    ) && m@ == "Proposal has not passed"@))
                    &&& (p.status == ProposalStatus::Passed ==> r is Ok && final(self).spec_proposals() =~= old(self).spec_proposals().update(
                        i,
                        Proposal { status: ProposalStatus::Executed, ..p },
                    ))
                }),
            r is Ok <==> (exists|i: int|
                0 <= i < old(self).spec_proposals().len() && (#[trigger] old(self).spec_proposals()[i]).id@ == proposal_id@ && old(self).spec_proposals()[i].status
                    == ProposalStatus::Passed),
    {
        let idx = match self.find_index(proposal_id) {
            Some(i) => i,
            None => {
                return Err(IcnError::Governance("Proposal not found".to_owned()));
            },
        };
        if !matches!(self.proposals[idx].status, ProposalStatus::Passed) {
            return Err(IcnError::Governance("Proposal has not passed".to_owned()));
        }
        let mut p = self.proposals.remove(idx);
        p.status = ProposalStatus::Executed;
        self.proposals.insert(idx, p);
        proof {
            assert(final(self).spec_proposals() =~= old(self).spec_proposals().update(
                idx as int,
                Proposal {
                    status: ProposalStatus::Executed,
                    ..old(self).spec_proposals()[idx as int]
                },
            ));
            assert(final(self).spec_votes() =~= old(self).spec_votes());
        }
        Ok(())
    }

    /// Casts a weighted vote, stamped with the current wall-clock second.
    pub fn vote_on_proposal(
        &mut self,
        proposal_id: &str,
        voter: String,
        in_favor: bool,
        weight: u64,
    ) -> (r: IcnResult<()>)
        requires
            old(self).wf(),
        ensures
            final(self).wf(),
            exists|now: i64|
                #[trigger] vote_outcome(
                    *old(self),
                    *final(self),
                    proposal_id@,
                    voter,
                    in_favor,
                    weight,
                    now,
                    r,
                ),
    {
        let now = crate::clock::now_seconds();
        let r = self.vote_on_proposal_at(proposal_id, voter, in_favor, weight, now);
        r
    }

    /// Finalizes a proposal against the current wall-clock second.
    pub fn finalize_proposal(&mut self, proposal_id: &str) -> (r: IcnResult<ProposalStatus>)
        requires
            old(self).wf(),
        ensures
            final(self).wf(),
            exists|now: i64|
                #[trigger] finalize_outcome(*old(self), *final(self), proposal_id@, now, r),
    {
        let now = crate::clock::now_seconds();
        let r = self.finalize_proposal_at(proposal_id, now);
        r
    }

    /// The proposals that are still Active, in creation order.
    pub fn list_active_proposals(&self) -> (r: Vec<&Proposal>)
        ensures
            r@.map_values(|p: &Proposal| *p) =~= actives(self.spec_proposals()),
    {
        let mut out: Vec<&Proposal> = Vec::new();
        let mut i: usize = 0;
        while i < self.proposals.len()
            invariant
                i <= self.proposals@.len(),
                out@.map_values(|p: &Proposal| *p) =~= actives(
                    self.spec_proposals().subrange(0, i as int),
                ),
            decreases self.proposals@.len() - i,
        {
            let ghost pre = self.spec_proposals().subrange(0, i as int);
            let ghost post = self.spec_proposals().subrange(0, i + 1);
            proof {
                assert(post.drop_last() =~= pre);
                assert(post.last() == self.spec_proposals()[i as int]);
            }
            if matches!(self.proposals[i].status, ProposalStatus::Active) {
                out.push(&self.proposals[i]);
                proof {
                    assert(out@.map_values(|p: &Proposal| *p) =~= actives(post));
                }
            } else {
                proof {
                    assert(out@.map_values(|p: &Proposal| *p) =~= actives(post));
                }
            }
            i += 1;
        }
        proof {
            assert(self.spec_proposals().subrange(0, self.spec_proposals().len() as int)
                =~= self.spec_proposals());
        }
        out
    }
}

/// The subsequence of Active proposals, in order.
pub open spec fn actives(ps: Seq<Proposal>) -> Seq<Proposal>
    decreases ps.len(),
{
    if ps.len() == 0 {
        Seq::<Proposal>::empty()
    } else if ps.last().status == ProposalStatus::Active {
        actives(ps.drop_last()).push(ps.last())
    } else {
        actives(ps.drop_last())
    }
}

impl Default for GovernanceSystem {
    /// The default store is the empty store.
    fn default() -> (r: Self)
        ensures
            r.wf(),
            r.spec_proposals() =~= Seq::<Proposal>::empty(),
            r.spec_votes() =~= Seq::<Seq<Vote>>::empty(),
    {
        Self::new()
    }
}

/// At most one vote per voter and proposal: in a well-formed store, two
/// distinct votes recorded under one proposal always name distinct voters.
pub proof fn lemma_one_vote_per_voter(gs: GovernanceSystem, i: int, j: int, k: int)
    requires
        gs.wf(),
        0 <= i < gs.spec_votes().len(),
        0 <= j < gs.spec_votes()[i].len(),
        0 <= k < gs.spec_votes()[i].len(),
        j != k,
    ensures
        gs.spec_votes()[i][j].voter@ != gs.spec_votes()[i][k].voter@,
{
}

} // verus!
