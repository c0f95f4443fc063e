use vstd::prelude::*;

use crate::arith::min_int;
use crate::principal::Principal;

verus! {

/// Voting power that a member needs to grant voting power to others.
pub const GRANTING_POWER: u64 = 50;

/// Voting power of the member who sets the organisation up.
pub const FOUNDER_POWER: u64 = 100;

/// Treasury at the start.
pub const INITIAL_TREASURY: u64 = 1_000_000;

/// What a passed treasury proposal pays out of the treasury.
pub const TREASURY_PAYOUT: u64 = 1000;

/// Voting period at the start: seven days in nanoseconds.
pub const INITIAL_VOTING_PERIOD: u64 = 604_800_000_000_000;

#[derive(PartialEq, Eq, Structural, Clone, Copy, Debug)]
pub enum ProposalType {
    /// Sets the default voting period to the proposal's voting period.
    ParameterChange,
    /// Marks the code as ready for an upgrade.
    CodeUpgrade,
    /// Pays a fixed amount out of the treasury.
    Treasury,
}

pub struct ProposalData {
    pub title: String,
    pub description: String,
    pub proposal_type: ProposalType,
    /// Duration of the vote, in nanoseconds.
    pub voting_period: u64,
}

pub struct Proposal {
    pub id: u64,
    pub proposer: Principal,
    pub data: ProposalData,
    pub votes_for: u64,
    pub votes_against: u64,
    pub created_at: u64,
    pub voting_deadline: u64,
    pub executed: bool,
    pub voters: Vec<Principal>,
}

#[derive(PartialEq, Eq, Structural, Clone, Copy, Debug)]
pub struct GovernanceStats {
    pub total_proposals: u64,
    pub active_proposals: u64,
    /// Sum of the votes on all proposals, saturating at `u64::MAX`.
    pub total_votes_cast: u64,
    pub treasury_balance: u64,
}

#[derive(PartialEq, Eq, Structural, Clone, Copy, Debug)]
pub enum DaoError {
    NoVotingPower,
    /// The caller has too little voting power to grant any.
    InsufficientPower,
    ProposalNotFound,
    VotingClosed,
    VotingOpen,
    AlreadyVoted,
    AlreadyExecuted,
    /// A deadline, a tally or an id does not fit in a `u64`.
    ArithmeticOverflow,
}

/// Members' voting power, proposals and the treasury. Proposal `k` stands at
/// position `k - 1`.
pub struct Dao {
    pub proposals: Vec<Proposal>,
    /// One entry per member.
    pub members: Vec<(Principal, u64)>,
    pub treasury_balance: u64,
    pub ready_for_upgrade: bool,
    pub default_voting_period: u64,
}

/// Whether `who` is among `voters`.
pub open spec fn has_voted(voters: Seq<Principal>, who: Seq<u8>) -> bool {
    exists|i: int| 0 <= i < voters.len() && (#[trigger] voters[i])@ == who
}

/// The proposal is still open for votes at `now` and has not been executed.
pub open spec fn is_active(p: Proposal, now: u64) -> bool {
    now <= p.voting_deadline && !p.executed
}

pub open spec fn active_ids(proposals: Seq<Proposal>, now: u64) -> Seq<u64>
    decreases proposals.len(),
{
    if proposals.len() == 0 {
        seq![]
    } else {
        let rest = active_ids(proposals.drop_last(), now);
        if is_active(proposals.last(), now) {
            rest.push(proposals.last().id)
        } else {
            rest
        }
    }
}

pub open spec fn count_active(proposals: Seq<Proposal>, now: u64) -> int {
    active_ids(proposals, now).len() as int
}

pub open spec fn votes_cast(proposals: Seq<Proposal>) -> int
    decreases proposals.len(),
{
    if proposals.len() == 0 {
        0
    } else {
        votes_cast(proposals.drop_last()) + proposals.last().votes_for
            + proposals.last().votes_against
    }
}

impl Dao {
    pub open spec fn wf(&self) -> bool {
        &&& forall|i: int|
            0 <= i < self.proposals@.len() ==> (#[trigger] self.proposals@[i]).id == i + 1
        &&& forall|i: int, j: int|
            0 <= i < j < self.members@.len() ==> (#[trigger] self.members@[i]).0@ != (
            #[trigger] self.members@[j]).0@
    }

    pub open spec fn is_member(&self, who: Seq<u8>) -> bool {
        exists|i: int| 0 <= i < self.members@.len() && (#[trigger] self.members@[i]).0@ == who
    }

    /// Voting power of `who`; zero for a stranger.
    pub open spec fn power_of(&self, who: Seq<u8>) -> u64 {
        if self.is_member(who) {
            let i = choose|i: int|
                0 <= i < self.members@.len() && (#[trigger] self.members@[i]).0@ == who;
            self.members@[i].1
        } else {
            0
        }
    }

    pub open spec fn has(&self, id: u64) -> bool {
        1 <= id <= self.proposals@.len()
    }

    pub open spec fn at(&self, id: u64) -> Proposal {
        self.proposals@[id - 1]
    }

    proof fn lemma_member_at(&self, i: int)
        requires
            self.wf(),
            0 <= i < self.members@.len(),
        ensures
            self.is_member(self.members@[i].0@),
            self.power_of(self.members@[i].0@) == self.members@[i].1,
    {
        let who = self.members@[i].0@;
        assert(self.is_member(who));
        let j = choose|j: int| 0 <= j < self.members@.len() && (#[trigger] self.members@[j]).0@ == who;
        if j < i {
            assert(self.members@[j].0@ != self.members@[i].0@);
        } else if i < j {
            assert(self.members@[i].0@ != self.members@[j].0@);
        }
    }

    /// A new organisation whose only member is `founder`.
    pub fn new(founder: Principal) -> (r: Dao)
        ensures
            r.wf(),
            r.proposals@.len() == 0,
            r.members@.len() == 1,
            r.members@[0].0 == founder,
            r.members@[0].1 == FOUNDER_POWER,
            r.treasury_balance == INITIAL_TREASURY,
            !r.ready_for_upgrade,
            r.default_voting_period == INITIAL_VOTING_PERIOD,
    {
        let mut members: Vec<(Principal, u64)> = Vec::new();
        members.push((founder, FOUNDER_POWER));
        Dao {
            proposals: Vec::new(),
            members,
            treasury_balance: INITIAL_TREASURY,
            ready_for_upgrade: false,
            default_voting_period: INITIAL_VOTING_PERIOD,
        }
    }

    fn member_position(&self, who: &Principal) -> (r: Option<usize>)
        ensures
            match r {
                Some(i) => i < self.members@.len() && self.members@[i as int].0@ == who@,
                None => !self.is_member(who@),
            },
    {
        let mut i: usize = 0;
        while i < self.members.len()
            invariant
                0 <= i <= self.members@.len(),
                forall|j: int| 0 <= j < i ==> (#[trigger] self.members@[j]).0@ != who@,
            decreases self.members@.len() - i,
        {
            if self.members[i].0.same(who) {
                return Some(i);
            }
            i = i + 1;
        }
        None
    }

    /// Voting power of `who`.
    pub fn get_voting_power(&self, who: &Principal) -> (r: u64)
        requires
            self.wf(),
        ensures
            r == self.power_of(who@),
    {
        match self.member_position(who) {
            None => 0,
            Some(i) => {
                proof {
                    self.lemma_member_at(i as int);
                }
                self.members[i].1
            },
        }
    }

    /// A member with voting power opens a proposal at `now`; its vote closes
    /// after the proposal's voting period. Returns its id.
    pub fn create_proposal(&mut self, caller: &Principal, data: ProposalData, now: u64) -> (r: Result<
        u64,
        DaoError,
    >)
        requires
            old(self).wf(),
        ensures
            final(self).wf(),
            old(self).power_of(caller@) == 0 ==> r == Err::<u64, DaoError>(DaoError::NoVotingPower)
                && *final(self) == *old(self),
            old(self).power_of(caller@) > 0 && (now + data.voting_period > u64::MAX
                || old(self).proposals@.len() + 1 > u64::MAX) ==> r == Err::<u64, DaoError>(
                DaoError::ArithmeticOverflow,
            ) && *final(self) == *old(self),
            old(self).power_of(caller@) > 0 && now + data.voting_period <= u64::MAX
                && old(self).proposals@.len() + 1 <= u64::MAX ==> {
                let n = old(self).proposals@.len();
                let p = final(self).proposals@[n as int];
                &&& r == Ok::<u64, DaoError>((n + 1) as u64)
                &&& *final(self) == (Dao { proposals: final(self).proposals, ..*old(self) })
                &&& final(self).proposals@.len() == n + 1
                &&& final(self).proposals@.subrange(0, n as int) == old(self).proposals@
                &&& p.id == n + 1
                &&& p.proposer@ == caller@
                &&& p.data == data
                &&& p.votes_for == 0
                &&& p.votes_against == 0
                &&& p.created_at == now
                &&& p.voting_deadline == now + data.voting_period
                &&& !p.executed
                &&& p.voters@.len() == 0
            },
    {
        if self.get_voting_power(caller) == 0 {
            return Err(DaoError::NoVotingPower);
        }
        if data.voting_period > u64::MAX - now || self.proposals.len() as u64 >= u64::MAX {
            return Err(DaoError::ArithmeticOverflow);
        }
        let id = self.proposals.len() as u64 + 1;
        let voting_deadline = now + data.voting_period;
        let ghost before = self.proposals@;
        self.proposals.push(
            Proposal {
                id,
                proposer: caller.duplicate(),
                data,
                votes_for: 0,
                votes_against: 0,
                created_at: now,
                voting_deadline,
                executed: false,
                voters: Vec::new(),
            },
        );
        proof {
            assert(self.proposals@.subrange(0, before.len() as int) =~= before);
        }
        Ok(id)
    }

    /// Why a vote by `who` on proposal `id` at `now` is refused, if it is.
    pub open spec fn vote_refusal(&self, who: Seq<u8>, id: u64, support: bool, now: u64) -> Option<
        DaoError,
    > {
        let power = self.power_of(who);
        if power == 0 {
            Some(DaoError::NoVotingPower)
        } else if !self.has(id) {
            Some(DaoError::ProposalNotFound)
        } else if now > self.at(id).voting_deadline {
            Some(DaoError::VotingClosed)
        } else if has_voted(self.at(id).voters@, who) {
            Some(DaoError::AlreadyVoted)
        } else if (if support {
            self.at(id).votes_for
        } else {
            self.at(id).votes_against
        }) + power > u64::MAX {
            Some(DaoError::ArithmeticOverflow)
        } else {
            None
        }
    }

    /// A member casts all of its voting power for or against proposal `id`,
    /// once, before the deadline.
    pub fn vote(&mut self, caller: &Principal, id: u64, support: bool, now: u64) -> (r: Result<
        (),
        DaoError,
    >)
        requires
            old(self).wf(),
        ensures
            final(self).wf(),
            match old(self).vote_refusal(caller@, id, support, now) {
                Some(e) => r == Err::<(), DaoError>(e) && *final(self) == *old(self),
                None => {
                    let before = old(self).at(id);
                    let after = final(self).at(id);
                    let power = old(self).power_of(caller@);
                    &&& r == Ok::<(), DaoError>(())
                    &&& *final(self) == (Dao { proposals: final(self).proposals, ..*old(self) })
                    &&& final(self).proposals@ == old(self).proposals@.update(id - 1, after)
                    &&& after == (Proposal {
                        votes_for: if support {
                            (before.votes_for + power) as u64
                        } else {
                            before.votes_for
                        },
                        votes_against: if support {
                            before.votes_against
                        } else {
                            (before.votes_against + power) as u64
                        },
                        voters: after.voters,
                        ..before
                    })
                    &&& after.voters@.len() == before.voters@.len() + 1
                    &&& after.voters@.subrange(0, before.voters@.len() as int) == before.voters@
                    &&& after.voters@.last()@ == caller@
                },
            },
    {
        let power = self.get_voting_power(caller);
        if power == 0 {
            return Err(DaoError::NoVotingPower);
        }
        if id == 0 || id > self.proposals.len() as u64 {
            return Err(DaoError::ProposalNotFound);
        }
        let k = (id - 1) as usize;
        if now > self.proposals[k].voting_deadline {
            return Err(DaoError::VotingClosed);
        }
        let mut i: usize = 0;
        while i < self.proposals[k].voters.len()
            invariant
                *self == *old(self),
                self.wf(),
                power == old(self).power_of(caller@),
                power > 0,
                k == id - 1,
                old(self).has(id),
                now <= old(self).at(id).voting_deadline,
                0 <= k < self.proposals@.len(),
                0 <= i <= self.proposals@[k as int].voters@.len(),
                forall|j: int| 0 <= j < i ==> (#[trigger] self.proposals@[k as int].voters@[j])@ != caller@,
            decreases self.proposals@[k as int].voters@.len() - i,
        {
            if self.proposals[k].voters[i].same(caller) {
                return Err(DaoError::AlreadyVoted);
            }
            i = i + 1;
        }
        if support {
            if power > u64::MAX - self.proposals[k].votes_for {
                return Err(DaoError::ArithmeticOverflow);
            }
        } else {
            if power > u64::MAX - self.proposals[k].votes_against {
                return Err(DaoError::ArithmeticOverflow);
            }
        }
        let ghost voters_before = self.proposals@[k as int].voters@;
        let p = &mut self.proposals[k];
        if support {
            p.votes_for = p.votes_for + power;
        } else {
            p.votes_against = p.votes_against + power;
        }
        p.voters.push(caller.duplicate());
        proof {
            assert(self.proposals@[k as int].voters@.subrange(0, voters_before.len() as int)
                =~= voters_before);
        }
        Ok(())
    }

    /// Closes proposal `id` once its vote is over. It passes with more votes
    /// for than against, and then takes effect: a treasury proposal pays out
    /// of the treasury if it holds enough, a parameter change sets the default
    /// voting period, a code upgrade marks the code as ready. Returns whether
    /// it passed; one that did not pass is not marked as executed.
    pub fn execute_proposal(&mut self, id: u64, now: u64) -> (r: Result<bool, DaoError>)
        requires
            old(self).wf(),
        ensures
            final(self).wf(),
            !old(self).has(id) ==> r == Err::<bool, DaoError>(DaoError::ProposalNotFound)
                && *final(self) == *old(self),
            old(self).has(id) && now <= old(self).at(id).voting_deadline ==> r == Err::<
                bool,
                DaoError,
            >(DaoError::VotingOpen) && *final(self) == *old(self),
            old(self).has(id) && now > old(self).at(id).voting_deadline && old(self).at(id).executed
                ==> r == Err::<bool, DaoError>(DaoError::AlreadyExecuted) && *final(self) == *old(
                self),
            old(self).has(id) && now > old(self).at(id).voting_deadline && !old(self).at(id).executed
                && old(self).at(id).votes_for <= old(self).at(id).votes_against ==> r == Ok::<
                bool,
                DaoError,
            >(false) && *final(self) == *old(self),
            old(self).has(id) && now > old(self).at(id).voting_deadline && !old(self).at(id).executed
                && old(self).at(id).votes_for > old(self).at(id).votes_against ==> {
                let p = old(self).at(id);
                let kind = p.data.proposal_type;
                &&& r == Ok::<bool, DaoError>(true)
                &&& final(self).proposals@ == old(self).proposals@.update(
                    id - 1,
                    (Proposal { executed: true, ..p }),
                )
                &&& final(self).members == old(self).members
                &&& final(self).treasury_balance == if kind == ProposalType::Treasury
                    && old(self).treasury_balance >= TREASURY_PAYOUT {
                    (old(self).treasury_balance - TREASURY_PAYOUT) as u64
                } else {
                    old(self).treasury_balance
                }
                &&& final(self).default_voting_period == if kind == ProposalType::ParameterChange {
                    p.data.voting_period
                } else {
                    old(self).default_voting_period
                }
                &&& final(self).ready_for_upgrade == (old(self).ready_for_upgrade || kind
                    == ProposalType::CodeUpgrade)
            },
    {
        if id == 0 || id > self.proposals.len() as u64 {
            return Err(DaoError::ProposalNotFound);
        }
        let k = (id - 1) as usize;
        if now <= self.proposals[k].voting_deadline {
            return Err(DaoError::VotingOpen);
        }
        if self.proposals[k].executed {
            return Err(DaoError::AlreadyExecuted);
        }
        if self.proposals[k].votes_for <= self.proposals[k].votes_against {
            return Ok(false);
        }
        let kind = self.proposals[k].data.proposal_type;
        let period = self.proposals[k].data.voting_period;
        let p = &mut self.proposals[k];
        p.executed = true;
        match kind {
            ProposalType::Treasury => {
                if self.treasury_balance >= TREASURY_PAYOUT {
                    self.treasury_balance = self.treasury_balance - TREASURY_PAYOUT;
                }
            },
            ProposalType::ParameterChange => {
                self.default_voting_period = period;
            },
            ProposalType::CodeUpgrade => {
                self.ready_for_upgrade = true;
            },
        }
        Ok(true)
    }

    /// A member with enough voting power sets the voting power of `member`.
    pub fn grant_voting_power(&mut self, caller: &Principal, member: Principal, power: u64) -> (r:
        Result<(), DaoError>)
        requires
            old(self).wf(),
        ensures
            final(self).wf(),
            old(self).power_of(caller@) < GRANTING_POWER ==> r == Err::<(), DaoError>(
                DaoError::InsufficientPower,
            ) && *final(self) == *old(self),
            old(self).power_of(caller@) >= GRANTING_POWER ==> {
                &&& r == Ok::<(), DaoError>(())
                &&& *final(self) == (Dao { members: final(self).members, ..*old(self) })
                &&& final(self).power_of(member@) == power
                &&& forall|who: Seq<u8>|
                    who != member@ ==> #[trigger] final(self).power_of(who) == old(self).power_of(
                        who,
                    )
            },
    {
        if self.get_voting_power(caller) < GRANTING_POWER {
            return Err(DaoError::InsufficientPower);
        }
        let ghost who_m = member@;
        match self.member_position(&member) {
            Some(i) => {
                let entry = &mut self.members[i];
                entry.1 = power;
                proof {
                    let before = old(self).members@;
                    assert forall|a: int, b: int|
                        0 <= a < b < self.members@.len() implies (#[trigger] self.members@[a]).0@
                        != (#[trigger] self.members@[b]).0@ by {
                        assert(before[a].0@ != before[b].0@);
                    }
                    self.lemma_member_at(i as int);
                    assert forall|who: Seq<u8>| who != who_m implies #[trigger] self.power_of(who)
                        == old(self).power_of(who) by {
                        if old(self).is_member(who) {
                            let j = choose|j: int|
                                0 <= j < before.len() && (#[trigger] before[j]).0@ == who;
                            old(self).lemma_member_at(j);
                            self.lemma_member_at(j);
                        } else {
                            if self.is_member(who) {
                                let j = choose|j: int|
                                    0 <= j < self.members@.len() && (#[trigger] self.members@[j]).0@
                                        == who;
                                assert(before[j].0@ == who);
                            }
                        }
                    }
                }
            },
            None => {
                let ghost before = self.members@;
                self.members.push((member, power));
                proof {
                    assert forall|a: int, b: int|
                        0 <= a < b < self.members@.len() implies (#[trigger] self.members@[a]).0@
                        != (#[trigger] self.members@[b]).0@ by {
                        if b < before.len() {
                            assert(before[a].0@ != before[b].0@);
                        } else {
                            assert(self.members@[a] == before[a]);
                        }
                    }
                    self.lemma_member_at(before.len() as int);
                    assert forall|who: Seq<u8>| who != who_m implies #[trigger] self.power_of(who)
                        == old(self).power_of(who) by {
                        if old(self).is_member(who) {
                            let j = choose|j: int|
                                0 <= j < before.len() && (#[trigger] before[j]).0@ == who;
                            old(self).lemma_member_at(j);
                            assert(self.members@[j] == before[j]);
                            self.lemma_member_at(j);
                        } else {
                            if self.is_member(who) {
                                let j = choose|j: int|
                                    0 <= j < self.members@.len() && (#[trigger] self.members@[j]).0@
                                        == who;
                                if j < before.len() {
                                    assert(self.members@[j] == before[j]);
                                }
                            }
                        }
                    }
                }
            },
        }
        Ok(())
    }

    /// Proposal `id`, if there is one.
    pub fn get_proposal(&self, id: u64) -> (r: Option<&Proposal>)
        ensures
            match r {
                Some(p) => self.has(id) && *p == self.at(id),
                None => !self.has(id),
            },
    {
        if id == 0 || id > self.proposals.len() as u64 {
            None
        } else {
            Some(&self.proposals[(id - 1) as usize])
        }
    }

    /// Ids of the proposals open for votes at `now` and not executed, in order.
    pub fn get_active_proposals(&self, now: u64) -> (r: Vec<u64>)
        ensures
            r@ == active_ids(self.proposals@, now),
    {
        let mut r: Vec<u64> = Vec::new();
        let mut i: usize = 0;
        while i < self.proposals.len()
            invariant
                0 <= i <= self.proposals@.len(),
                r@ == active_ids(self.proposals@.subrange(0, i as int), now),
            decreases self.proposals@.len() - i,
        {
            proof {
                assert(self.proposals@.subrange(0, i + 1).drop_last() =~= self.proposals@.subrange(
                    0,
                    i as int,
                ));
            }
            if now <= self.proposals[i].voting_deadline && !self.proposals[i].executed {
                r.push(self.proposals[i].id);
            }
            i = i + 1;
        }
        proof {
            assert(self.proposals@.subrange(0, i as int) =~= self.proposals@);
        }
        r
    }

    /// Counts over the proposals at `now`, and the treasury.
    pub fn get_governance_stats(&self, now: u64) -> (r: GovernanceStats)
        ensures
            r.total_proposals == self.proposals@.len(),
            r.active_proposals == count_active(self.proposals@, now),
            r.total_votes_cast == min_int(votes_cast(self.proposals@), u64::MAX as int),
            r.treasury_balance == self.treasury_balance,
    {
        let active = self.get_active_proposals(now);
        let mut votes: u64 = 0;
        let mut i: usize = 0;
        while i < self.proposals.len()
            invariant
                0 <= i <= self.proposals@.len(),
                votes == min_int(votes_cast(self.proposals@.subrange(0, i as int)), u64::MAX as int),
            decreases self.proposals@.len() - i,
        {
            let ghost prefix = self.proposals@.subrange(0, i as int);
            proof {
                assert(self.proposals@.subrange(0, i + 1).drop_last() =~= prefix);
                lemma_votes_nonnegative(prefix);
            }
            votes = votes.saturating_add(self.proposals[i].votes_for).saturating_add(
                self.proposals[i].votes_against,
            );
            i = i + 1;
        }
        proof {
            assert(self.proposals@.subrange(0, i as int) =~= self.proposals@);
        }
        GovernanceStats {
            total_proposals: self.proposals.len() as u64,
            active_proposals: active.len() as u64,
            total_votes_cast: votes,
            treasury_balance: self.treasury_balance,
        }
    }
}

proof fn lemma_votes_nonnegative(proposals: Seq<Proposal>)
    ensures
        0 <= votes_cast(proposals),
    decreases proposals.len(),
{
    if proposals.len() > 0 {
        lemma_votes_nonnegative(proposals.drop_last());
    }
}

} // verus!
