use vstd::prelude::*;

use crate::arith::{lemma_percent_within, min_int};
use crate::payout::PendingPayout;
use crate::principal::Principal;

verus! {

/// Upper bound of the insurance fee, in percent.
pub const MAX_INSURANCE_FEE_PERCENTAGE: u8 = 20;

/// Upper bound of the insurance coverage ratio, in percent.
pub const MAX_COVERAGE_RATIO: u8 = 100;

/// Share of the creator's part of the revenue that goes to backers once the
/// creator has been slashed, in percent.
pub const SLASHED_CREATOR_SHARE_PERCENTAGE: u64 = 50;

/// A backer's share of the investor revenue: `numerator / denominator`, that is
/// the amount credited to the campaign over the funding goal.
#[derive(PartialEq, Eq, Structural, Clone, Copy, Debug)]
pub struct Share {
    pub numerator: u64,
    pub denominator: u64,
}

#[derive(PartialEq, Eq, Structural, Clone, Copy, Debug)]
pub struct BackerInfo {
    /// What the backer paid in, insurance fee included.
    pub amount_invested: u64,
    pub nft_token_id: Option<u64>,
    pub share: Share,
    /// Revenue paid out to the backer so far.
    pub total_claimed: u64,
    pub investment_timestamp: u64,
}

pub struct RevenueUpdate {
    pub amount: u64,
    pub source: String,
    pub timestamp: u64,
    /// Supplied by the caller and not checked here.
    pub oracle_verification: bool,
}

pub struct InvestmentResult {
    pub success: bool,
    pub nft_token_id: Option<u64>,
    pub share: Share,
    pub message: String,
}

#[derive(PartialEq, Eq, Structural, Clone, Copy, Debug)]
pub enum ClaimStatus {
    Pending,
    Approved,
    Rejected,
    Paid,
}

pub struct InsuranceClaim {
    pub claim_id: u64,
    pub claimer: Principal,
    pub amount: u64,
    pub reason: String,
    pub evidence: Vec<String>,
    pub status: ClaimStatus,
    pub filed_at: u64,
    pub resolved_at: Option<u64>,
    pub approver: Option<Principal>,
}

/// Thresholds that describe when a creator may be slashed. They are kept for
/// reference: slashing does not consult them.
#[derive(PartialEq, Eq, Structural, Clone, Copy, Debug)]
pub struct SlashingConditions {
    pub missed_revenue_reports_threshold: u8,
    pub revenue_decline_threshold_percentage: u8,
    pub minimum_active_period_days: u64,
    pub governance_votes_required: u8,
}

pub enum SlashReason {
    MissedRevenueReports,
    RevenueFraud,
    ProjectAbandonment,
    GovernanceDecision,
    Other(String),
}

pub struct SlashEvent {
    pub creator: Principal,
    pub campaign_id: u64,
    pub reason: SlashReason,
    pub amount_slashed: u64,
    pub beneficiaries: Vec<Principal>,
    pub executed_at: u64,
    pub approved_by: Vec<Principal>,
}

pub struct CampaignMetadata {
    pub creator: Principal,
    pub title: String,
    pub description: String,
    pub funding_goal: u64,
    pub revenue_share_percentage: u8,
    pub oracle_endpoints: Vec<String>,
}

#[derive(PartialEq, Eq, Structural, Clone, Copy, Debug)]
pub enum VaultError {
    AlreadyFunded,
    /// A sum does not fit in a `u64`.
    ArithmeticOverflow,
    InvalidRevenueShare,
    NotBacker,
    CoverageExceeded { max: u64 },
    InsufficientPool,
    /// The caller is not the campaign's creator.
    NotCreator,
    /// The slashing target is not the campaign's creator.
    TargetNotCreator,
    ClaimNotFound,
    ClaimNotPending { status: ClaimStatus },
    FeeTooHigh,
    CoverageTooHigh,
    StreamNotConfigured,
    /// A payout batch is already waiting for its outcome.
    PayoutInProgress,
    /// No waiting payout batch has this id.
    UnknownBatch,
}

/// The state of one campaign's vault.
pub struct VaultState {
    pub campaign_id: u64,
    pub creator: Principal,
    pub title: String,
    pub funding_goal: u64,
    pub current_funding: u64,
    pub revenue_share_percentage: u8,
    pub total_revenue: u64,
    pub oracle_endpoints: Vec<String>,
    pub nft_registry_canister: Option<Principal>,
    pub stream_canister: Option<Principal>,
    pub oracle_canister: Option<Principal>,
    /// One entry per backer, in order of first investment.
    pub backers: Vec<(Principal, BackerInfo)>,
    pub revenue_history: Vec<RevenueUpdate>,
    pub created_at: u64,
    pub insurance_pool_balance: u64,
    pub insurance_fee_percentage: u8,
    pub insurance_coverage_ratio: u8,
    /// Claim `k` at position `k`.
    pub insurance_claims: Vec<InsuranceClaim>,
    pub slashing_conditions: SlashingConditions,
    pub slashed_creators: Vec<SlashEvent>,
    pub pending_payout: Option<PendingPayout>,
    pub next_batch_id: u64,
}

/// `after` is `before` once `who` has invested `amount` at `now`: the
/// accepted part less the fee is added to the funding, the fee to the pool,
/// and `who`'s record is replaced.
pub open spec fn invested(before: VaultState, after: VaultState, who: Seq<u8>, amount: u64, now: u64) -> bool {
    let info = before.record_for(amount, now);
    &&& after == (VaultState {
        current_funding: (before.current_funding + info.share.numerator) as u64,
        insurance_pool_balance: (before.insurance_pool_balance + before.fee_on(amount)) as u64,
        backers: after.backers,
        ..before
    })
    &&& before.backers_set(after.backers@, who, info)
}

impl VaultState {
    pub open spec fn has_backer(&self, who: Seq<u8>) -> bool {
        exists|i: int| 0 <= i < self.backers@.len() && (#[trigger] self.backers@[i]).0@ == who
    }

    /// Funding within the goal, percentages within their bounds, one entry per
    /// backer, claims at their ids and filed by backers, and a waiting payout
    /// batch only with a stream service, one that can be credited without
    /// overflow.
    pub open spec fn wf(&self) -> bool {
        &&& self.current_funding <= self.funding_goal
        &&& self.revenue_share_percentage <= 100
        &&& self.insurance_fee_percentage <= MAX_INSURANCE_FEE_PERCENTAGE
        &&& self.insurance_coverage_ratio <= MAX_COVERAGE_RATIO
        &&& forall|i: int, j: int|
            0 <= i < j < self.backers@.len() ==> (#[trigger] self.backers@[i]).0@ != (
            #[trigger] self.backers@[j]).0@
        &&& forall|i: int|
            0 <= i < self.backers@.len() ==> {
                let s = (#[trigger] self.backers@[i]).1.share;
                0 < s.denominator && s.numerator <= s.denominator
            }
        &&& self.insurance_claims@.len() <= u64::MAX
        &&& forall|k: int|
            0 <= k < self.insurance_claims@.len() ==> (#[trigger] self.insurance_claims@[k]).claim_id
                == k && self.has_backer(self.insurance_claims@[k].claimer@)
        &&& match self.pending_payout {
            Some(p) => {
                &&& self.stream_canister is Some
                &&& p.revenue_credits@.len() <= self.backers@.len()
                &&& forall|i: int|
                    0 <= i < p.revenue_credits@.len() ==> self.backers@[i].1.total_claimed
                        + #[trigger] p.revenue_credits@[i] <= u64::MAX
                &&& forall|k: int|
                    0 <= k < p.claim_ids@.len() ==> #[trigger] p.claim_ids@[k]
                        < self.insurance_claims@.len() && self.insurance_claims@[p.claim_ids@[k] as int].status
                        == ClaimStatus::Approved
            },
            None => true,
        }
    }

    /// Part of an investment of `amount` that the campaign accepts.
    pub open spec fn accepted(&self, amount: u64) -> int {
        min_int(amount as int, self.funding_goal - self.current_funding)
    }

    /// Insurance fee taken from an investment of `amount`.
    pub open spec fn fee_on(&self, amount: u64) -> int {
        self.accepted(amount) * self.insurance_fee_percentage / 100
    }

    pub open spec fn invest_refusal(&self, amount: u64) -> Option<VaultError> {
        if self.current_funding >= self.funding_goal {
            Some(VaultError::AlreadyFunded)
        } else if self.insurance_pool_balance + self.fee_on(amount) > u64::MAX {
            Some(VaultError::ArithmeticOverflow)
        } else {
            None
        }
    }

    /// The record that an investment of `amount` at `now` gives its backer.
    pub open spec fn record_for(&self, amount: u64, now: u64) -> BackerInfo {
        BackerInfo {
            amount_invested: self.accepted(amount) as u64,
            nft_token_id: None,
            share: Share {
                numerator: (self.accepted(amount) - self.fee_on(amount)) as u64,
                denominator: self.funding_goal,
            },
            total_claimed: 0,
            investment_timestamp: now,
        }
    }

    /// `after` is `self` with the record of `who` set to `info`, appended when
    /// `who` had none, and every other record kept.
    pub open spec fn backers_set(&self, after: Seq<(Principal, BackerInfo)>, who: Seq<u8>, info: BackerInfo) -> bool {
        let before = self.backers@;
        &&& after.len() == if self.has_backer(who) {
            before.len()
        } else {
            before.len() + 1
        }
        &&& forall|i: int| 0 <= i < before.len() ==> (#[trigger] after[i]).0 == before[i].0
        &&& !self.has_backer(who) ==> after.last().0@ == who
        &&& forall|i: int|
            0 <= i < after.len() ==> (#[trigger] after[i]).1 == if after[i].0@ == who {
                info
            } else {
                before[i].1
            }
    }

    /// Position of `who`'s record.
    pub fn backer_position(&self, who: &Principal) -> (r: Option<usize>)
        ensures
            match r {
                Some(i) => i < self.backers@.len() && self.backers@[i as int].0@ == who@,
                None => !self.has_backer(who@),
            },
    {
        let mut i: usize = 0;
        while i < self.backers.len()
            invariant
                0 <= i <= self.backers@.len(),
                forall|j: int| 0 <= j < i ==> (#[trigger] self.backers@[j]).0@ != who@,
            decreases self.backers@.len() - i,
        {
            if self.backers[i].0.same(who) {
                return Some(i);
            }
            i = i + 1;
        }
        None
    }

    /// Takes an investment of `amount` from `caller` at `now`. The campaign
    /// accepts at most what is left of its goal; the insurance fee on that goes
    /// to the pool and the rest to the campaign. The caller's record is replaced
    /// by one for this investment alone: an earlier one by the same caller is
    /// not added to it.
    pub fn invest(&mut self, caller: &Principal, amount: u64, now: u64) -> (r: InvestmentResult)
        requires
            old(self).wf(),
        ensures
            final(self).wf(),
            match old(self).invest_refusal(amount) {
                Some(e) => {
                    &&& !r.success
                    &&& r.nft_token_id is None
                    &&& r.share == (Share { numerator: 0, denominator: 1 })
                    &&& r.message@ == if e == VaultError::AlreadyFunded {
                        "Campaign already fully funded"@
                    } else {
                        "Insurance pool balance would overflow"@
                    }
                    &&& *final(self) == *old(self)
                },
                None => {
                    &&& r.success
                    &&& r.nft_token_id is None
                    &&& r.share == old(self).record_for(amount, now).share
                    &&& invested(*old(self), *final(self), caller@, amount, now)
                },
            },
    {
        if self.current_funding >= self.funding_goal {
            return InvestmentResult {
                success: false,
                nft_token_id: None,
                share: Share { numerator: 0, denominator: 1 },
                message: "Campaign already fully funded".to_owned(),
            };
        }
        let remaining = self.funding_goal - self.current_funding;
        let actual: u64 = if amount <= remaining {
            amount
        } else {
            remaining
        };
        proof {
            lemma_percent_within(actual as int, self.insurance_fee_percentage as int);
        }
        let fee: u64 = ((actual as u128) * (self.insurance_fee_percentage as u128) / 100) as u64;
        if fee > u64::MAX - self.insurance_pool_balance {
            return InvestmentResult {
                success: false,
                nft_token_id: None,
                share: Share { numerator: 0, denominator: 1 },
                message: "Insurance pool balance would overflow".to_owned(),
            };
        }
        let net = actual - fee;
        self.insurance_pool_balance = self.insurance_pool_balance + fee;
        self.current_funding = self.current_funding + net;
        let share = Share { numerator: net, denominator: self.funding_goal };
        let info = BackerInfo {
            amount_invested: actual,
            nft_token_id: None,
            share,
            total_claimed: 0,
            investment_timestamp: now,
        };
        let ghost mid = *self;
        match self.backer_position(caller) {
            Some(i) => {
                let entry = &mut self.backers[i];
                entry.1 = info;
                proof {
                    let before = old(self).backers@;
                    let after = self.backers@;
                    assert forall|j: int| 0 <= j < after.len() implies (#[trigger] after[j]).1
                        == if after[j].0@ == caller@ {
                        info
                    } else {
                        before[j].1
                    } by {
                        if j != i {
                            assert(before[j].0@ != before[i as int].0@);
                        }
                    }
                }
            },
            None => {
                self.backers.push((caller.duplicate(), info));
                proof {
                    let before = old(self).backers@;
                    let after = self.backers@;
                    assert forall|j: int| 0 <= j < after.len() implies (#[trigger] after[j]).1
                        == if after[j].0@ == caller@ {
                        info
                    } else {
                        before[j].1
                    } by {
                        if j < before.len() {
                            assert(after[j] == before[j]);
                            assert(before[j].0@ != caller@);
                        }
                    }
                }
            },
        }
        proof {
            assert forall|k: int| 0 <= k < self.insurance_claims@.len() implies #[trigger] self.has_backer(
                self.insurance_claims@[k].claimer@,
            ) by {
                let w = choose|j: int|
                    0 <= j < old(self).backers@.len() && (#[trigger] old(self).backers@[j]).0@
                        == old(self).insurance_claims@[k].claimer@;
                assert(self.backers@[w].0 == old(self).backers@[w].0);
            }
        }
        InvestmentResult {
            success: true,
            nft_token_id: None,
            share,
            message: "Investment successful".to_owned(),
        }
    }
}

impl VaultState {
    /// The record of backer `who`.
    pub open spec fn record_of(&self, who: Seq<u8>) -> BackerInfo {
        let i = choose|i: int| 0 <= i < self.backers@.len() && (#[trigger] self.backers@[i]).0@ == who;
        self.backers@[i].1
    }

    /// Most that backer `who` may claim from the insurance pool.
    pub open spec fn max_coverage(&self, who: Seq<u8>) -> int {
        self.record_of(who).amount_invested * self.insurance_coverage_ratio / 100
    }

    pub open spec fn claim_refusal(&self, who: Seq<u8>, amount: u64) -> Option<VaultError> {
        if !self.has_backer(who) {
            Some(VaultError::NotBacker)
        } else if amount > self.max_coverage(who) {
            Some(VaultError::CoverageExceeded { max: self.max_coverage(who) as u64 })
        } else if amount > self.insurance_pool_balance {
            Some(VaultError::InsufficientPool)
        } else if self.insurance_claims@.len() >= u64::MAX {
            Some(VaultError::ArithmeticOverflow)
        } else {
            None
        }
    }

    pub open spec fn process_refusal(&self, who: Seq<u8>, claim_id: u64, approve: bool) -> Option<
        VaultError,
    > {
        if who != self.creator@ {
            Some(VaultError::NotCreator)
        } else if claim_id >= self.insurance_claims@.len() {
            Some(VaultError::ClaimNotFound)
        } else if self.insurance_claims@[claim_id as int].status != ClaimStatus::Pending {
            Some(
                VaultError::ClaimNotPending {
                    status: self.insurance_claims@[claim_id as int].status,
                },
            )
        } else if approve && self.insurance_claims@[claim_id as int].amount
            > self.insurance_pool_balance {
            Some(VaultError::InsufficientPool)
        } else {
            None
        }
    }

    /// Backer `i` of a well-formed vault is the one that `record_of` finds.
    pub proof fn lemma_record_at(&self, i: int)
        requires
            self.wf(),
            0 <= i < self.backers@.len(),
        ensures
            self.has_backer(self.backers@[i].0@),
            self.record_of(self.backers@[i].0@) == self.backers@[i].1,
    {
        let who = self.backers@[i].0@;
        assert(self.has_backer(who));
        let j = choose|j: int| 0 <= j < self.backers@.len() && (#[trigger] self.backers@[j]).0@ == who;
        if j != i {
            if j < i {
                assert(self.backers@[j].0@ != self.backers@[i].0@);
            } else {
                assert(self.backers@[i].0@ != self.backers@[j].0@);
            }
        }
    }

    /// Records `amount` of revenue from `source`, received at `now`. Whether it
    /// was verified is the caller's word.
    pub fn update_revenue(&mut self, amount: u64, source: String, verified: bool, now: u64) -> (r:
        Result<(), VaultError>)
        requires
            old(self).wf(),
        ensures
            final(self).wf(),
            old(self).total_revenue + amount > u64::MAX ==> r == Err::<(), VaultError>(
                VaultError::ArithmeticOverflow,
            ) && *final(self) == *old(self),
            old(self).total_revenue + amount <= u64::MAX ==> {
                &&& r == Ok::<(), VaultError>(())
                &&& *final(self) == (VaultState {
                    total_revenue: (old(self).total_revenue + amount) as u64,
                    revenue_history: final(self).revenue_history,
                    ..*old(self)
                })
                &&& final(self).revenue_history@ == old(self).revenue_history@.push(
                    (RevenueUpdate { amount, source, timestamp: now, oracle_verification: verified }),
                )
            },
    {
        if amount > u64::MAX - self.total_revenue {
            return Err(VaultError::ArithmeticOverflow);
        }
        self.total_revenue = self.total_revenue + amount;
        self.revenue_history.push(
            RevenueUpdate { amount, source, timestamp: now, oracle_verification: verified },
        );
        Ok(())
    }

    /// Files a claim of `amount` on the insurance pool for backer `caller`. It
    /// is capped by the coverage ratio of what the backer invested and by the
    /// pool, and waits for the creator's decision.
    pub fn file_insurance_claim(
        &mut self,
        caller: &Principal,
        amount: u64,
        reason: String,
        evidence: Vec<String>,
        now: u64,
    ) -> (r: Result<u64, VaultError>)
        requires
            old(self).wf(),
        ensures
            final(self).wf(),
            match old(self).claim_refusal(caller@, amount) {
                Some(e) => r == Err::<u64, VaultError>(e) && *final(self) == *old(self),
                None => {
                    let n = old(self).insurance_claims@.len();
                    let c = final(self).insurance_claims@[n as int];
                    &&& r == Ok::<u64, VaultError>(n as u64)
                    &&& *final(self) == (VaultState {
                        insurance_claims: final(self).insurance_claims,
                        ..*old(self)
                    })
                    &&& final(self).insurance_claims@.len() == n + 1
                    &&& final(self).insurance_claims@.subrange(0, n as int)
                        == old(self).insurance_claims@
                    &&& c.claim_id == n
                    &&& c.claimer@ == caller@
                    &&& c.amount == amount
                    &&& c.reason == reason
                    &&& c.evidence == evidence
                    &&& c.status == ClaimStatus::Pending
                    &&& c.filed_at == now
                    &&& c.resolved_at is None
                    &&& c.approver is None
                },
            },
    {
        let j = match self.backer_position(caller) {
            None => return Err(VaultError::NotBacker),
            Some(j) => j,
        };
        proof {
            self.lemma_record_at(j as int);
            lemma_percent_within(
                self.backers@[j as int].1.amount_invested as int,
                self.insurance_coverage_ratio as int,
            );
        }
        let invested = self.backers[j].1.amount_invested;
        let max: u64 = ((invested as u128) * (self.insurance_coverage_ratio as u128) / 100) as u64;
        if amount > max {
            return Err(VaultError::CoverageExceeded { max });
        }
        if amount > self.insurance_pool_balance {
            return Err(VaultError::InsufficientPool);
        }
        if self.insurance_claims.len() as u64 == u64::MAX {
            return Err(VaultError::ArithmeticOverflow);
        }
        let claim_id = self.insurance_claims.len() as u64;
        let ghost before = self.insurance_claims@;
        self.insurance_claims.push(
            InsuranceClaim {
                claim_id,
                claimer: caller.duplicate(),
                amount,
                reason,
                evidence,
                status: ClaimStatus::Pending,
                filed_at: now,
                resolved_at: None,
                approver: None,
            },
        );
        proof {
            assert(self.insurance_claims@.subrange(0, before.len() as int) =~= before);
            assert(self.has_backer(caller@));
            assert forall|k: int| 0 <= k < self.insurance_claims@.len() implies (
            #[trigger] self.insurance_claims@[k]).claim_id == k && self.has_backer(
                self.insurance_claims@[k].claimer@,
            ) by {
                if k < before.len() {
                    assert(self.insurance_claims@[k] == before[k]);
                }
            }
        }
        Ok(claim_id)
    }

    /// The creator approves or rejects a pending claim. Approval takes the
    /// amount out of the pool at once; it is paid with the next payout batch.
    pub fn process_insurance_claim(
        &mut self,
        caller: &Principal,
        claim_id: u64,
        approve: bool,
        now: u64,
    ) -> (r: Result<(), VaultError>)
        requires
            old(self).wf(),
        ensures
            final(self).wf(),
            match old(self).process_refusal(caller@, claim_id, approve) {
                Some(e) => r == Err::<(), VaultError>(e) && *final(self) == *old(self),
                None => {
                    let before = old(self).insurance_claims@[claim_id as int];
                    let after = final(self).insurance_claims@[claim_id as int];
                    &&& r == Ok::<(), VaultError>(())
                    &&& *final(self) == (VaultState {
                        insurance_claims: final(self).insurance_claims,
                        insurance_pool_balance: if approve {
                            (old(self).insurance_pool_balance - before.amount) as u64
                        } else {
                            old(self).insurance_pool_balance
                        },
                        ..*old(self)
                    })
                    &&& final(self).insurance_claims@ == old(self).insurance_claims@.update(
                        claim_id as int,
                        after,
                    )
                    &&& after == (InsuranceClaim {
                        status: if approve {
                            ClaimStatus::Approved
                        } else {
                            ClaimStatus::Rejected
                        },
                        resolved_at: Some(now),
                        approver: after.approver,
                        ..before
                    })
                    &&& after.approver is Some
                    &&& after.approver->Some_0@ == caller@
                },
            },
    {
        if !caller.same(&self.creator) {
            return Err(VaultError::NotCreator);
        }
        if claim_id >= self.insurance_claims.len() as u64 {
            return Err(VaultError::ClaimNotFound);
        }
        let k = claim_id as usize;
        let status = self.insurance_claims[k].status;
        if status != ClaimStatus::Pending {
            return Err(VaultError::ClaimNotPending { status });
        }
        let amount = self.insurance_claims[k].amount;
        if approve && amount > self.insurance_pool_balance {
            return Err(VaultError::InsufficientPool);
        }
        let ghost before = self.insurance_claims@;
        let claim = &mut self.insurance_claims[k];
        claim.status = if approve {
            ClaimStatus::Approved
        } else {
            ClaimStatus::Rejected
        };
        claim.resolved_at = Some(now);
        claim.approver = Some(caller.duplicate());
        if approve {
            self.insurance_pool_balance = self.insurance_pool_balance - amount;
        }
        proof {
            assert forall|t: int| 0 <= t < self.insurance_claims@.len() implies (
            #[trigger] self.insurance_claims@[t]).claim_id == t && self.has_backer(
                self.insurance_claims@[t].claimer@,
            ) by {
                assert(old(self).insurance_claims@[t].claim_id == t);
            }
            if self.pending_payout is Some {
                let p = self.pending_payout->Some_0;
                assert forall|q: int| 0 <= q < p.claim_ids@.len() implies #[trigger] p.claim_ids@[q]
                    < self.insurance_claims@.len() && self.insurance_claims@[p.claim_ids@[q] as int].status
                    == ClaimStatus::Approved by {
                    assert(old(self).insurance_claims@[p.claim_ids@[q] as int].status == ClaimStatus::Approved);
                }
            }
        }
        Ok(())
    }
}

/// A new setting is given and exceeds `bound`.
pub open spec fn above(setting: Option<u8>, bound: u8) -> bool {
    match setting {
        Some(v) => v > bound,
        None => false,
    }
}

/// The identities of a list of principals.
pub open spec fn principals_view(v: Seq<Principal>) -> Seq<Seq<u8>> {
    v.map_values(|p: Principal| p@)
}

/// The identities of the backers, in order.
pub open spec fn backer_ids(v: Seq<(Principal, BackerInfo)>) -> Seq<Seq<u8>> {
    v.map_values(|e: (Principal, BackerInfo)| e.0@)
}

/// Default slashing thresholds: three missed reports, a seventy percent
/// decline, thirty days of activity, a majority of votes.
pub open spec fn default_slashing_conditions() -> SlashingConditions {
    SlashingConditions {
        missed_revenue_reports_threshold: 3,
        revenue_decline_threshold_percentage: 70,
        minimum_active_period_days: 30,
        governance_votes_required: 51,
    }
}

impl VaultState {
    /// What slashing the creator moves to the insurance pool: half of the
    /// creator's part of the revenue.
    pub open spec fn slash_amount(&self) -> int {
        self.total_revenue * (100 - self.revenue_share_percentage) / 100 / 2
    }

    pub open spec fn slash_refusal(&self, target: Seq<u8>) -> Option<VaultError> {
        if target != self.creator@ {
            Some(VaultError::TargetNotCreator)
        } else if self.insurance_pool_balance + self.slash_amount() > u64::MAX {
            Some(VaultError::ArithmeticOverflow)
        } else {
            None
        }
    }

    /// `self` is a new vault with these settings, no funding, revenue or
    /// backers yet, a two percent insurance fee and eighty percent coverage.
    pub open spec fn is_fresh(
        &self,
        campaign_id: u64,
        creator: Principal,
        title: String,
        funding_goal: u64,
        revenue_share_percentage: u8,
        oracle_endpoints: Vec<String>,
        created_at: u64,
    ) -> bool {
        &&& self.wf()
        &&& self.campaign_id == campaign_id
        &&& self.creator == creator
        &&& self.title == title
        &&& self.funding_goal == funding_goal
        &&& self.current_funding == 0
        &&& self.revenue_share_percentage == revenue_share_percentage
        &&& self.total_revenue == 0
        &&& self.oracle_endpoints == oracle_endpoints
        &&& self.nft_registry_canister is None
        &&& self.stream_canister is None
        &&& self.oracle_canister is None
        &&& self.backers@.len() == 0
        &&& self.revenue_history@.len() == 0
        &&& self.created_at == created_at
        &&& self.insurance_pool_balance == 0
        &&& self.insurance_fee_percentage == 2
        &&& self.insurance_coverage_ratio == 80
        &&& self.insurance_claims@.len() == 0
        &&& self.slashing_conditions == default_slashing_conditions()
        &&& self.slashed_creators@.len() == 0
        &&& self.pending_payout is None
        &&& self.next_batch_id == 0
    }

    fn fresh(
        campaign_id: u64,
        creator: Principal,
        title: String,
        funding_goal: u64,
        revenue_share_percentage: u8,
        oracle_endpoints: Vec<String>,
        created_at: u64,
    ) -> (r: VaultState)
        requires
            revenue_share_percentage <= 100,
        ensures
            r.is_fresh(
                campaign_id,
                creator,
                title,
                funding_goal,
                revenue_share_percentage,
                oracle_endpoints,
                created_at,
            ),
    {
        VaultState {
            campaign_id,
            creator,
            title,
            funding_goal,
            current_funding: 0,
            revenue_share_percentage,
            total_revenue: 0,
            oracle_endpoints,
            nft_registry_canister: None,
            stream_canister: None,
            oracle_canister: None,
            backers: Vec::new(),
            revenue_history: Vec::new(),
            created_at,
            insurance_pool_balance: 0,
            insurance_fee_percentage: 2,
            insurance_coverage_ratio: 80,
            insurance_claims: Vec::new(),
            slashing_conditions: SlashingConditions {
                missed_revenue_reports_threshold: 3,
                revenue_decline_threshold_percentage: 70,
                minimum_active_period_days: 30,
                governance_votes_required: 51,
            },
            slashed_creators: Vec::new(),
            pending_payout: None,
            next_batch_id: 0,
        }
    }

    /// A vault for a new campaign (see `is_fresh`). The revenue share is a
    /// percentage and may not exceed a hundred.
    pub fn new(
        campaign_id: u64,
        creator: Principal,
        title: String,
        funding_goal: u64,
        revenue_share_percentage: u8,
        oracle_endpoints: Vec<String>,
        created_at: u64,
    ) -> (r: Result<VaultState, VaultError>)
        ensures
            revenue_share_percentage > 100 ==> r == Err::<VaultState, VaultError>(
                VaultError::InvalidRevenueShare,
            ),
            revenue_share_percentage <= 100 ==> r is Ok && (r->Ok_0).is_fresh(
                campaign_id,
                creator,
                title,
                funding_goal,
                revenue_share_percentage,
                oracle_endpoints,
                created_at,
            ),
    {
        if revenue_share_percentage > 100 {
            return Err(VaultError::InvalidRevenueShare);
        }
        Ok(
            VaultState::fresh(
                campaign_id,
                creator,
                title,
                funding_goal,
                revenue_share_percentage,
                oracle_endpoints,
                created_at,
            ),
        )
    }

    /// A vault for the campaign that `metadata` describes.
    pub fn from_campaign(campaign_id: u64, metadata: CampaignMetadata, created_at: u64) -> (r: Result<
        VaultState,
        VaultError,
    >)
        ensures
            metadata.revenue_share_percentage > 100 ==> r == Err::<VaultState, VaultError>(
                VaultError::InvalidRevenueShare,
            ),
            metadata.revenue_share_percentage <= 100 ==> r is Ok && (r->Ok_0).is_fresh(
                campaign_id,
                metadata.creator,
                metadata.title,
                metadata.funding_goal,
                metadata.revenue_share_percentage,
                metadata.oracle_endpoints,
                created_at,
            ),
    {
        VaultState::new(
            campaign_id,
            metadata.creator,
            metadata.title,
            metadata.funding_goal,
            metadata.revenue_share_percentage,
            metadata.oracle_endpoints,
            created_at,
        )
    }

    /// The vault a freshly installed service starts with: campaign 0 of the
    /// anonymous creator, a goal of one million and a ten percent revenue share.
    pub fn init(created_at: u64) -> (r: VaultState)
        ensures
            r.wf(),
            r.campaign_id == 0,
            r.creator@ == seq![4u8],
            r.title@ == "Default Vault"@,
            r.funding_goal == 1_000_000,
            r.revenue_share_percentage == 10,
            r.oracle_endpoints@.len() == 0,
            r.is_fresh(0, r.creator, r.title, 1_000_000, 10, r.oracle_endpoints, created_at),
    {
        let title = "Default Vault".to_owned();
        let endpoints: Vec<String> = Vec::new();
        VaultState::fresh(0, Principal::anonymous(), title, 1_000_000, 10, endpoints, created_at)
    }

    /// Slashes the campaign's creator on the word of `caller`: half of the
    /// creator's part of the revenue goes to the insurance pool, and from then
    /// on payouts add half of the creator's part to the backers' share. The
    /// slashing thresholds are not consulted. Returns the event's position.
    pub fn propose_slashing(
        &mut self,
        caller: &Principal,
        creator: &Principal,
        reason: SlashReason,
        now: u64,
    ) -> (r: Result<u64, VaultError>)
        requires
            old(self).wf(),
        ensures
            final(self).wf(),
            match old(self).slash_refusal(creator@) {
                Some(e) => r == Err::<u64, VaultError>(e) && *final(self) == *old(self),
                None => {
                    let n = old(self).slashed_creators@.len();
                    let ev = final(self).slashed_creators@[n as int];
                    &&& r == Ok::<u64, VaultError>(n as u64)
                    &&& *final(self) == (VaultState {
                        slashed_creators: final(self).slashed_creators,
                        insurance_pool_balance: (old(self).insurance_pool_balance
                            + old(self).slash_amount()) as u64,
                        ..*old(self)
                    })
                    &&& final(self).slashed_creators@.len() == n + 1
                    &&& final(self).slashed_creators@.subrange(0, n as int)
                        == old(self).slashed_creators@
                    &&& ev.creator@ == creator@
                    &&& ev.campaign_id == old(self).campaign_id
                    &&& ev.reason == reason
                    &&& ev.amount_slashed == old(self).slash_amount()
                    &&& principals_view(ev.beneficiaries@) == backer_ids(old(self).backers@)
                    &&& ev.executed_at == now
                    &&& principals_view(ev.approved_by@) == seq![caller@]
                },
            },
    {
        if !creator.same(&self.creator) {
            return Err(VaultError::TargetNotCreator);
        }
        proof {
            lemma_percent_within(
                self.total_revenue as int,
                100 - self.revenue_share_percentage as int,
            );
        }
        let creator_share: u64 = ((self.total_revenue as u128) * ((100
            - self.revenue_share_percentage) as u128) / 100) as u64;
        let slash = creator_share / 2;
        if slash > u64::MAX - self.insurance_pool_balance {
            return Err(VaultError::ArithmeticOverflow);
        }
        let mut beneficiaries: Vec<Principal> = Vec::new();
        let mut i: usize = 0;
        while i < self.backers.len()
            invariant
                0 <= i <= self.backers@.len(),
                principals_view(beneficiaries@) == backer_ids(self.backers@).subrange(0, i as int),
            decreases self.backers@.len() - i,
        {
            let ghost prev = beneficiaries@;
            let who = self.backers[i].0.duplicate();
            beneficiaries.push(who);
            proof {
                assert(principals_view(beneficiaries@) =~= principals_view(prev).push(who@));
                assert(backer_ids(self.backers@).subrange(0, i + 1) =~= backer_ids(
                    self.backers@,
                ).subrange(0, i as int).push(self.backers@[i as int].0@));
            }
            i = i + 1;
        }
        proof {
            assert(backer_ids(self.backers@).subrange(0, i as int) =~= backer_ids(self.backers@));
        }
        let mut approved_by: Vec<Principal> = Vec::new();
        approved_by.push(caller.duplicate());
        proof {
            assert(principals_view(approved_by@) =~= seq![caller@]);
        }
        let index = self.slashed_creators.len() as u64;
        let ghost before = self.slashed_creators@;
        self.slashed_creators.push(
            SlashEvent {
                creator: creator.duplicate(),
                campaign_id: self.campaign_id,
                reason,
                amount_slashed: slash,
                beneficiaries,
                executed_at: now,
                approved_by,
            },
        );
        self.insurance_pool_balance = self.insurance_pool_balance + slash;
        proof {
            assert(self.slashed_creators@.subrange(0, before.len() as int) =~= before);
        }
        Ok(index)
    }

    /// The creator points the vault at the services it works with; a `None`
    /// leaves that reference as it is.
    pub fn set_canister_refs(
        &mut self,
        caller: &Principal,
        nft_registry: Option<Principal>,
        stream: Option<Principal>,
        oracle: Option<Principal>,
    ) -> (r: Result<(), VaultError>)
        requires
            old(self).wf(),
        ensures
            final(self).wf(),
            caller@ != old(self).creator@ ==> r == Err::<(), VaultError>(VaultError::NotCreator)
                && *final(self) == *old(self),
            caller@ == old(self).creator@ ==> r == Ok::<(), VaultError>(()) && *final(self) == (
            VaultState {
                nft_registry_canister: if nft_registry is Some {
                    nft_registry
                } else {
                    old(self).nft_registry_canister
                },
                stream_canister: if stream is Some {
                    stream
                } else {
                    old(self).stream_canister
                },
                oracle_canister: if oracle is Some {
                    oracle
                } else {
                    old(self).oracle_canister
                },
                ..*old(self)
            }),
    {
        if !caller.same(&self.creator) {
            return Err(VaultError::NotCreator);
        }
        if nft_registry.is_some() {
            self.nft_registry_canister = nft_registry;
        }
        if stream.is_some() {
            self.stream_canister = stream;
        }
        if oracle.is_some() {
            self.oracle_canister = oracle;
        }
        Ok(())
    }

    /// The creator changes the insurance fee (at most twenty percent), the
    /// coverage ratio (at most a hundred percent) or the slashing thresholds;
    /// a `None` leaves that setting as it is. Nothing changes if a value is
    /// out of bounds. Claims already filed keep their amounts.
    pub fn update_insurance_settings(
        &mut self,
        caller: &Principal,
        fee_percentage: Option<u8>,
        coverage_ratio: Option<u8>,
        slashing_conditions: Option<SlashingConditions>,
    ) -> (r: Result<(), VaultError>)
        requires
            old(self).wf(),
        ensures
            final(self).wf(),
            caller@ != old(self).creator@ ==> r == Err::<(), VaultError>(VaultError::NotCreator)
                && *final(self) == *old(self),
            caller@ == old(self).creator@ && above(fee_percentage, MAX_INSURANCE_FEE_PERCENTAGE)
                ==> r == Err::<(), VaultError>(VaultError::FeeTooHigh) && *final(self) == *old(self),
            caller@ == old(self).creator@ && !above(fee_percentage, MAX_INSURANCE_FEE_PERCENTAGE)
                && above(coverage_ratio, MAX_COVERAGE_RATIO) ==> r == Err::<(), VaultError>(
                VaultError::CoverageTooHigh,
            ) && *final(self) == *old(self),
            caller@ == old(self).creator@ && !above(fee_percentage, MAX_INSURANCE_FEE_PERCENTAGE)
                && !above(coverage_ratio, MAX_COVERAGE_RATIO) ==> r == Ok::<(), VaultError>(())
                && *final(self) == (
            VaultState {
                insurance_fee_percentage: match fee_percentage {
                    Some(f) => f,
                    None => old(self).insurance_fee_percentage,
                },
                insurance_coverage_ratio: match coverage_ratio {
                    Some(c) => c,
                    None => old(self).insurance_coverage_ratio,
                },
                slashing_conditions: match slashing_conditions {
                    Some(s) => s,
                    None => old(self).slashing_conditions,
                },
                ..*old(self)
            }),
    {
        if !caller.same(&self.creator) {
            return Err(VaultError::NotCreator);
        }
        if let Some(f) = fee_percentage {
            if f > MAX_INSURANCE_FEE_PERCENTAGE {
                return Err(VaultError::FeeTooHigh);
            }
        }
        if let Some(c) = coverage_ratio {
            if c > MAX_COVERAGE_RATIO {
                return Err(VaultError::CoverageTooHigh);
            }
        }
        if let Some(f) = fee_percentage {
            self.insurance_fee_percentage = f;
        }
        if let Some(c) = coverage_ratio {
            self.insurance_coverage_ratio = c;
        }
        if let Some(s) = slashing_conditions {
            self.slashing_conditions = s;
        }
        Ok(())
    }

    /// Records the ownership token minted for `backer`.
    pub fn record_backer_nft(&mut self, backer: &Principal, token_id: u64) -> (r: Result<(), VaultError>)
        requires
            old(self).wf(),
        ensures
            final(self).wf(),
            !old(self).has_backer(backer@) ==> r == Err::<(), VaultError>(VaultError::NotBacker)
                && *final(self) == *old(self),
            old(self).has_backer(backer@) ==> {
                &&& r == Ok::<(), VaultError>(())
                &&& *final(self) == (VaultState { backers: final(self).backers, ..*old(self) })
                &&& old(self).backers_set(
                    final(self).backers@,
                    backer@,
                    (BackerInfo { nft_token_id: Some(token_id), ..old(self).record_of(backer@) }),
                )
            },
    {
        let j = match self.backer_position(backer) {
            None => return Err(VaultError::NotBacker),
            Some(j) => j,
        };
        proof {
            self.lemma_record_at(j as int);
        }
        let ghost info = BackerInfo { nft_token_id: Some(token_id), ..old(self).record_of(backer@) };
        let entry = &mut self.backers[j];
        entry.1.nft_token_id = Some(token_id);
        proof {
            let before = old(self).backers@;
            let after = self.backers@;
            assert forall|t: int| 0 <= t < after.len() implies (#[trigger] after[t]).1 == if after[t].0@
                == backer@ {
                info
            } else {
                before[t].1
            } by {
                if t != j {
                    if t < j {
                        assert(before[t].0@ != before[j as int].0@);
                    } else {
                        assert(before[j as int].0@ != before[t].0@);
                    }
                }
            }
            assert forall|k: int| 0 <= k < self.insurance_claims@.len() implies #[trigger] self.has_backer(
                self.insurance_claims@[k].claimer@,
            ) by {
                let w = choose|t: int|
                    0 <= t < before.len() && (#[trigger] before[t]).0@ == old(self).insurance_claims@[k].claimer@;
                assert(after[w].0 == before[w].0);
            }
        }
        Ok(())
    }
}

/// Ids of the claims of `claims` filed by `who`, or of all of them for `None`.
pub open spec fn claim_ids_of(claims: Seq<InsuranceClaim>, who: Option<Seq<u8>>) -> Seq<u64>
    decreases claims.len(),
{
    if claims.len() == 0 {
        seq![]
    } else {
        let rest = claim_ids_of(claims.drop_last(), who);
        let c = claims.last();
        match who {
            Some(w) if c.claimer@ != w => rest,
            _ => rest.push(c.claim_id),
        }
    }
}

impl VaultState {
    /// The record of backer `who`, if it has one.
    pub fn get_backer_info(&self, who: &Principal) -> (r: Option<BackerInfo>)
        requires
            self.wf(),
        ensures
            r == if self.has_backer(who@) {
                Some(self.record_of(who@))
            } else {
                None
            },
    {
        match self.backer_position(who) {
            None => None,
            Some(j) => {
                proof {
                    self.lemma_record_at(j as int);
                }
                Some(self.backers[j].1)
            },
        }
    }

    /// Funding so far and the goal.
    pub fn get_funding_progress(&self) -> (r: (u64, u64))
        ensures
            r == (self.current_funding, self.funding_goal),
    {
        (self.current_funding, self.funding_goal)
    }

    /// Pool balance, fee percentage and coverage ratio.
    pub fn get_insurance_pool_info(&self) -> (r: (u64, u8, u8))
        ensures
            r == (self.insurance_pool_balance, self.insurance_fee_percentage, self.insurance_coverage_ratio),
    {
        (self.insurance_pool_balance, self.insurance_fee_percentage, self.insurance_coverage_ratio)
    }

    pub fn get_slashing_conditions(&self) -> (r: SlashingConditions)
        ensures
            r == self.slashing_conditions,
    {
        self.slashing_conditions
    }

    /// Claim `claim_id`, if it exists.
    pub fn get_insurance_claim(&self, claim_id: u64) -> (r: Option<&InsuranceClaim>)
        requires
            self.wf(),
        ensures
            match r {
                Some(c) => claim_id < self.insurance_claims@.len() && *c
                    == self.insurance_claims@[claim_id as int],
                None => claim_id >= self.insurance_claims@.len(),
            },
    {
        if claim_id < self.insurance_claims.len() as u64 {
            Some(&self.insurance_claims[claim_id as usize])
        } else {
            None
        }
    }

    /// Ids of the claims filed by `backer`, or of all claims for `None`, in order.
    pub fn get_insurance_claims(&self, backer: Option<&Principal>) -> (r: Vec<u64>)
        ensures
            r@ == claim_ids_of(
                self.insurance_claims@,
                match backer {
                    Some(b) => Some(b@),
                    None => None,
                },
            ),
    {
        let ghost who = match backer {
            Some(b) => Some(b@),
            None => None,
        };
        let mut r: Vec<u64> = Vec::new();
        let mut i: usize = 0;
        while i < self.insurance_claims.len()
            invariant
                0 <= i <= self.insurance_claims@.len(),
                who == match backer {
                    Some(b) => Some(b@),
                    None => None::<Seq<u8>>,
                },
                r@ == claim_ids_of(self.insurance_claims@.subrange(0, i as int), who),
            decreases self.insurance_claims@.len() - i,
        {
            proof {
                assert(self.insurance_claims@.subrange(0, i + 1).drop_last()
                    =~= self.insurance_claims@.subrange(0, i as int));
            }
            let keep = match backer {
                Some(b) => self.insurance_claims[i].claimer.same(b),
                None => true,
            };
            if keep {
                r.push(self.insurance_claims[i].claim_id);
            }
            i = i + 1;
        }
        proof {
            assert(self.insurance_claims@.subrange(0, i as int) =~= self.insurance_claims@);
        }
        r
    }
}

/// Funding never passes the goal and the insurance pool is never negative, in
/// every state that the operations reach: each of them keeps `wf`.
pub proof fn lemma_funding_and_pool_bounds(v: VaultState)
    requires
        v.wf(),
    ensures
        v.current_funding <= v.funding_goal,
        v.insurance_pool_balance >= 0,
{
}

} // verus!