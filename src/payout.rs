use vstd::prelude::*;

use crate::arith::{lemma_percent_within, lemma_product_fits, lemma_share_of_within};
use crate::principal::Principal;
use crate::vault::{
    invested, BackerInfo, ClaimStatus, InsuranceClaim, VaultError, VaultState,
    SLASHED_CREATOR_SHARE_PERCENTAGE,
};

verus! {

/// A payout batch that was handed to the stream service and whose outcome is
/// not known yet. `revenue_credits[i]` is the revenue paid to backer `i`;
/// `claim_ids` are the approved insurance claims paid with it.
pub struct PendingPayout {
    pub batch_id: u64,
    pub revenue_credits: Vec<u64>,
    pub claim_ids: Vec<u64>,
}

/// What to send to the stream service: one `(recipient, amount)` per recipient.
pub struct PayoutBatch {
    pub batch_id: u64,
    pub payouts: Vec<(Principal, u64)>,
}

/// Total of the approved claims of `claims` filed by `who`.
pub open spec fn approved_total(claims: Seq<InsuranceClaim>, who: Seq<u8>) -> int
    decreases claims.len(),
{
    if claims.len() == 0 {
        0
    } else {
        let c = claims.last();
        approved_total(claims.drop_last(), who) + if c.status == ClaimStatus::Approved
            && c.claimer@ == who {
            c.amount as int
        } else {
            0
        }
    }
}

/// Positions of the approved claims of `claims`, in order.
pub open spec fn approved_ids(claims: Seq<InsuranceClaim>) -> Seq<u64>
    decreases claims.len(),
{
    if claims.len() == 0 {
        seq![]
    } else {
        let rest = approved_ids(claims.drop_last());
        if claims.last().status == ClaimStatus::Approved {
            rest.push((claims.len() - 1) as u64)
        } else {
            rest
        }
    }
}

impl VaultState {
    /// The part of the revenue owed to backers as a whole: their percentage of
    /// the total, plus half of the creator's part once the creator has been slashed.
    pub open spec fn investor_share(&self) -> int {
        let base = self.total_revenue * self.revenue_share_percentage / 100;
        if self.slashed_creators@.len() > 0 {
            base + (self.total_revenue * (100 - self.revenue_share_percentage) / 100)
                * SLASHED_CREATOR_SHARE_PERCENTAGE / 100
        } else {
            base
        }
    }

    /// Revenue owed to a backer with record `info` since the campaign began.
    pub open spec fn owed(&self, info: BackerInfo) -> int {
        self.investor_share() * info.share.numerator / (info.share.denominator as int)
    }

    /// Revenue owed to a backer with record `info` and not paid yet; never negative.
    pub open spec fn revenue_due(&self, info: BackerInfo) -> int {
        if self.owed(info) > info.total_claimed {
            self.owed(info) - info.total_claimed
        } else {
            0
        }
    }

    /// Everything owed to backer `i`: revenue, and the approved claims it filed.
    pub open spec fn payout_due(&self, i: int) -> int {
        self.revenue_due(self.backers@[i].1) + approved_total(
            self.insurance_claims@,
            self.backers@[i].0@,
        )
    }

    /// `(recipient, amount)` for each of the first `n` backers that is owed something.
    pub open spec fn payouts_upto(&self, n: int) -> Seq<(Seq<u8>, int)>
        decreases n,
    {
        if n <= 0 {
            seq![]
        } else {
            let rest = self.payouts_upto(n - 1);
            if self.payout_due(n - 1) > 0 {
                rest.push((self.backers@[n - 1].0@, self.payout_due(n - 1)))
            } else {
                rest
            }
        }
    }

    /// What a payout distribution of this state pays, recipient by recipient.
    pub open spec fn payout_list(&self) -> Seq<(Seq<u8>, int)> {
        self.payouts_upto(self.backers@.len() as int)
    }

    /// Revenue credited to each backer by a payout distribution of this state.
    pub open spec fn revenue_credits(&self) -> Seq<u64> {
        Seq::new(self.backers@.len(), |i: int| self.revenue_due(self.backers@[i].1) as u64)
    }

    pub open spec fn payout_refusal(&self) -> Option<VaultError> {
        if self.pending_payout is Some {
            Some(VaultError::PayoutInProgress)
        } else if self.stream_canister is None {
            Some(VaultError::StreamNotConfigured)
        } else if self.next_batch_id == u64::MAX || exists|i: int|
            0 <= i < self.backers@.len() && #[trigger] self.payout_due(i) > u64::MAX {
            Some(VaultError::ArithmeticOverflow)
        } else {
            None
        }
    }

    /// The investor share as a number.
    fn investor_share_amount(&self) -> (r: u64)
        requires
            self.revenue_share_percentage <= 100,
        ensures
            r == self.investor_share(),
    {
        proof {
            lemma_investor_share_bounded(*self);
            lemma_percent_within(self.total_revenue as int, self.revenue_share_percentage as int);
            lemma_percent_within(
                self.total_revenue as int,
                100 - self.revenue_share_percentage as int,
            );
        }
        let total = self.total_revenue as u128;
        let base: u128 = total * (self.revenue_share_percentage as u128) / 100;
        if self.slashed_creators.len() > 0 {
            let creator: u128 = total * ((100 - self.revenue_share_percentage) as u128) / 100;
            let extra: u128 = creator * (SLASHED_CREATOR_SHARE_PERCENTAGE as u128) / 100;
            (base + extra) as u64
        } else {
            base as u64
        }
    }

    /// Computes what is owed to each backer and sends nothing: it returns the
    /// batch to hand to the stream service and keeps it as waiting. Each backer
    /// is owed its share of the investor share less what it was paid already,
    /// and its approved insurance claims. `finish_payouts` applies the batch
    /// once the outcome of the hand-over is known; until then no other batch
    /// is made, while every other operation goes on.
    pub fn begin_payouts(&mut self) -> (r: Result<PayoutBatch, VaultError>)
        requires
            old(self).wf(),
        ensures
            final(self).wf(),
            match old(self).payout_refusal() {
                Some(e) => r == Err::<PayoutBatch, VaultError>(e) && *final(self) == *old(self),
                None => r is Ok && began_payout(*old(self), *final(self), r->Ok_0),
            },
    {
        if self.pending_payout.is_some() {
            return Err(VaultError::PayoutInProgress);
        }
        if self.stream_canister.is_none() {
            return Err(VaultError::StreamNotConfigured);
        }
        if self.next_batch_id == u64::MAX {
            return Err(VaultError::ArithmeticOverflow);
        }
        let share = self.investor_share_amount();
        let n = self.backers.len();
        let mut credits: Vec<u64> = Vec::new();
        let mut amounts: Vec<u64> = Vec::new();
        let mut i: usize = 0;
        while i < n
            invariant
                *self == *old(self),
                self.wf(),
                self.pending_payout is None,
                self.stream_canister is Some,
                self.next_batch_id < u64::MAX,
                n == self.backers@.len(),
                share == self.investor_share(),
                0 <= i <= n,
                credits@.len() == i,
                amounts@.len() == i,
                forall|t: int|
                    0 <= t < i ==> #[trigger] credits@[t] == self.revenue_due(self.backers@[t].1)
                        && amounts@[t] == credits@[t],
                forall|t: int|
                    0 <= t < i ==> self.backers@[t].1.total_claimed + #[trigger] credits@[t]
                        <= u64::MAX,
            decreases n - i,
        {
            let info = self.backers[i].1;
            proof {
                lemma_investor_share_bounded(*self);
                lemma_share_of_within(share as int, info.share.numerator as int, info.share.denominator as int);
                lemma_product_fits(share, info.share.numerator);
            }
            let owed: u64 = ((share as u128) * (info.share.numerator as u128) / (info.share.denominator as u128)) as u64;
            let due: u64 = if owed > info.total_claimed {
                owed - info.total_claimed
            } else {
                0
            };
            credits.push(due);
            amounts.push(due);
            i = i + 1;
        }
        let m = self.insurance_claims.len();
        let mut claim_ids: Vec<u64> = Vec::new();
        proof {
            let none = self.insurance_claims@.subrange(0, 0);
            assert(none.len() == 0);
            assert forall|t: int| 0 <= t < n implies #[trigger] amounts@[t] == self.revenue_due(self.backers@[t].1)
                + approved_total(none, self.backers@[t].0@) by {
                assert(amounts@[t] == credits@[t]);
            }
            assert(approved_ids(none) =~= claim_ids@);
        }
        let mut k: usize = 0;
        while k < m
            invariant
                *self == *old(self),
                self.wf(),
                self.pending_payout is None,
                self.stream_canister is Some,
                self.next_batch_id < u64::MAX,
                n == self.backers@.len(),
                m == self.insurance_claims@.len(),
                0 <= k <= m,
                credits@.len() == n,
                amounts@.len() == n,
                forall|t: int|
                    0 <= t < n ==> #[trigger] credits@[t] == self.revenue_due(self.backers@[t].1),
                forall|t: int|
                    0 <= t < n ==> self.backers@[t].1.total_claimed + #[trigger] credits@[t]
                        <= u64::MAX,
                forall|t: int|
                    0 <= t < n ==> #[trigger] amounts@[t] == self.revenue_due(self.backers@[t].1)
                        + approved_total(self.insurance_claims@.subrange(0, k as int), self.backers@[t].0@),
                claim_ids@ == approved_ids(self.insurance_claims@.subrange(0, k as int)),
            decreases m - k,
        {
            let ghost before = self.insurance_claims@.subrange(0, k as int);
            let ghost after = self.insurance_claims@.subrange(0, k + 1);
            proof {
                assert(after.drop_last() =~= before);
            }
            if self.insurance_claims[k].status == ClaimStatus::Approved {
                let j = match self.backer_position(&self.insurance_claims[k].claimer) {
                    Some(j) => j,
                    None => {
                        // Unreachable: only backers file claims, and backers stay.
                        proof {
                            assert(self.has_backer(self.insurance_claims@[k as int].claimer@));
                            assert(false);
                        }
                        return Err(VaultError::NotBacker);
                    },
                };
                let amount = self.insurance_claims[k].amount;
                if amounts[j] > u64::MAX - amount {
                    proof {
                        let who = self.backers@[j as int].0@;
                        assert(after.last() == self.insurance_claims@[k as int]);
                        assert(approved_total(after, who) == approved_total(before, who) + amount);
                        lemma_approved_total_grows(self.insurance_claims@, who, k + 1, m as int);
                        assert(self.insurance_claims@.subrange(0, m as int) =~= self.insurance_claims@);
                        assert(self.payout_due(j as int) > u64::MAX);
                        assert(old(self).payout_due(j as int) > u64::MAX);
                    }
                    return Err(VaultError::ArithmeticOverflow);
                }
                let ghost old_amounts = amounts@;
                amounts.set(j, amounts[j] + amount);
                claim_ids.push(k as u64);
                proof {
                    assert forall|t: int| 0 <= t < n implies #[trigger] amounts@[t] == self.revenue_due(self.backers@[t].1)
                        + approved_total(after, self.backers@[t].0@) by {
                        if t != j {
                            assert(self.backers@[t].0@ != self.backers@[j as int].0@);
                        }
                    }
                }
            }
            k = k + 1;
        }
        proof {
            assert(self.insurance_claims@.subrange(0, m as int) =~= self.insurance_claims@);
        }
        let mut payouts: Vec<(Principal, u64)> = Vec::new();
        let mut i: usize = 0;
        while i < n
            invariant
                *self == *old(self),
                self.wf(),
                self.pending_payout is None,
                self.stream_canister is Some,
                self.next_batch_id < u64::MAX,
                n == self.backers@.len(),
                0 <= i <= n,
                amounts@.len() == n,
                forall|t: int| 0 <= t < n ==> #[trigger] amounts@[t] == self.payout_due(t),
                payout_view(payouts@) == self.payouts_upto(i as int),
            decreases n - i,
        {
            if amounts[i] > 0 {
                let ghost prev = payouts@;
                payouts.push((self.backers[i].0.duplicate(), amounts[i]));
                proof {
                    assert(payout_view(payouts@) =~= payout_view(prev).push(
                        (self.backers@[i as int].0@, self.payout_due(i as int)),
                    ));
                }
            }
            i = i + 1;
        }
        let batch_id = self.next_batch_id;
        proof {
            assert(credits@ =~= self.revenue_credits());
            lemma_approved_ids_valid(self.insurance_claims@);
            assert forall|t: int| 0 <= t < n implies #[trigger] old(self).payout_due(t) <= u64::MAX by {
                assert(amounts@[t] == self.payout_due(t));
            }
        }
        self.pending_payout = Some(PendingPayout { batch_id, revenue_credits: credits, claim_ids });
        self.next_batch_id = self.next_batch_id + 1;
        Ok(PayoutBatch { batch_id, payouts })
    }
}

/// `after` is `before` with the batch `b` computed and kept as waiting.
pub open spec fn began_payout(before: VaultState, after: VaultState, b: PayoutBatch) -> bool {
    &&& after.pending_payout is Some
    &&& b.batch_id == before.next_batch_id
    &&& payout_view(b.payouts@) == before.payout_list()
    &&& after.pending_payout->Some_0.batch_id == before.next_batch_id
    &&& after.pending_payout->Some_0.revenue_credits@ == before.revenue_credits()
    &&& after.pending_payout->Some_0.claim_ids@ == approved_ids(before.insurance_claims@)
    &&& after == VaultState {
        pending_payout: after.pending_payout,
        next_batch_id: (before.next_batch_id + 1) as u64,
        ..before
    }
}

/// Revenue that the waiting batch `p` credits to backer `i`.
pub open spec fn credit_at(p: PendingPayout, i: int) -> int {
    if 0 <= i < p.revenue_credits@.len() {
        p.revenue_credits@[i] as int
    } else {
        0
    }
}

pub open spec fn as_paid(c: InsuranceClaim) -> InsuranceClaim {
    InsuranceClaim { status: ClaimStatus::Paid, ..c }
}

/// `after` is `before` once its waiting batch has been applied, if `delivered`,
/// or dropped: a delivered batch adds its credits to what backers were paid and
/// marks the claims it paid as paid.
pub open spec fn finished_payout(before: VaultState, after: VaultState, delivered: bool) -> bool {
    let p = before.pending_payout->Some_0;
    if delivered {
        &&& after == VaultState {
            pending_payout: None,
            backers: after.backers,
            insurance_claims: after.insurance_claims,
            ..before
        }
        &&& after.backers@.len() == before.backers@.len()
        &&& forall|i: int|
            0 <= i < before.backers@.len() ==> (#[trigger] after.backers@[i]).0 == before.backers@[i].0
                && after.backers@[i].1 == BackerInfo {
                total_claimed: (before.backers@[i].1.total_claimed + credit_at(p, i)) as u64,
                ..before.backers@[i].1
            }
        &&& after.insurance_claims@.len() == before.insurance_claims@.len()
        &&& forall|k: int|
            0 <= k < before.insurance_claims@.len() ==> #[trigger] after.insurance_claims@[k] == if p.claim_ids@.contains(
                k as u64,
            ) {
                as_paid(before.insurance_claims@[k])
            } else {
                before.insurance_claims@[k]
            }
    } else {
        after == VaultState { pending_payout: None, ..before }
    }
}

impl VaultState {
    /// Applies the outcome of handing batch `batch_id` to the stream service.
    /// Call it with `delivered` once the service has confirmed the batch, and
    /// without once it has refused it; a hand-over whose outcome is unknown is
    /// to be left waiting until it is known. Either way the vault then accepts
    /// a new batch.
    pub fn finish_payouts(&mut self, batch_id: u64, delivered: bool) -> (r: Result<(), VaultError>)
        requires
            old(self).wf(),
        ensures
            final(self).wf(),
            old(self).pending_payout is None || old(self).pending_payout->Some_0.batch_id != batch_id
                ==> r == Err::<(), VaultError>(VaultError::UnknownBatch) && *final(self) == *old(self),
            old(self).pending_payout is Some && old(self).pending_payout->Some_0.batch_id == batch_id
                ==> r == Ok::<(), VaultError>(()) && finished_payout(*old(self), *final(self), delivered),
    {
        let p = match self.pending_payout.take() {
            None => return Err(VaultError::UnknownBatch),
            Some(p) => p,
        };
        if p.batch_id != batch_id {
            self.pending_payout = Some(p);
            return Err(VaultError::UnknownBatch);
        }
        if !delivered {
            return Ok(());
        }
        let n = p.revenue_credits.len();
        let mut i: usize = 0;
        while i < n
            invariant
                old(self).wf(),
                old(self).pending_payout == Some(p),
                n == p.revenue_credits@.len(),
                n <= old(self).backers@.len(),
                0 <= i <= n,
                *self == (VaultState { pending_payout: None, backers: self.backers, ..*old(self) }),
                self.backers@.len() == old(self).backers@.len(),
                forall|t: int|
                    0 <= t < old(self).backers@.len() ==> (#[trigger] self.backers@[t]).0 == old(self).backers@[t].0
                        && self.backers@[t].1 == if t < i {
                        (BackerInfo {
                            total_claimed: (old(self).backers@[t].1.total_claimed + credit_at(p, t)) as u64,
                            ..old(self).backers@[t].1
                        })
                    } else {
                        old(self).backers@[t].1
                    },
            decreases n - i,
        {
            let credit = p.revenue_credits[i];
            assert(old(self).backers@[i as int].1.total_claimed + p.revenue_credits@[i as int] <= u64::MAX);
            let entry = &mut self.backers[i];
            entry.1.total_claimed = entry.1.total_claimed + credit;
            i = i + 1;
        }
        let c = p.claim_ids.len();
        let claim_count = self.insurance_claims.len();
        let mut k: usize = 0;
        while k < c
            invariant
                old(self).wf(),
                old(self).pending_payout == Some(p),
                c == p.claim_ids@.len(),
                claim_count == old(self).insurance_claims@.len(),
                0 <= k <= c,
                *self == (VaultState {
                    pending_payout: None,
                    backers: self.backers,
                    insurance_claims: self.insurance_claims,
                    ..*old(self)
                }),
                self.backers@.len() == old(self).backers@.len(),
                forall|t: int|
                    0 <= t < old(self).backers@.len() ==> (#[trigger] self.backers@[t]).0 == old(self).backers@[t].0
                        && self.backers@[t].1 == (BackerInfo {
                        total_claimed: (old(self).backers@[t].1.total_claimed + credit_at(p, t)) as u64,
                        ..old(self).backers@[t].1
                    }),
                self.insurance_claims@.len() == old(self).insurance_claims@.len(),
                forall|j: int|
                    0 <= j < old(self).insurance_claims@.len() ==> #[trigger] self.insurance_claims@[j]
                        == if p.claim_ids@.subrange(0, k as int).contains(j as u64) {
                        as_paid(old(self).insurance_claims@[j])
                    } else {
                        old(self).insurance_claims@[j]
                    },
            decreases c - k,
        {
            let id = p.claim_ids[k];
            assert(id < old(self).insurance_claims@.len()) by {
                assert(p.claim_ids@[k as int] == id);
            }
            let ghost before = self.insurance_claims@;
            let claim = &mut self.insurance_claims[id as usize];
            claim.status = ClaimStatus::Paid;
            proof {
                let done = p.claim_ids@.subrange(0, k as int);
                let done2 = p.claim_ids@.subrange(0, k + 1);
                assert forall|j: int| 0 <= j < old(self).insurance_claims@.len() implies #[trigger] self.insurance_claims@[j]
                    == if done2.contains(j as u64) {
                    as_paid(old(self).insurance_claims@[j])
                } else {
                    old(self).insurance_claims@[j]
                } by {
                    if j == id {
                        assert(done2[k as int] == id);
                        assert(done2.contains(j as u64));
                    } else {
                        if done2.contains(j as u64) {
                            let q = choose|q: int| 0 <= q < done2.len() && done2[q] == j as u64;
                            assert(q < k);
                            assert(done[q] == j as u64);
                        }
                        if done.contains(j as u64) {
                            let q = choose|q: int| 0 <= q < done.len() && done[q] == j as u64;
                            assert(done2[q] == j as u64);
                        }
                    }
                }
            }
            k = k + 1;
        }
        proof {
            assert(p.claim_ids@.subrange(0, c as int) =~= p.claim_ids@);
            assert forall|t: int| 0 <= t < self.insurance_claims@.len() implies (#[trigger] self.insurance_claims@[t]).claim_id
                == t && self.has_backer(self.insurance_claims@[t].claimer@) by {
                let who = old(self).insurance_claims@[t].claimer@;
                let w = choose|j: int|
                    0 <= j < old(self).backers@.len() && (#[trigger] old(self).backers@[j]).0@ == who;
                assert(self.backers@[w].0 == old(self).backers@[w].0);
            }
        }
        Ok(())
    }
}

/// `(recipient, amount)` pairs as values.
pub open spec fn payout_view(v: Seq<(Principal, u64)>) -> Seq<(Seq<u8>, int)> {
    v.map_values(|p: (Principal, u64)| (p.0@, p.1 as int))
}

/// The investor share never exceeds the revenue.
pub proof fn lemma_investor_share_bounded(v: VaultState)
    requires
        v.revenue_share_percentage <= 100,
    ensures
        0 <= v.investor_share() <= v.total_revenue,
{
    let a = v.total_revenue as int;
    let r = v.revenue_share_percentage as int;
    lemma_percent_within(a, r);
    lemma_percent_within(a, 100 - r);
    assert(a * r / 100 + a * (100 - r) / 100 <= a) by (nonlinear_arith)
        requires
            0 <= a,
            0 <= r <= 100,
    ;
    lemma_percent_within(a * (100 - r) / 100, 50);
}

/// Over a longer prefix of the claims, a claimer's approved total is no smaller.
pub proof fn lemma_approved_total_grows(claims: Seq<InsuranceClaim>, who: Seq<u8>, k: int, m: int)
    requires
        0 <= k <= m <= claims.len(),
    ensures
        approved_total(claims.subrange(0, k), who) <= approved_total(claims.subrange(0, m), who),
    decreases m - k,
{
    if k < m {
        lemma_approved_total_grows(claims, who, k, m - 1);
        assert(claims.subrange(0, m).drop_last() =~= claims.subrange(0, m - 1));
    }
}

/// Each id that `approved_ids` lists is the position of an approved claim.
pub proof fn lemma_approved_ids_valid(claims: Seq<InsuranceClaim>)
    requires
        claims.len() <= u64::MAX,
    ensures
        forall|k: int|
            0 <= k < approved_ids(claims).len() ==> #[trigger] approved_ids(claims)[k] < claims.len()
                && claims[approved_ids(claims)[k] as int].status == ClaimStatus::Approved,
    decreases claims.len(),
{
    if claims.len() > 0 {
        let rest = claims.drop_last();
        lemma_approved_ids_valid(rest);
        assert forall|k: int| 0 <= k < approved_ids(rest).len() implies #[trigger] approved_ids(rest)[k]
            < claims.len() && claims[approved_ids(rest)[k] as int].status == ClaimStatus::Approved by {
            assert(claims[approved_ids(rest)[k] as int] == rest[approved_ids(rest)[k] as int]);
        }
        if claims.last().status == ClaimStatus::Approved {
            let ids = approved_ids(claims);
            assert(ids == approved_ids(rest).push((claims.len() - 1) as u64));
            assert forall|k: int| 0 <= k < ids.len() implies #[trigger] ids[k] < claims.len()
                && claims[ids[k] as int].status == ClaimStatus::Approved by {
                if k < approved_ids(rest).len() {
                    assert(ids[k] == approved_ids(rest)[k]);
                } else {
                    assert(ids[k] == claims.len() - 1);
                }
            }
        }
    }
}

/// Every approved claim is listed by `approved_ids`.
pub proof fn lemma_approved_ids_complete(claims: Seq<InsuranceClaim>)
    requires
        claims.len() <= u64::MAX,
    ensures
        forall|k: int|
            0 <= k < claims.len() && (#[trigger] claims[k]).status == ClaimStatus::Approved
                ==> approved_ids(claims).contains(k as u64),
    decreases claims.len(),
{
    if claims.len() > 0 {
        let rest = claims.drop_last();
        lemma_approved_ids_complete(rest);
        let ids = approved_ids(claims);
        assert forall|k: int|
            0 <= k < claims.len() && (#[trigger] claims[k]).status == ClaimStatus::Approved implies ids.contains(
            k as u64,
        ) by {
            if k < rest.len() {
                assert(rest[k] == claims[k]);
                let q = choose|q: int| 0 <= q < approved_ids(rest).len() && approved_ids(rest)[q] == k as u64;
                if claims.last().status == ClaimStatus::Approved {
                    assert(ids[q] == k as u64);
                }
            } else {
                assert(ids.last() == k as u64);
            }
        }
    }
}

/// Without approved claims, nobody's approved total is above zero.
pub proof fn lemma_approved_total_zero(claims: Seq<InsuranceClaim>, who: Seq<u8>)
    requires
        forall|k: int| 0 <= k < claims.len() ==> (#[trigger] claims[k]).status != ClaimStatus::Approved,
    ensures
        approved_total(claims, who) == 0,
    decreases claims.len(),
{
    if claims.len() > 0 {
        let rest = claims.drop_last();
        assert forall|k: int| 0 <= k < rest.len() implies (#[trigger] rest[k]).status != ClaimStatus::Approved by {
            assert(rest[k] == claims[k]);
        }
        lemma_approved_total_zero(rest, who);
    }
}

/// A list built from backers that are owed nothing is empty.
pub proof fn lemma_nothing_due_nothing_paid(v: VaultState, n: int)
    requires
        0 <= n <= v.backers@.len(),
        forall|i: int| 0 <= i < n ==> #[trigger] v.payout_due(i) <= 0,
    ensures
        v.payouts_upto(n).len() == 0,
    decreases n,
{
    if n > 0 {
        lemma_nothing_due_nothing_paid(v, n - 1);
    }
}

/// Paying out twice in a row pays nothing the second time: once a batch has
/// been computed and delivered, with nothing else done to the vault in
/// between, the next batch is accepted, is empty, and credits nobody. (The
/// batch counter must leave room for a second batch.)
pub proof fn lemma_second_payout_is_empty(
    v0: VaultState,
    v1: VaultState,
    b: PayoutBatch,
    v2: VaultState,
)
    requires
        v0.wf(),
        v0.payout_refusal() is None,
        v0.next_batch_id < u64::MAX - 1,
        began_payout(v0, v1, b),
        finished_payout(v1, v2, true),
    ensures
        v2.payout_refusal() is None,
        v2.payout_list().len() == 0,
        forall|i: int| 0 <= i < v2.backers@.len() ==> #[trigger] v2.revenue_credits()[i] == 0,
{
    let p = v1.pending_payout->Some_0;
    lemma_approved_ids_complete(v0.insurance_claims@);
    assert forall|k: int| 0 <= k < v2.insurance_claims@.len() implies (#[trigger] v2.insurance_claims@[k]).status
        != ClaimStatus::Approved by {
        if v0.insurance_claims@[k].status == ClaimStatus::Approved {
            assert(p.claim_ids@.contains(k as u64));
        }
    }
    lemma_investor_share_bounded(v0);
    assert forall|i: int| 0 <= i < v2.backers@.len() implies #[trigger] v2.payout_due(i) <= 0
        && v2.revenue_due(v2.backers@[i].1) == 0 by {
        lemma_approved_total_zero(v2.insurance_claims@, v2.backers@[i].0@);
        let info0 = v0.backers@[i].1;
        let info2 = v2.backers@[i].1;
        assert(v0.backers@[i] == v1.backers@[i]);
        assert(credit_at(p, i) == v0.revenue_due(info0) as u64);
        assert(v2.investor_share() == v0.investor_share());
        assert(v2.owed(info2) == v0.owed(info0));
        lemma_share_of_within(v0.investor_share(), info0.share.numerator as int, info0.share.denominator as int);
    }
    assert forall|i: int| 0 <= i < v2.backers@.len() implies #[trigger] v2.revenue_credits()[i] == 0 by {
        assert(v2.payout_due(i) <= 0);
        assert(v2.revenue_due(v2.backers@[i].1) == 0);
    }
    assert forall|i: int| 0 <= i < v2.backers@.len() implies !(#[trigger] v2.payout_due(i) > u64::MAX) by {
        assert(v2.payout_due(i) <= 0);
    }
    lemma_nothing_due_nothing_paid(v2, v2.backers@.len() as int);
}

/// Two investments made while a payout batch waits for its outcome are both
/// kept when the batch is then applied: the funding and the insurance pool
/// hold the sum of their effects, and each investor's record holds what it
/// invested.
pub proof fn lemma_investments_survive_payout(
    v0: VaultState,
    v1: VaultState,
    b: PayoutBatch,
    v2: VaultState,
    v3: VaultState,
    v4: VaultState,
    who1: Seq<u8>,
    amount1: u64,
    now1: u64,
    who2: Seq<u8>,
    amount2: u64,
    now2: u64,
)
    requires
        v0.wf(),
        v0.payout_refusal() is None,
        began_payout(v0, v1, b),
        v1.wf(),
        v1.invest_refusal(amount1) is None,
        invested(v1, v2, who1, amount1, now1),
        v2.wf(),
        v2.invest_refusal(amount2) is None,
        invested(v2, v3, who2, amount2, now2),
        v3.wf(),
        finished_payout(v3, v4, true),
        v4.wf(),
        who1 != who2,
    ensures
        v4.current_funding == v0.current_funding + (v1.accepted(amount1) - v1.fee_on(amount1)) + (
        v2.accepted(amount2) - v2.fee_on(amount2)),
        v4.insurance_pool_balance == v0.insurance_pool_balance + v1.fee_on(amount1) + v2.fee_on(
            amount2,
        ),
        v4.has_backer(who1),
        v4.record_of(who1).amount_invested == v1.accepted(amount1),
        v4.has_backer(who2),
        v4.record_of(who2).amount_invested == v2.accepted(amount2),
{
    lemma_percent_within(v1.accepted(amount1), v1.insurance_fee_percentage as int);
    lemma_percent_within(v2.accepted(amount2), v2.insurance_fee_percentage as int);
    let info1 = v1.record_for(amount1, now1);
    let info2 = v2.record_for(amount2, now2);
    let i1: int = if v1.has_backer(who1) {
        choose|i: int| 0 <= i < v1.backers@.len() && (#[trigger] v1.backers@[i]).0@ == who1
    } else {
        v1.backers@.len() as int
    };
    assert(v2.backers@[i1].0@ == who1);
    assert(v2.backers@[i1].1 == info1);
    assert(v3.backers@[i1].0 == v2.backers@[i1].0);
    assert(v3.backers@[i1].1 == info1);
    let i2: int = if v2.has_backer(who2) {
        choose|i: int| 0 <= i < v2.backers@.len() && (#[trigger] v2.backers@[i]).0@ == who2
    } else {
        v2.backers@.len() as int
    };
    assert(v3.backers@[i2].0@ == who2);
    assert(v3.backers@[i2].1 == info2);
    assert(v4.backers@[i1].0 == v3.backers@[i1].0);
    assert(v4.backers@[i2].0 == v3.backers@[i2].0);
    v4.lemma_record_at(i1);
    v4.lemma_record_at(i2);
}

} // verus!