use vstd::prelude::*;

use crate::arith::{lemma_product_fits, min_int};
use crate::principal::Principal;

verus! {

/// Nanoseconds in one second; stream times are in nanoseconds.
pub const NANOS_PER_SECOND: u64 = 1_000_000_000;

/// Denominator of a fraction given in parts per billion.
pub const PARTS_PER_BILLION: u64 = 1_000_000_000;

/// Duration, in seconds, of each stream created for a payout batch (thirty days).
pub const PAYOUT_STREAM_SECONDS: u64 = 2_592_000;

/// How a stream releases its total over time.
#[derive(PartialEq, Eq, Structural, Clone, Copy, Debug)]
pub enum StreamType {
    /// Uniform release over the duration.
    Linear,
    /// Everything at the end.
    Cliff,
    /// Fast at first, slowing down: `1 - e^(-2 * progress)` of the total.
    Exponential,
}

/// A time-released payout schedule for one recipient.
pub struct Stream {
    pub stream_id: u64,
    pub recipient: Principal,
    pub total_amount: u64,
    /// Nominal rate; zero for a cliff stream.
    pub amount_per_second: u64,
    pub start_time: u64,
    pub end_time: u64,
    pub claimed_amount: u64,
    pub campaign_id: u64,
    pub vault_canister: Principal,
    pub is_active: bool,
    pub stream_type: StreamType,
    /// The amount of a claim whose transfer has not been settled yet.
    pub transfer_in_flight: Option<u64>,
}

/// What a successful claim reports.
#[derive(PartialEq, Eq, Structural, Clone, Copy, Debug)]
pub struct ClaimResult {
    pub stream_id: u64,
    pub claimed_amount: u64,
    pub remaining_amount: u64,
    /// When the next claim may be made; zero once the stream is finished.
    pub next_claim_time: u64,
}

/// How the transfer of a claim was settled, with its amount.
#[derive(PartialEq, Eq, Structural, Clone, Copy, Debug)]
pub enum Settlement {
    /// The transfer went through.
    Confirmed(u64),
    /// The transfer was refused and the claim undone.
    RolledBack(u64),
    /// The transfer was refused after the stream's end: the amount stays
    /// reserved for the recipient until a transfer of it goes through.
    Owed(u64),
}

/// Totals over all streams.
#[derive(PartialEq, Eq, Structural, Clone, Copy, Debug)]
pub struct StreamStats {
    pub total_streams: u64,
    pub active_streams: u64,
    /// Sum of the streams' totals, saturating at `u64::MAX`.
    pub total_volume: u64,
    /// Sum of the amounts claimed, saturating at `u64::MAX`.
    pub claimed_volume: u64,
}

#[derive(PartialEq, Eq, Structural, Clone, Copy, Debug)]
pub enum StreamError {
    ZeroAmount,
    ZeroDuration,
    /// The end time does not fit in a `u64` of nanoseconds.
    TimeOverflow,
    /// No identifier is left for a new stream.
    IdSpaceExhausted,
    NotFound,
    NotRecipient,
    Inactive,
    /// A previous claim's transfer is still unsettled.
    TransferInFlight,
    NotStarted,
    NothingToClaim,
    /// Neither the recipient nor the vault.
    Unauthorized,
    /// Only the vault may resume a stream.
    NotVault,
    /// The stream has paid out its whole total.
    FullyClaimed,
    /// The stream's end time has passed.
    Ended,
    /// There is no unsettled transfer on this stream.
    NoTransferInFlight,
}

/// Whole seconds of `s` elapsed at `now`, counting no time before the start
/// and none after the end.
pub open spec fn elapsed_seconds(s: Stream, now: u64) -> int {
    let elapsed_ns: int = if now >= s.end_time {
        s.end_time - s.start_time
    } else if now >= s.start_time {
        now - s.start_time
    } else {
        0
    };
    elapsed_ns / (NANOS_PER_SECOND as int)
}

/// Whole seconds from the start of `s` to its end.
pub open spec fn duration_seconds(s: Stream) -> int {
    (s.end_time - s.start_time) / (NANOS_PER_SECOND as int)
}

/// Amount vested on `s` at time `now` (taken as no earlier than the start).
/// For an exponential stream `exp_ppb` is `1 - e^(-2 * progress)` in parts per
/// billion, with `progress` the elapsed whole seconds over the duration's whole
/// seconds (see `progress_seconds`). The vested amount is then
/// `total * exp_ppb / 10^9`, rounded down; for totals above `10^9` this can be
/// below `total * (1 - e^(-2 * progress))` rounded down, by less than
/// `total / 10^9`, since the curve's value is itself rounded to a billionth.
pub open spec fn vested(s: Stream, now: u64, exp_ppb: u64) -> int {
    let elapsed_s = elapsed_seconds(s, now);
    let duration_s = duration_seconds(s);
    match s.stream_type {
        StreamType::Linear => if elapsed_s >= duration_s {
            s.total_amount as int
        } else {
            s.total_amount * elapsed_s / duration_s
        },
        StreamType::Cliff => if now >= s.end_time {
            s.total_amount as int
        } else {
            0
        },
        StreamType::Exponential => s.total_amount * min_int(
            exp_ppb as int,
            PARTS_PER_BILLION as int,
        ) / (PARTS_PER_BILLION as int),
    }
}

/// What the recipient of `s` may withdraw at `now`: vested minus claimed, never negative.
pub open spec fn claimable(s: Stream, now: u64, exp_ppb: u64) -> int {
    if now < s.start_time {
        0
    } else if vested(s, now, exp_ppb) > s.claimed_amount {
        vested(s, now, exp_ppb) - s.claimed_amount
    } else {
        0
    }
}

pub open spec fn rate_for(total: u64, duration_seconds: u64, kind: StreamType) -> int {
    match kind {
        StreamType::Cliff => 0,
        _ => total as int / duration_seconds as int,
    }
}

impl Stream {
    /// Claimed never exceeds the total, a fully claimed stream is inactive, and
    /// an unsettled transfer is covered by what was claimed.
    pub open spec fn wf(&self) -> bool {
        &&& self.claimed_amount <= self.total_amount
        &&& self.claimed_amount == self.total_amount ==> !self.is_active
        &&& self.start_time <= self.end_time
        &&& match self.transfer_in_flight {
            Some(a) => 0 < a <= self.claimed_amount,
            None => true,
        }
    }
}

proof fn lemma_vested_bounded(s: Stream, now: u64, exp_ppb: u64)
    requires
        s.start_time <= now,
        s.start_time <= s.end_time,
    ensures
        0 <= vested(s, now, exp_ppb) <= s.total_amount,
{
    let elapsed_s = elapsed_seconds(s, now);
    let duration_s = duration_seconds(s);
    let t = s.total_amount as int;
    assert(elapsed_s >= 0);
    match s.stream_type {
        StreamType::Linear => {
            if elapsed_s < duration_s {
                assert(t * elapsed_s <= t * duration_s) by (nonlinear_arith)
                    requires
                        0 <= elapsed_s < duration_s,
                        0 <= t,
                ;
                assert(t * elapsed_s / duration_s <= t) by (nonlinear_arith)
                    requires
                        t * elapsed_s <= t * duration_s,
                        0 < duration_s,
                        0 <= t * elapsed_s,
                ;
                assert(0 <= t * elapsed_s) by (nonlinear_arith)
                    requires
                        0 <= elapsed_s,
                        0 <= t,
                ;
            }
        },
        StreamType::Cliff => {},
        StreamType::Exponential => {
            let f = min_int(exp_ppb as int, PARTS_PER_BILLION as int);
            let b = PARTS_PER_BILLION as int;
            assert(0 <= t * f / b <= t) by (nonlinear_arith)
                requires
                    0 <= f <= b,
                    0 < b,
                    0 <= t,
            ;
        },
    }
}

/// Elapsed and total whole seconds of `s` at `now`: the progress on which
/// the exponential curve is evaluated.
pub fn progress_seconds(s: &Stream, now: u64) -> (r: (u64, u64))
    requires
        s.start_time <= s.end_time,
    ensures
        r.0 == elapsed_seconds(*s, now),
        r.1 == duration_seconds(*s),
        r.0 <= r.1,
{
    let elapsed_ns: u64 = if now >= s.end_time {
        s.end_time - s.start_time
    } else if now >= s.start_time {
        now - s.start_time
    } else {
        0
    };
    (elapsed_ns / NANOS_PER_SECOND, (s.end_time - s.start_time) / NANOS_PER_SECOND)
}

/// The vested amount of `s` at `now`, for `now` no earlier than the start.
pub fn vested_amount(s: &Stream, now: u64, exp_ppb: u64) -> (r: u64)
    requires
        s.start_time <= now,
        s.start_time <= s.end_time,
    ensures
        r == vested(*s, now, exp_ppb),
{
    proof {
        lemma_vested_bounded(*s, now, exp_ppb);
    }
    let (elapsed_s, duration_s) = progress_seconds(s, now);
    match s.stream_type {
        StreamType::Linear => {
            if elapsed_s >= duration_s {
                s.total_amount
            } else {
                proof {
                    lemma_product_fits(s.total_amount, elapsed_s);
                }
                let v: u128 = (s.total_amount as u128) * (elapsed_s as u128) / (duration_s as u128);
                v as u64
            }
        },
        StreamType::Cliff => {
            if now >= s.end_time {
                s.total_amount
            } else {
                0
            }
        },
        StreamType::Exponential => {
            let f: u64 = if exp_ppb <= PARTS_PER_BILLION {
                exp_ppb
            } else {
                PARTS_PER_BILLION
            };
            proof {
                lemma_product_fits(s.total_amount, f);
            }
            let v: u128 = (s.total_amount as u128) * (f as u128) / (PARTS_PER_BILLION as u128);
            v as u64
        },
    }
}

/// What the recipient of `s` may withdraw at `now`.
pub fn claimable_amount(s: &Stream, now: u64, exp_ppb: u64) -> (r: u64)
    requires
        s.wf(),
    ensures
        r == claimable(*s, now, exp_ppb),
{
    if now < s.start_time {
        return 0;
    }
    let v = vested_amount(s, now, exp_ppb);
    if v > s.claimed_amount {
        v - s.claimed_amount
    } else {
        0
    }
}

/// Ids of the streams of `streams` paid to `user`, in order.
pub open spec fn ids_of(streams: Seq<Stream>, user: Seq<u8>) -> Seq<u64>
    decreases streams.len(),
{
    if streams.len() == 0 {
        seq![]
    } else {
        let rest = ids_of(streams.drop_last(), user);
        if streams.last().recipient@ == user {
            rest.push(streams.last().stream_id)
        } else {
            rest
        }
    }
}

pub open spec fn count_active(streams: Seq<Stream>) -> int
    decreases streams.len(),
{
    if streams.len() == 0 {
        0
    } else {
        count_active(streams.drop_last()) + if streams.last().is_active { 1int } else { 0int }
    }
}

pub open spec fn sum_totals(streams: Seq<Stream>) -> int
    decreases streams.len(),
{
    if streams.len() == 0 {
        0
    } else {
        sum_totals(streams.drop_last()) + streams.last().total_amount
    }
}

pub open spec fn sum_claimed(streams: Seq<Stream>) -> int
    decreases streams.len(),
{
    if streams.len() == 0 {
        0
    } else {
        sum_claimed(streams.drop_last()) + streams.last().claimed_amount
    }
}

/// `s` is the stream that a creation at `now` with these arguments produces.
pub open spec fn is_new_stream(
    s: Stream,
    id: u64,
    recipient: Seq<u8>,
    total: u64,
    duration_seconds: u64,
    campaign_id: u64,
    vault: Seq<u8>,
    kind: StreamType,
    now: u64,
) -> bool {
    &&& s.stream_id == id
    &&& s.recipient@ == recipient
    &&& s.total_amount == total
    &&& s.amount_per_second == rate_for(total, duration_seconds, kind)
    &&& s.start_time == now
    &&& s.end_time == now + duration_seconds * NANOS_PER_SECOND
    &&& s.claimed_amount == 0
    &&& s.campaign_id == campaign_id
    &&& s.vault_canister@ == vault
    &&& s.is_active
    &&& s.stream_type == kind
    &&& s.transfer_in_flight is None
}

/// `after` is `before` once `amount` has been claimed from it at `now`.
pub open spec fn is_claimed_from(before: Stream, after: Stream, amount: int, now: u64) -> bool {
    &&& after.claimed_amount == before.claimed_amount + amount
    &&& after.is_active == !(before.claimed_amount + amount >= before.total_amount
        || now >= before.end_time)
    &&& after.transfer_in_flight == Some(amount as u64)
    &&& after == Stream {
        claimed_amount: after.claimed_amount,
        is_active: after.is_active,
        transfer_in_flight: after.transfer_in_flight,
        ..before
    }
}

/// The streams that the payout service holds, stream `k` at position `k - 1`.
pub struct StreamRegistry {
    pub streams: Vec<Stream>,
}

impl StreamRegistry {
    pub open spec fn wf(&self) -> bool {
        forall|i: int|
            0 <= i < self.streams@.len() ==> (#[trigger] self.streams@[i]).stream_id == i + 1
                && self.streams@[i].wf()
    }

    pub open spec fn has(&self, id: u64) -> bool {
        1 <= id <= self.streams@.len()
    }

    pub open spec fn at(&self, id: u64) -> Stream {
        self.streams@[id - 1]
    }

    /// Why a creation with these arguments is refused, if it is.
    pub open spec fn create_refusal(&self, total: u64, duration_seconds: u64, now: u64) -> Option<
        StreamError,
    > {
        if total == 0 {
            Some(StreamError::ZeroAmount)
        } else if duration_seconds == 0 {
            Some(StreamError::ZeroDuration)
        } else if now + duration_seconds * NANOS_PER_SECOND > u64::MAX {
            Some(StreamError::TimeOverflow)
        } else if self.streams@.len() + 1 > u64::MAX {
            Some(StreamError::IdSpaceExhausted)
        } else {
            None
        }
    }

    /// Why a claim on stream `id` by `caller` at `now` is refused, if it is.
    pub open spec fn claim_refusal(&self, id: u64, caller: Seq<u8>, now: u64, exp_ppb: u64) -> Option<
        StreamError,
    > {
        if !self.has(id) {
            Some(StreamError::NotFound)
        } else if self.at(id).recipient@ != caller {
            Some(StreamError::NotRecipient)
        } else if !self.at(id).is_active {
            Some(StreamError::Inactive)
        } else if self.at(id).transfer_in_flight is Some {
            Some(StreamError::TransferInFlight)
        } else if now < self.at(id).start_time {
            Some(StreamError::NotStarted)
        } else if claimable(self.at(id), now, exp_ppb) == 0 {
            Some(StreamError::NothingToClaim)
        } else {
            None
        }
    }

    pub fn new() -> (r: StreamRegistry)
        ensures
            r.wf(),
            r.streams@.len() == 0,
    {
        StreamRegistry { streams: Vec::new() }
    }

    fn push_stream(
        &mut self,
        recipient: Principal,
        total_amount: u64,
        duration_seconds: u64,
        campaign_id: u64,
        vault_canister: Principal,
        stream_type: StreamType,
        now: u64,
    ) -> (id: u64)
        requires
            old(self).wf(),
            old(self).create_refusal(total_amount, duration_seconds, now) is None,
        ensures
            final(self).wf(),
            id == old(self).streams@.len() + 1,
            final(self).streams@.len() == old(self).streams@.len() + 1,
            final(self).streams@.subrange(0, old(self).streams@.len() as int) == old(self).streams@,
            is_new_stream(
                final(self).streams@[old(self).streams@.len() as int],
                id,
                recipient@,
                total_amount,
                duration_seconds,
                campaign_id,
                vault_canister@,
                stream_type,
                now,
            ),
    {
        let id: u64 = self.streams.len() as u64 + 1;
        let amount_per_second: u64 = match stream_type {
            StreamType::Cliff => 0,
            _ => total_amount / duration_seconds,
        };
        let stream = Stream {
            stream_id: id,
            recipient,
            total_amount,
            amount_per_second,
            start_time: now,
            end_time: now + duration_seconds * NANOS_PER_SECOND,
            claimed_amount: 0,
            campaign_id,
            vault_canister,
            is_active: true,
            stream_type,
            transfer_in_flight: None,
        };
        self.streams.push(stream);
        proof {
            assert(final(self).streams@.subrange(0, old(self).streams@.len() as int)
                =~= old(self).streams@);
        }
        id
    }

    /// Opens a stream of `total_amount` over `duration_seconds` starting at `now`.
    pub fn create_stream(
        &mut self,
        recipient: Principal,
        total_amount: u64,
        duration_seconds: u64,
        campaign_id: u64,
        vault_canister: Principal,
        stream_type: StreamType,
        now: u64,
    ) -> (r: Result<u64, StreamError>)
        requires
            old(self).wf(),
        ensures
            final(self).wf(),
            match old(self).create_refusal(total_amount, duration_seconds, now) {
                Some(e) => r == Err::<u64, StreamError>(e) && *final(self) == *old(self),
                None => {
                    &&& r == Ok::<u64, StreamError>((old(self).streams@.len() + 1) as u64)
                    &&& final(self).streams@.len() == old(self).streams@.len() + 1
                    &&& final(self).streams@.subrange(0, old(self).streams@.len() as int)
                        == old(self).streams@
                    &&& is_new_stream(
                        final(self).streams@[old(self).streams@.len() as int],
                        (old(self).streams@.len() + 1) as u64,
                        recipient@,
                        total_amount,
                        duration_seconds,
                        campaign_id,
                        vault_canister@,
                        stream_type,
                        now,
                    )
                },
            },
    {
        if total_amount == 0 {
            return Err(StreamError::ZeroAmount);
        }
        if duration_seconds == 0 {
            return Err(StreamError::ZeroDuration);
        }
        if duration_seconds > (u64::MAX - now) / NANOS_PER_SECOND {
            return Err(StreamError::TimeOverflow);
        }
        if self.streams.len() as u64 >= u64::MAX {
            return Err(StreamError::IdSpaceExhausted);
        }
        let id = self.push_stream(
            recipient,
            total_amount,
            duration_seconds,
            campaign_id,
            vault_canister,
            stream_type,
            now,
        );
        Ok(id)
    }

    /// Why a batch creation at `now` is refused, if it is.
    pub open spec fn batch_refusal(&self, payouts: Seq<(Principal, u64)>, now: u64) -> Option<
        StreamError,
    > {
        if exists|k: int| 0 <= k < payouts.len() && (#[trigger] payouts[k]).1 == 0 {
            Some(StreamError::ZeroAmount)
        } else if payouts.len() > 0 && now + PAYOUT_STREAM_SECONDS * NANOS_PER_SECOND
            > u64::MAX {
            Some(StreamError::TimeOverflow)
        } else if self.streams@.len() + payouts.len() > u64::MAX {
            Some(StreamError::IdSpaceExhausted)
        } else {
            None
        }
    }

    /// Opens one linear payout stream per `(recipient, amount)` of `payouts`,
    /// all or none, and returns their ids in order.
    pub fn create_streams(
        &mut self,
        payouts: &Vec<(Principal, u64)>,
        campaign_id: u64,
        caller: &Principal,
        now: u64,
    ) -> (r: Result<Vec<u64>, StreamError>)
        requires
            old(self).wf(),
        ensures
            final(self).wf(),
            match old(self).batch_refusal(payouts@, now) {
                Some(e) => r == Err::<Vec<u64>, StreamError>(e) && *final(self) == *old(self),
                None => r is Ok,
            },
            r is Ok ==> (r->Ok_0)@.len() == payouts@.len(),
            r is Ok ==> final(self).streams@.len() == old(self).streams@.len() + payouts@.len(),
            r is Ok ==> final(self).streams@.subrange(0, old(self).streams@.len() as int)
                == old(self).streams@,
            r is Ok ==> forall|k: int|
                0 <= k < payouts@.len() ==> #[trigger] (r->Ok_0)@[k] == old(self).streams@.len()
                    + k + 1,
            r is Ok ==> forall|k: int|
                0 <= k < payouts@.len() ==> is_new_stream(
                    final(self).streams@[old(self).streams@.len() + k],
                    (old(self).streams@.len() + k + 1) as u64,
                    (#[trigger] payouts@[k]).0@,
                    payouts@[k].1,
                    PAYOUT_STREAM_SECONDS,
                    campaign_id,
                    caller@,
                    StreamType::Linear,
                    now,
                ),
    {
        let mut j: usize = 0;
        while j < payouts.len()
            invariant
                *self == *old(self),
                self.wf(),
                0 <= j <= payouts@.len(),
                forall|k: int| 0 <= k < j ==> (#[trigger] payouts@[k]).1 != 0,
            decreases payouts@.len() - j,
        {
            if payouts[j].1 == 0 {
                return Err(StreamError::ZeroAmount);
            }
            j = j + 1;
        }
        if payouts.len() > 0 && PAYOUT_STREAM_SECONDS > (u64::MAX - now) / NANOS_PER_SECOND {
            return Err(StreamError::TimeOverflow);
        }
        if self.streams.len() as u64 > u64::MAX - payouts.len() as u64 {
            return Err(StreamError::IdSpaceExhausted);
        }
        let ghost n = old(self).streams@.len();
        let mut ids: Vec<u64> = Vec::new();
        let mut i: usize = 0;
        while i < payouts.len()
            invariant
                self.wf(),
                0 <= i <= payouts@.len(),
                old(self).batch_refusal(payouts@, now) is None,
                n == old(self).streams@.len(),
                self.streams@.len() == n + i,
                self.streams@.subrange(0, n as int) == old(self).streams@,
                ids@.len() == i,
                forall|k: int|
                    0 <= k < i ==> #[trigger] ids@[k] == n + k + 1 && is_new_stream(
                        self.streams@[n + k],
                        (n + k + 1) as u64,
                        payouts@[k].0@,
                        payouts@[k].1,
                        PAYOUT_STREAM_SECONDS,
                        campaign_id,
                        caller@,
                        StreamType::Linear,
                        now,
                    ),
            decreases payouts@.len() - i,
        {
            assert(payouts@[i as int].1 != 0);
            let ghost before = self.streams@;
            let id = self.push_stream(
                payouts[i].0.duplicate(),
                payouts[i].1,
                PAYOUT_STREAM_SECONDS,
                campaign_id,
                caller.duplicate(),
                StreamType::Linear,
                now,
            );
            let ghost ids_before = ids@;
            ids.push(id);
            proof {
                assert forall|k: int| 0 <= k < n + i implies self.streams@[k] == before[k] by {
                    assert(self.streams@.subrange(0, before.len() as int)[k] == before[k]);
                }
                assert forall|k: int| 0 <= k < i + 1 implies #[trigger] ids@[k] == n + k + 1
                    && is_new_stream(
                    self.streams@[n + k],
                    (n + k + 1) as u64,
                    payouts@[k].0@,
                    payouts@[k].1,
                    PAYOUT_STREAM_SECONDS,
                    campaign_id,
                    caller@,
                    StreamType::Linear,
                    now,
                ) by {
                    if k < i {
                        assert(ids@[k] == ids_before[k]);
                        assert(self.streams@[n + k] == before[n + k]);
                    }
                }
                assert(self.streams@.subrange(0, n as int) =~= old(self).streams@) by {
                    assert forall|k: int| 0 <= k < n implies self.streams@.subrange(0, n as int)[k]
                        == old(self).streams@[k] by {
                        assert(before.subrange(0, n as int)[k] == old(self).streams@[k]);
                    }
                }
            }
            i = i + 1;
        }
        proof {
            assert forall|k: int| 0 <= k < payouts@.len() implies is_new_stream(
                self.streams@[n + k],
                (n + k + 1) as u64,
                (#[trigger] payouts@[k]).0@,
                payouts@[k].1,
                PAYOUT_STREAM_SECONDS,
                campaign_id,
                caller@,
                StreamType::Linear,
                now,
            ) by {
                assert(ids@[k] == n + k + 1);
            }
        }
        Ok(ids)
    }

    /// Finds the position of stream `id`.
    fn position(&self, id: u64) -> (r: Option<usize>)
        requires
            self.wf(),
        ensures
            match r {
                Some(i) => self.has(id) && i == id - 1,
                None => !self.has(id),
            },
    {
        if id == 0 || id > self.streams.len() as u64 {
            None
        } else {
            Some((id - 1) as usize)
        }
    }

    /// Withdraws what stream `id` has vested at `now` for its recipient. The
    /// amount is reserved on the stream at once, as a transfer in flight, and
    /// `settle_claim` records whether the transfer went through.
    /// `exp_ppb` is used only for an exponential stream (see `vested`).
    pub fn claim_stream(&mut self, id: u64, caller: &Principal, now: u64, exp_ppb: u64) -> (r: Result<
        ClaimResult,
        StreamError,
    >)
        requires
            old(self).wf(),
        ensures
            final(self).wf(),
            match old(self).claim_refusal(id, caller@, now, exp_ppb) {
                Some(e) => r == Err::<ClaimResult, StreamError>(e) && *final(self) == *old(self),
                None => {
                    let before = old(self).at(id);
                    let c = claimable(before, now, exp_ppb);
                    let after = final(self).at(id);
                    &&& final(self).streams@ == old(self).streams@.update(id - 1, after)
                    &&& is_claimed_from(before, after, c, now)
                    &&& r == Ok::<ClaimResult, StreamError>(
                        (ClaimResult {
                            stream_id: id,
                            claimed_amount: c as u64,
                            remaining_amount: (after.total_amount - after.claimed_amount) as u64,
                            next_claim_time: if after.is_active {
                                min_int(now + NANOS_PER_SECOND, u64::MAX as int) as u64
                            } else {
                                0
                            },
                        }),
                    )
                },
            },
    {
        let pos = self.position(id);
        let i = match pos {
            None => return Err(StreamError::NotFound),
            Some(i) => i,
        };
        if !caller.same(&self.streams[i].recipient) {
            return Err(StreamError::NotRecipient);
        }
        if !self.streams[i].is_active {
            return Err(StreamError::Inactive);
        }
        if self.streams[i].transfer_in_flight.is_some() {
            return Err(StreamError::TransferInFlight);
        }
        if now < self.streams[i].start_time {
            return Err(StreamError::NotStarted);
        }
        let c = claimable_amount(&self.streams[i], now, exp_ppb);
        if c == 0 {
            return Err(StreamError::NothingToClaim);
        }
        proof {
            lemma_vested_bounded(self.streams@[i as int], now, exp_ppb);
        }
        let s = &mut self.streams[i];
        s.claimed_amount = s.claimed_amount + c;
        if s.claimed_amount >= s.total_amount || now >= s.end_time {
            s.is_active = false;
        }
        s.transfer_in_flight = Some(c);
        let remaining = s.total_amount - s.claimed_amount;
        let next_claim_time: u64 = if s.is_active {
            now.saturating_add(NANOS_PER_SECOND)
        } else {
            0
        };
        Ok(ClaimResult { stream_id: id, claimed_amount: c, remaining_amount: remaining, next_claim_time })
    }

    /// Records at `now` the outcome of the transfer of stream `id`'s last
    /// claim. A delivered transfer is final. A refused one made while the
    /// stream still runs (`now` before its end) is rolled back: the amount is
    /// no longer counted as claimed and the stream is active again. Once the
    /// stream has ended it stays inactive, and a refused amount stays reserved
    /// as the transfer in flight, owed to the recipient: its transfer is to be
    /// made again and settled then. A transfer whose outcome is unknown is to
    /// be left unsettled.
    pub fn settle_claim(&mut self, id: u64, delivered: bool, now: u64) -> (r: Result<
        Settlement,
        StreamError,
    >)
        requires
            old(self).wf(),
        ensures
            final(self).wf(),
            !old(self).has(id) ==> r == Err::<Settlement, StreamError>(StreamError::NotFound)
                && *final(self) == *old(self),
            old(self).has(id) && old(self).at(id).transfer_in_flight is None ==> r == Err::<
                Settlement,
                StreamError,
            >(StreamError::NoTransferInFlight) && *final(self) == *old(self),
            old(self).has(id) && old(self).at(id).transfer_in_flight is Some ==> {
                let before = old(self).at(id);
                let a = before.transfer_in_flight->Some_0;
                if delivered {
                    &&& r == Ok::<Settlement, StreamError>(Settlement::Confirmed(a))
                    &&& final(self).streams@ == old(self).streams@.update(
                        id - 1,
                        (Stream { transfer_in_flight: None, ..before }),
                    )
                } else if now < before.end_time {
                    &&& r == Ok::<Settlement, StreamError>(Settlement::RolledBack(a))
                    &&& final(self).streams@ == old(self).streams@.update(
                        id - 1,
                        (Stream {
                            transfer_in_flight: None,
                            claimed_amount: (before.claimed_amount - a) as u64,
                            is_active: true,
                            ..before
                        }),
                    )
                } else {
                    &&& r == Ok::<Settlement, StreamError>(Settlement::Owed(a))
                    &&& *final(self) == *old(self)
                }
            },
    {
        let i = match self.position(id) {
            None => return Err(StreamError::NotFound),
            Some(i) => i,
        };
        let a = match self.streams[i].transfer_in_flight {
            None => return Err(StreamError::NoTransferInFlight),
            Some(a) => a,
        };
        if delivered {
            let s = &mut self.streams[i];
            s.transfer_in_flight = None;
            Ok(Settlement::Confirmed(a))
        } else if now < self.streams[i].end_time {
            let s = &mut self.streams[i];
            s.transfer_in_flight = None;
            s.claimed_amount = s.claimed_amount - a;
            s.is_active = true;
            Ok(Settlement::RolledBack(a))
        } else {
            Ok(Settlement::Owed(a))
        }
    }

    /// Stops stream `id`; its recipient or its vault may do so.
    pub fn pause_stream(&mut self, id: u64, caller: &Principal) -> (r: Result<(), StreamError>)
        requires
            old(self).wf(),
        ensures
            final(self).wf(),
            !old(self).has(id) ==> r == Err::<(), StreamError>(StreamError::NotFound)
                && *final(self) == *old(self),
            old(self).has(id) && caller@ != old(self).at(id).vault_canister@ && caller@ != old(
                self,
            ).at(id).recipient@ ==> r == Err::<(), StreamError>(StreamError::Unauthorized)
                && *final(self) == *old(self),
            old(self).has(id) && (caller@ == old(self).at(id).vault_canister@ || caller@ == old(
                self,
            ).at(id).recipient@) ==> r == Ok::<(), StreamError>(())
                && final(self).streams@ == old(self).streams@.update(
                id - 1,
                (Stream { is_active: false, ..old(self).at(id) }),
            ),
    {
        let i = match self.position(id) {
            None => return Err(StreamError::NotFound),
            Some(i) => i,
        };
        if !caller.same(&self.streams[i].vault_canister) && !caller.same(
            &self.streams[i].recipient,
        ) {
            return Err(StreamError::Unauthorized);
        }
        let s = &mut self.streams[i];
        s.is_active = false;
        Ok(())
    }

    /// Restarts stream `id` at `now`; only its vault may do so, and neither
    /// once the stream is fully claimed nor once it has ended.
    pub fn resume_stream(&mut self, id: u64, caller: &Principal, now: u64) -> (r: Result<
        (),
        StreamError,
    >)
        requires
            old(self).wf(),
        ensures
            final(self).wf(),
            !old(self).has(id) ==> r == Err::<(), StreamError>(StreamError::NotFound)
                && *final(self) == *old(self),
            old(self).has(id) && caller@ != old(self).at(id).vault_canister@ ==> r == Err::<
                (),
                StreamError,
            >(StreamError::NotVault) && *final(self) == *old(self),
            old(self).has(id) && caller@ == old(self).at(id).vault_canister@
                && old(self).at(id).claimed_amount == old(self).at(id).total_amount ==> r == Err::<
                (),
                StreamError,
            >(StreamError::FullyClaimed) && *final(self) == *old(self),
            old(self).has(id) && caller@ == old(self).at(id).vault_canister@
                && old(self).at(id).claimed_amount < old(self).at(id).total_amount && now
                >= old(self).at(id).end_time ==> r == Err::<(), StreamError>(StreamError::Ended)
                && *final(self) == *old(self),
            old(self).has(id) && caller@ == old(self).at(id).vault_canister@
                && old(self).at(id).claimed_amount < old(self).at(id).total_amount && now
                < old(self).at(id).end_time ==> r == Ok::<(), StreamError>(())
                && final(self).streams@ == old(self).streams@.update(
                id - 1,
                (Stream { is_active: true, ..old(self).at(id) }),
            ),
    {
        let i = match self.position(id) {
            None => return Err(StreamError::NotFound),
            Some(i) => i,
        };
        if !caller.same(&self.streams[i].vault_canister) {
            return Err(StreamError::NotVault);
        }
        if self.streams[i].claimed_amount >= self.streams[i].total_amount {
            return Err(StreamError::FullyClaimed);
        }
        if now >= self.streams[i].end_time {
            return Err(StreamError::Ended);
        }
        let s = &mut self.streams[i];
        s.is_active = true;
        Ok(())
    }

    /// Stream `id`, if there is one.
    pub fn get_stream(&self, id: u64) -> (r: Option<&Stream>)
        requires
            self.wf(),
        ensures
            match r {
                Some(s) => self.has(id) && *s == self.at(id),
                None => !self.has(id),
            },
    {
        match self.position(id) {
            None => None,
            Some(i) => Some(&self.streams[i]),
        }
    }

    /// What stream `id` lets its recipient withdraw at `now`; zero for an unknown stream.
    pub fn get_claimable_amount(&self, id: u64, now: u64, exp_ppb: u64) -> (r: u64)
        requires
            self.wf(),
        ensures
            r == if self.has(id) {
                claimable(self.at(id), now, exp_ppb)
            } else {
                0
            },
    {
        match self.position(id) {
            None => 0,
            Some(i) => claimable_amount(&self.streams[i], now, exp_ppb),
        }
    }

    /// Ids of the streams paid to `user`, oldest first.
    pub fn get_user_streams(&self, user: &Principal) -> (r: Vec<u64>)
        ensures
            r@ == ids_of(self.streams@, user@),
    {
        let mut r: Vec<u64> = Vec::new();
        let mut i: usize = 0;
        while i < self.streams.len()
            invariant
                0 <= i <= self.streams@.len(),
                r@ == ids_of(self.streams@.subrange(0, i as int), user@),
            decreases self.streams@.len() - i,
        {
            proof {
                assert(self.streams@.subrange(0, i + 1).drop_last() =~= self.streams@.subrange(
                    0,
                    i as int,
                ));
            }
            if user.same(&self.streams[i].recipient) {
                r.push(self.streams[i].stream_id);
            }
            i = i + 1;
        }
        proof {
            assert(self.streams@.subrange(0, i as int) =~= self.streams@);
        }
        r
    }

    /// Counts and volumes over all streams.
    pub fn get_stream_stats(&self) -> (r: StreamStats)
        ensures
            r.total_streams == self.streams@.len(),
            r.active_streams == count_active(self.streams@),
            r.total_volume == min_int(sum_totals(self.streams@), u64::MAX as int),
            r.claimed_volume == min_int(sum_claimed(self.streams@), u64::MAX as int),
    {
        let mut active: u64 = 0;
        let mut volume: u64 = 0;
        let mut claimed: u64 = 0;
        let mut i: usize = 0;
        while i < self.streams.len()
            invariant
                0 <= i <= self.streams@.len(),
                active == count_active(self.streams@.subrange(0, i as int)),
                volume == min_int(sum_totals(self.streams@.subrange(0, i as int)), u64::MAX as int),
                claimed == min_int(
                    sum_claimed(self.streams@.subrange(0, i as int)),
                    u64::MAX as int,
                ),
            decreases self.streams@.len() - i,
        {
            let ghost prefix = self.streams@.subrange(0, i as int);
            let ghost next = self.streams@.subrange(0, i + 1);
            proof {
                assert(next.drop_last() =~= prefix);
                lemma_count_active_bounded(prefix);
                lemma_sums_nonnegative(prefix);
            }
            if self.streams[i].is_active {
                active = active + 1;
            }
            volume = volume.saturating_add(self.streams[i].total_amount);
            claimed = claimed.saturating_add(self.streams[i].claimed_amount);
            i = i + 1;
        }
        proof {
            assert(self.streams@.subrange(0, i as int) =~= self.streams@);
        }
        StreamStats {
            total_streams: self.streams.len() as u64,
            active_streams: active,
            total_volume: volume,
            claimed_volume: claimed,
        }
    }
}

proof fn lemma_count_active_bounded(streams: Seq<Stream>)
    ensures
        0 <= count_active(streams) <= streams.len(),
    decreases streams.len(),
{
    if streams.len() > 0 {
        lemma_count_active_bounded(streams.drop_last());
    }
}

proof fn lemma_sums_nonnegative(streams: Seq<Stream>)
    ensures
        0 <= sum_totals(streams),
        0 <= sum_claimed(streams),
    decreases streams.len(),
{
    if streams.len() > 0 {
        lemma_sums_nonnegative(streams.drop_last());
    }
}

/// In a well-formed registry no stream has paid out more than its total, and a
/// fully claimed stream is inactive.
pub proof fn lemma_stream_within_total(reg: StreamRegistry, id: u64)
    requires
        reg.wf(),
        reg.has(id),
    ensures
        reg.at(id).claimed_amount <= reg.at(id).total_amount,
        reg.at(id).claimed_amount == reg.at(id).total_amount ==> !reg.at(id).is_active,
{
    assert(reg.streams@[id - 1].wf());
}

/// A claim made at or after a stream's end time leaves the stream inactive,
/// and so does a claim that takes the rest of its total.
pub proof fn lemma_claim_deactivates(before: Stream, after: Stream, amount: int, now: u64)
    requires
        is_claimed_from(before, after, amount, now),
        now >= before.end_time || after.claimed_amount == before.total_amount,
    ensures
        !after.is_active,
{
}

/// The exponential curve never fully vests a stream: with the curve's value
/// below one, what has vested stays below the total, at every time.
pub proof fn lemma_exponential_never_fully_vests(s: Stream, now: u64, exp_ppb: u64)
    requires
        s.stream_type == StreamType::Exponential,
        s.total_amount > 0,
        exp_ppb < PARTS_PER_BILLION,
    ensures
        vested(s, now, exp_ppb) < s.total_amount,
{
    let t = s.total_amount as int;
    let f = exp_ppb as int;
    let b = PARTS_PER_BILLION as int;
    assert(t * f / b < t) by (nonlinear_arith)
        requires
            0 < t,
            0 <= f < b,
    ;
}

} // verus!