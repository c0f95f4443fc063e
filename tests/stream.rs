use ipx_protocol::principal::Principal;
use ipx_protocol::stream::{
    progress_seconds, Settlement, StreamError, StreamRegistry, StreamType, NANOS_PER_SECOND,
};

fn who(b: u8) -> Principal {
    Principal::from_bytes(vec![b])
}

const T0: u64 = 1_000 * NANOS_PER_SECOND;

/// `1 - e^(-2 * elapsed / duration)` in parts per billion.
fn exp_ppb(elapsed_s: u64, duration_s: u64) -> u64 {
    let progress = elapsed_s as f64 / duration_s as f64;
    ((1.0 - (-2.0 * progress).exp()) * 1e9) as u64
}

#[test]
fn create_stream_validates() {
    let mut reg = StreamRegistry::new();
    assert_eq!(
        reg.create_stream(who(1), 0, 10, 1, who(9), StreamType::Linear, T0),
        Err(StreamError::ZeroAmount)
    );
    assert_eq!(
        reg.create_stream(who(1), 10, 0, 1, who(9), StreamType::Linear, T0),
        Err(StreamError::ZeroDuration)
    );
    assert_eq!(
        reg.create_stream(who(1), 10, u64::MAX / 2, 1, who(9), StreamType::Linear, T0),
        Err(StreamError::TimeOverflow)
    );
    assert_eq!(reg.create_stream(who(1), 1000, 100, 1, who(9), StreamType::Linear, T0), Ok(1));
    assert_eq!(reg.create_stream(who(2), 1000, 100, 1, who(9), StreamType::Cliff, T0), Ok(2));
    let s = reg.get_stream(1).unwrap();
    assert_eq!(s.amount_per_second, 10);
    assert_eq!(s.end_time, T0 + 100 * NANOS_PER_SECOND);
    assert!(s.is_active);
    assert_eq!(reg.get_stream(2).unwrap().amount_per_second, 0);
    assert!(reg.get_stream(3).is_none());
}

#[test]
fn linear_claim_half_way() {
    let mut reg = StreamRegistry::new();
    let id = reg.create_stream(who(1), 1000, 100, 1, who(9), StreamType::Linear, T0).unwrap();
    let now = T0 + 50 * NANOS_PER_SECOND;
    assert_eq!(reg.get_claimable_amount(id, now, 0), 500);
    let r = reg.claim_stream(id, &who(1), now, 0).unwrap();
    assert_eq!(r.claimed_amount, 500);
    assert_eq!(r.remaining_amount, 500);
    assert_eq!(r.next_claim_time, now + NANOS_PER_SECOND);
    assert!(reg.get_stream(id).unwrap().is_active);
}

#[test]
fn exponential_claim_at_end_strands_the_rest() {
    let mut reg = StreamRegistry::new();
    let id = reg.create_stream(who(1), 1000, 100, 1, who(9), StreamType::Exponential, T0).unwrap();
    let now = T0 + 100 * NANOS_PER_SECOND;
    let f = exp_ppb(100, 100);
    let r = reg.claim_stream(id, &who(1), now, f).unwrap();
    assert_eq!(r.claimed_amount, 864);
    assert_eq!(r.remaining_amount, 136);
    assert_eq!(r.next_claim_time, 0);
    let s = reg.get_stream(id).unwrap();
    assert!(!s.is_active);
    assert_eq!(s.claimed_amount, 864);
    assert_eq!(reg.settle_claim(id, true, now), Ok(Settlement::Confirmed(864)));
    assert_eq!(
        reg.claim_stream(id, &who(1), now + NANOS_PER_SECOND, f).err(),
        Some(StreamError::Inactive)
    );
    // The vault cannot turn the ended stream back on: the rest stays unclaimable.
    assert_eq!(reg.resume_stream(id, &who(9), now + NANOS_PER_SECOND), Err(StreamError::Ended));
    assert!(!reg.get_stream(id).unwrap().is_active);
}

#[test]
fn cliff_pays_only_at_end() {
    let mut reg = StreamRegistry::new();
    let id = reg.create_stream(who(1), 300, 10, 1, who(9), StreamType::Cliff, T0).unwrap();
    assert_eq!(
        reg.claim_stream(id, &who(1), T0 + 9 * NANOS_PER_SECOND, 0).err(),
        Some(StreamError::NothingToClaim)
    );
    let r = reg.claim_stream(id, &who(1), T0 + 10 * NANOS_PER_SECOND, 0).unwrap();
    assert_eq!(r.claimed_amount, 300);
    assert_eq!(r.remaining_amount, 0);
    assert!(!reg.get_stream(id).unwrap().is_active);
}

#[test]
fn claim_errors() {
    let mut reg = StreamRegistry::new();
    let id = reg.create_stream(who(1), 1000, 100, 1, who(9), StreamType::Linear, T0).unwrap();
    assert_eq!(reg.claim_stream(9, &who(1), T0, 0).err(), Some(StreamError::NotFound));
    assert_eq!(reg.claim_stream(id, &who(2), T0, 0).err(), Some(StreamError::NotRecipient));
    assert_eq!(reg.claim_stream(id, &who(1), T0 - 1, 0).err(), Some(StreamError::NotStarted));
    assert_eq!(reg.claim_stream(id, &who(1), T0, 0).err(), Some(StreamError::NothingToClaim));
    reg.claim_stream(id, &who(1), T0 + 10 * NANOS_PER_SECOND, 0).unwrap();
    assert_eq!(
        reg.claim_stream(id, &who(1), T0 + 20 * NANOS_PER_SECOND, 0).err(),
        Some(StreamError::TransferInFlight)
    );
}

#[test]
fn refused_transfer_is_rolled_back() {
    let mut reg = StreamRegistry::new();
    let id = reg.create_stream(who(1), 1000, 100, 1, who(9), StreamType::Linear, T0).unwrap();
    let mid = T0 + 50 * NANOS_PER_SECOND;
    reg.claim_stream(id, &who(1), mid, 0).unwrap();
    assert_eq!(reg.settle_claim(id, false, mid), Ok(Settlement::RolledBack(500)));
    let s = reg.get_stream(id).unwrap();
    assert_eq!(s.claimed_amount, 0);
    assert!(s.is_active);
    assert_eq!(reg.settle_claim(id, false, mid), Err(StreamError::NoTransferInFlight));
    assert_eq!(reg.claim_stream(id, &who(1), mid, 0).unwrap().claimed_amount, 500);
    assert_eq!(reg.settle_claim(id, true, mid), Ok(Settlement::Confirmed(500)));
    assert_eq!(reg.get_stream(id).unwrap().claimed_amount, 500);
}

#[test]
fn refused_transfer_after_end_stays_owed() {
    let mut reg = StreamRegistry::new();
    let id = reg.create_stream(who(1), 1000, 100, 1, who(9), StreamType::Linear, T0).unwrap();
    let end = T0 + 100 * NANOS_PER_SECOND;
    reg.claim_stream(id, &who(1), end, 0).unwrap();
    assert_eq!(reg.settle_claim(id, false, end), Ok(Settlement::Owed(1000)));
    let s = reg.get_stream(id).unwrap();
    assert!(!s.is_active);
    assert_eq!(s.claimed_amount, 1000);
    assert_eq!(s.transfer_in_flight, Some(1000));
    assert_eq!(reg.settle_claim(id, true, end + 1), Ok(Settlement::Confirmed(1000)));
    assert_eq!(reg.get_stream(id).unwrap().transfer_in_flight, None);
}

#[test]
fn progress_in_whole_seconds() {
    let mut reg = StreamRegistry::new();
    let id = reg.create_stream(who(1), 1000, 100, 1, who(9), StreamType::Exponential, T0).unwrap();
    let s = reg.get_stream(id).unwrap();
    assert_eq!(progress_seconds(s, T0 - 5), (0, 100));
    assert_eq!(progress_seconds(s, T0 + 30 * NANOS_PER_SECOND + 999), (30, 100));
    assert_eq!(progress_seconds(s, T0 + 500 * NANOS_PER_SECOND), (100, 100));
}

#[test]
fn pause_and_resume() {
    let mut reg = StreamRegistry::new();
    let id = reg.create_stream(who(1), 1000, 100, 1, who(9), StreamType::Linear, T0).unwrap();
    assert_eq!(reg.pause_stream(id, &who(5)), Err(StreamError::Unauthorized));
    reg.pause_stream(id, &who(1)).unwrap();
    assert!(!reg.get_stream(id).unwrap().is_active);
    assert_eq!(
        reg.claim_stream(id, &who(1), T0 + 50 * NANOS_PER_SECOND, 0).err(),
        Some(StreamError::Inactive)
    );
    assert_eq!(reg.resume_stream(id, &who(1), T0), Err(StreamError::NotVault));
    reg.resume_stream(id, &who(9), T0 + 60 * NANOS_PER_SECOND).unwrap();
    assert!(reg.get_stream(id).unwrap().is_active);
    assert_eq!(reg.pause_stream(7, &who(1)), Err(StreamError::NotFound));
}

#[test]
fn resume_refused_once_fully_claimed() {
    let mut reg = StreamRegistry::new();
    let id = reg.create_stream(who(1), 10, 1, 1, who(9), StreamType::Linear, T0).unwrap();
    reg.claim_stream(id, &who(1), T0 + NANOS_PER_SECOND, 0).unwrap();
    reg.settle_claim(id, true, T0 + NANOS_PER_SECOND).unwrap();
    assert_eq!(reg.resume_stream(id, &who(9), T0), Err(StreamError::FullyClaimed));
    assert!(!reg.get_stream(id).unwrap().is_active);
}

#[test]
fn batch_creation_is_all_or_nothing() {
    let mut reg = StreamRegistry::new();
    let bad = vec![(who(1), 5), (who(2), 0)];
    assert_eq!(reg.create_streams(&bad, 3, &who(9), T0), Err(StreamError::ZeroAmount));
    assert_eq!(reg.get_stream_stats().total_streams, 0);
    let good = vec![(who(1), 5), (who(2), 7), (who(1), 9)];
    let ids = reg.create_streams(&good, 3, &who(9), T0).unwrap();
    assert_eq!(ids, vec![1, 2, 3]);
    let s = reg.get_stream(2).unwrap();
    assert_eq!(s.total_amount, 7);
    assert_eq!(s.campaign_id, 3);
    assert_eq!(s.stream_type, StreamType::Linear);
    assert!(s.vault_canister.same(&who(9)));
    assert_eq!(s.end_time, T0 + 2_592_000 * NANOS_PER_SECOND);
    assert_eq!(reg.get_user_streams(&who(1)), vec![1, 3]);
    assert_eq!(reg.get_user_streams(&who(4)), Vec::<u64>::new());
}

#[test]
fn stats_count_and_sum() {
    let mut reg = StreamRegistry::new();
    reg.create_stream(who(1), 1000, 100, 1, who(9), StreamType::Linear, T0).unwrap();
    reg.create_stream(who(2), u64::MAX, 100, 1, who(9), StreamType::Linear, T0).unwrap();
    reg.claim_stream(1, &who(1), T0 + 100 * NANOS_PER_SECOND, 0).unwrap();
    let st = reg.get_stream_stats();
    assert_eq!(st.total_streams, 2);
    assert_eq!(st.active_streams, 1);
    assert_eq!(st.total_volume, u64::MAX);
    assert_eq!(st.claimed_volume, 1000);
}
