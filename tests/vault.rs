use ipx_protocol::principal::Principal;
use ipx_protocol::vault::{
    BackerInfo, CampaignMetadata, ClaimStatus, Share, SlashReason, SlashingConditions, VaultError,
    VaultState,
};

fn who(b: u8) -> Principal {
    Principal::from_bytes(vec![b, 7, 7])
}

fn creator() -> Principal {
    who(1)
}

fn vault(goal: u64, share: u8) -> VaultState {
    let mut v = VaultState::new(
        42,
        creator(),
        "Album".to_string(),
        goal,
        share,
        vec!["https://example.org/revenue".to_string()],
        5,
    )
    .unwrap();
    v.set_canister_refs(&creator(), None, Some(who(200)), None).unwrap();
    v
}

fn record(v: &VaultState, p: &Principal) -> BackerInfo {
    v.get_backer_info(p).unwrap()
}

#[test]
fn invest_takes_fee_into_pool() {
    let mut v = vault(1000, 10);
    let r = v.invest(&who(10), 500, 77);
    assert!(r.success);
    assert_eq!(v.insurance_pool_balance, 10);
    assert_eq!(v.current_funding, 490);
    assert_eq!(r.share, Share { numerator: 490, denominator: 1000 });
    let pct = r.share.numerator as f64 / r.share.denominator as f64 * 100.0;
    assert_eq!(pct, 49.0);
    let info = record(&v, &who(10));
    assert_eq!(info.amount_invested, 500);
    assert_eq!(info.total_claimed, 0);
    assert_eq!(info.investment_timestamp, 77);
    assert_eq!(info.nft_token_id, None);
}

#[test]
fn invest_is_capped_at_remaining_goal() {
    let mut v = vault(1000, 10);
    assert!(v.invest(&who(10), 900, 1).success);
    // 900 - 18 = 882 funded; 118 left.
    let r = v.invest(&who(11), 5000, 2);
    assert!(r.success);
    assert_eq!(record(&v, &who(11)).amount_invested, 118);
    // fee on 118 at 2% is 2.
    assert_eq!(v.current_funding, 882 + 116);
    assert_eq!(v.insurance_pool_balance, 18 + 2);
}

#[test]
fn invest_rejected_once_fully_funded() {
    let mut v = vault(100, 10);
    v.update_insurance_settings(&creator(), Some(0), None, None).unwrap();
    assert!(v.invest(&who(10), 100, 1).success);
    assert_eq!(v.current_funding, 100);
    let r = v.invest(&who(11), 10, 2);
    assert!(!r.success);
    assert_eq!(r.share, Share { numerator: 0, denominator: 1 });
    assert_eq!(r.nft_token_id, None);
    assert_eq!(r.message, "Campaign already fully funded");
    assert_eq!(v.current_funding, 100);
    assert!(v.get_backer_info(&who(11)).is_none());
}

#[test]
fn reinvest_overwrites_record() {
    let mut v = vault(10_000, 10);
    assert!(v.invest(&who(10), 1000, 1).success);
    assert!(v.invest(&who(10), 100, 2).success);
    let info = record(&v, &who(10));
    assert_eq!(info.amount_invested, 100);
    assert_eq!(info.share, Share { numerator: 98, denominator: 10_000 });
    assert_eq!(v.backers.len(), 1);
    // Funding still holds both investments.
    assert_eq!(v.current_funding, 980 + 98);
}

#[test]
fn update_revenue_appends_history() {
    let mut v = vault(1000, 10);
    v.update_revenue(300, "youtube".to_string(), true, 9).unwrap();
    v.update_revenue(200, "spotify".to_string(), false, 10).unwrap();
    assert_eq!(v.total_revenue, 500);
    assert_eq!(v.revenue_history.len(), 2);
    assert_eq!(v.revenue_history[1].source, "spotify");
    assert!(!v.revenue_history[1].oracle_verification);
    assert_eq!(
        v.update_revenue(u64::MAX, "x".to_string(), true, 11),
        Err(VaultError::ArithmeticOverflow)
    );
    assert_eq!(v.total_revenue, 500);
}

#[test]
fn payouts_follow_shares() {
    let mut v = vault(1000, 10);
    assert!(v.invest(&who(10), 500, 1).success); // share 490/1000
    assert!(v.invest(&who(11), 250, 1).success); // share 245/1000
    v.update_revenue(100_000, "oracle".to_string(), true, 2).unwrap();
    // investor share 10_000
    let batch = v.begin_payouts().unwrap();
    assert_eq!(batch.batch_id, 0);
    assert_eq!(batch.payouts.len(), 2);
    assert!(batch.payouts[0].0.same(&who(10)));
    assert_eq!(batch.payouts[0].1, 4900);
    assert_eq!(batch.payouts[1].1, 2450);
    v.finish_payouts(0, true).unwrap();
    assert_eq!(record(&v, &who(10)).total_claimed, 4900);
    assert_eq!(record(&v, &who(11)).total_claimed, 2450);
}

#[test]
fn second_payout_is_empty() {
    let mut v = vault(1000, 20);
    assert!(v.invest(&who(10), 400, 1).success);
    v.update_revenue(5000, "oracle".to_string(), true, 2).unwrap();
    let first = v.begin_payouts().unwrap();
    assert_eq!(first.payouts.len(), 1);
    v.finish_payouts(first.batch_id, true).unwrap();
    let second = v.begin_payouts().unwrap();
    assert_eq!(second.payouts.len(), 0);
    assert_eq!(second.batch_id, 1);
}

#[test]
fn refused_batch_changes_nothing() {
    let mut v = vault(1000, 20);
    assert!(v.invest(&who(10), 400, 1).success);
    v.update_revenue(5000, "oracle".to_string(), true, 2).unwrap();
    let first = v.begin_payouts().unwrap();
    assert_eq!(v.begin_payouts().err(), Some(VaultError::PayoutInProgress));
    assert_eq!(v.finish_payouts(first.batch_id + 1, true), Err(VaultError::UnknownBatch));
    v.finish_payouts(first.batch_id, false).unwrap();
    assert_eq!(record(&v, &who(10)).total_claimed, 0);
    let again = v.begin_payouts().unwrap();
    assert_eq!(again.payouts[0].1, first.payouts[0].1);
}

#[test]
fn payouts_need_stream_service() {
    let mut v = VaultState::new(1, creator(), "t".to_string(), 1000, 10, vec![], 0).unwrap();
    assert_eq!(v.begin_payouts().err(), Some(VaultError::StreamNotConfigured));
}

#[test]
fn invest_during_pending_payout_is_kept() {
    let mut v = vault(1000, 10);
    assert!(v.invest(&who(10), 500, 1).success);
    v.update_revenue(100_000, "oracle".to_string(), true, 2).unwrap();
    let batch = v.begin_payouts().unwrap();
    // Two investments arrive while the batch is with the stream service.
    assert!(v.invest(&who(11), 200, 3).success);
    assert!(v.invest(&who(12), 100, 4).success);
    v.finish_payouts(batch.batch_id, true).unwrap();
    assert_eq!(v.current_funding, 490 + 196 + 98);
    assert_eq!(v.insurance_pool_balance, 10 + 4 + 2);
    assert_eq!(record(&v, &who(10)).total_claimed, 4900);
    assert_eq!(record(&v, &who(11)).amount_invested, 200);
    assert_eq!(record(&v, &who(11)).total_claimed, 0);
    assert_eq!(record(&v, &who(12)).amount_invested, 100);
    let next = v.begin_payouts().unwrap();
    assert_eq!(next.payouts.len(), 2);
    assert_eq!(next.payouts[0].1, 1960);
    assert_eq!(next.payouts[1].1, 980);
}

#[test]
fn claim_over_coverage_is_rejected() {
    let mut v = vault(1000, 10);
    assert!(v.invest(&who(10), 500, 1).success);
    // coverage 80% of 500 = 400
    let r = v.file_insurance_claim(&who(10), 401, "late".to_string(), vec![], 3);
    assert_eq!(r, Err(VaultError::CoverageExceeded { max: 400 }));
    assert_eq!(v.insurance_claims.len(), 0);
    assert_eq!(v.insurance_pool_balance, 10);
}

#[test]
fn claim_limits_and_statuses() {
    let mut v = vault(1000, 10);
    assert!(v.invest(&who(10), 500, 1).success);
    assert_eq!(
        v.file_insurance_claim(&who(11), 1, "x".to_string(), vec![], 3),
        Err(VaultError::NotBacker)
    );
    assert_eq!(
        v.file_insurance_claim(&who(10), 11, "x".to_string(), vec![], 3),
        Err(VaultError::InsufficientPool)
    );
    let id = v
        .file_insurance_claim(&who(10), 8, "gone".to_string(), vec!["proof".to_string()], 3)
        .unwrap();
    assert_eq!(id, 0);
    assert_eq!(v.insurance_claims[0].status, ClaimStatus::Pending);
    assert_eq!(
        v.process_insurance_claim(&who(10), 0, true, 4),
        Err(VaultError::NotCreator)
    );
    assert_eq!(v.process_insurance_claim(&creator(), 5, true, 4), Err(VaultError::ClaimNotFound));
    v.process_insurance_claim(&creator(), 0, true, 4).unwrap();
    assert_eq!(v.insurance_pool_balance, 2);
    let c = v.get_insurance_claim(0).unwrap();
    assert_eq!(c.status, ClaimStatus::Approved);
    assert_eq!(c.resolved_at, Some(4));
    assert!(c.approver.as_ref().unwrap().same(&creator()));
    assert_eq!(
        v.process_insurance_claim(&creator(), 0, false, 5),
        Err(VaultError::ClaimNotPending { status: ClaimStatus::Approved })
    );
}

#[test]
fn rejected_claim_keeps_pool() {
    let mut v = vault(1000, 10);
    assert!(v.invest(&who(10), 500, 1).success);
    v.file_insurance_claim(&who(10), 5, "x".to_string(), vec![], 3).unwrap();
    v.process_insurance_claim(&creator(), 0, false, 4).unwrap();
    assert_eq!(v.insurance_claims[0].status, ClaimStatus::Rejected);
    assert_eq!(v.insurance_pool_balance, 10);
}

#[test]
fn approved_claims_join_payouts_and_get_paid() {
    let mut v = vault(1000, 10);
    assert!(v.invest(&who(10), 500, 1).success);
    assert!(v.invest(&who(11), 100, 1).success);
    v.file_insurance_claim(&who(11), 6, "x".to_string(), vec![], 3).unwrap();
    v.process_insurance_claim(&creator(), 0, true, 4).unwrap();
    v.update_revenue(1000, "oracle".to_string(), true, 5).unwrap();
    // investor share 100: backer 10 gets 49, backer 11 gets 9 plus its claim of 6.
    let batch = v.begin_payouts().unwrap();
    assert_eq!(batch.payouts.len(), 2);
    assert_eq!(batch.payouts[0].1, 49);
    assert!(batch.payouts[1].0.same(&who(11)));
    assert_eq!(batch.payouts[1].1, 15);
    v.finish_payouts(batch.batch_id, true).unwrap();
    assert_eq!(v.insurance_claims[0].status, ClaimStatus::Paid);
    assert_eq!(record(&v, &who(11)).total_claimed, 9);
    assert_eq!(v.begin_payouts().unwrap().payouts.len(), 0);
}

#[test]
fn slashing_moves_half_of_creator_share() {
    let mut v = vault(1000, 10);
    assert!(v.invest(&who(10), 500, 1).success);
    v.update_revenue(1000, "oracle".to_string(), true, 2).unwrap();
    assert_eq!(
        v.propose_slashing(&who(99), &who(98), SlashReason::ProjectAbandonment, 3),
        Err(VaultError::TargetNotCreator)
    );
    let idx = v
        .propose_slashing(&who(99), &creator(), SlashReason::Other("silence".to_string()), 3)
        .unwrap();
    assert_eq!(idx, 0);
    // creator part 900, half of it 450
    assert_eq!(v.slashed_creators[0].amount_slashed, 450);
    assert_eq!(v.insurance_pool_balance, 10 + 450);
    assert_eq!(v.slashed_creators[0].beneficiaries.len(), 1);
    assert!(v.slashed_creators[0].approved_by[0].same(&who(99)));
    // investor share 100 + 450 = 550; backer 10 owns 49%.
    let batch = v.begin_payouts().unwrap();
    assert_eq!(batch.payouts[0].1, 269);
}

#[test]
fn settings_are_bounded_and_creator_only() {
    let mut v = vault(1000, 10);
    assert_eq!(
        v.update_insurance_settings(&who(5), Some(3), None, None),
        Err(VaultError::NotCreator)
    );
    assert_eq!(
        v.update_insurance_settings(&creator(), Some(21), Some(50), None),
        Err(VaultError::FeeTooHigh)
    );
    assert_eq!(
        v.update_insurance_settings(&creator(), Some(5), Some(101), None),
        Err(VaultError::CoverageTooHigh)
    );
    assert_eq!(v.get_insurance_pool_info(), (0, 2, 80));
    let c = SlashingConditions {
        missed_revenue_reports_threshold: 1,
        revenue_decline_threshold_percentage: 2,
        minimum_active_period_days: 3,
        governance_votes_required: 4,
    };
    v.update_insurance_settings(&creator(), Some(20), Some(100), Some(c)).unwrap();
    assert_eq!(v.get_insurance_pool_info(), (0, 20, 100));
    assert_eq!(v.get_slashing_conditions(), c);
    assert_eq!(
        v.set_canister_refs(&who(5), Some(who(3)), None, None),
        Err(VaultError::NotCreator)
    );
}

#[test]
fn constructors_and_queries() {
    assert_eq!(
        VaultState::new(1, creator(), "t".to_string(), 10, 101, vec![], 0).err(),
        Some(VaultError::InvalidRevenueShare)
    );
    let v = VaultState::init(3);
    assert_eq!(v.funding_goal, 1_000_000);
    assert_eq!(v.revenue_share_percentage, 10);
    assert_eq!(v.title, "Default Vault");
    assert_eq!(v.creator.bytes, vec![4u8]);
    assert_eq!(v.get_funding_progress(), (0, 1_000_000));
    let meta = CampaignMetadata {
        creator: creator(),
        title: "Film".to_string(),
        description: "A film".to_string(),
        funding_goal: 5000,
        revenue_share_percentage: 30,
        oracle_endpoints: vec![],
    };
    let v = VaultState::from_campaign(9, meta, 4).unwrap();
    assert_eq!(v.campaign_id, 9);
    assert_eq!(v.funding_goal, 5000);
    assert_eq!(v.revenue_share_percentage, 30);
}

#[test]
fn claims_listed_by_backer() {
    let mut v = vault(1000, 10);
    assert!(v.invest(&who(10), 500, 1).success);
    assert!(v.invest(&who(11), 300, 1).success);
    v.file_insurance_claim(&who(10), 1, "a".to_string(), vec![], 2).unwrap();
    v.file_insurance_claim(&who(11), 1, "b".to_string(), vec![], 2).unwrap();
    v.file_insurance_claim(&who(10), 1, "c".to_string(), vec![], 2).unwrap();
    assert_eq!(v.get_insurance_claims(Some(&who(10))), vec![0, 2]);
    assert_eq!(v.get_insurance_claims(None), vec![0, 1, 2]);
    assert!(v.get_insurance_claim(3).is_none());
}

#[test]
fn nft_token_recorded_for_backer() {
    let mut v = vault(1000, 10);
    assert!(v.invest(&who(10), 500, 1).success);
    assert_eq!(v.record_backer_nft(&who(11), 7), Err(VaultError::NotBacker));
    v.record_backer_nft(&who(10), 7).unwrap();
    assert_eq!(record(&v, &who(10)).nft_token_id, Some(7));
}

#[test]
fn invest_refused_when_pool_would_overflow() {
    let mut v = vault(1000, 10);
    v.insurance_pool_balance = u64::MAX - 5;
    let r = v.invest(&who(10), 500, 1);
    assert!(!r.success);
    assert_eq!(r.message, "Insurance pool balance would overflow");
    assert_eq!(v.current_funding, 0);
    assert!(v.get_backer_info(&who(10)).is_none());
}
