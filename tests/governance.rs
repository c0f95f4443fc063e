use ipx_protocol::governance::{Dao, DaoError, ProposalData, ProposalType};
use ipx_protocol::principal::Principal;

fn who(b: u8) -> Principal {
    Principal::from_bytes(vec![b, 1])
}

fn data(kind: ProposalType, period: u64) -> ProposalData {
    ProposalData {
        title: "t".to_string(),
        description: "d".to_string(),
        proposal_type: kind,
        voting_period: period,
    }
}

#[test]
fn majority_treasury_proposal_pays_out() {
    let mut dao = Dao::new(who(1));
    assert_eq!(dao.create_proposal(&who(2), data(ProposalType::Treasury, 10), 0), Err(DaoError::NoVotingPower));
    let id = dao.create_proposal(&who(1), data(ProposalType::Treasury, 10), 0).unwrap();
    assert_eq!(id, 1);
    dao.grant_voting_power(&who(1), who(2), 30).unwrap();
    dao.vote(&who(1), id, true, 5).unwrap();
    dao.vote(&who(2), id, false, 5).unwrap();
    assert_eq!(dao.vote(&who(1), id, true, 6), Err(DaoError::AlreadyVoted));
    assert_eq!(dao.vote(&who(2), id, true, 11), Err(DaoError::VotingClosed));
    assert_eq!(dao.execute_proposal(id, 10), Err(DaoError::VotingOpen));
    assert_eq!(dao.get_active_proposals(10), vec![1]);
    assert_eq!(dao.execute_proposal(id, 11), Ok(true));
    assert_eq!(dao.treasury_balance, 999_000);
    assert_eq!(dao.execute_proposal(id, 12), Err(DaoError::AlreadyExecuted));
    let st = dao.get_governance_stats(5);
    assert_eq!(st.total_proposals, 1);
    assert_eq!(st.active_proposals, 0);
    assert_eq!(st.total_votes_cast, 130);
    assert_eq!(st.treasury_balance, 999_000);
}

#[test]
fn tied_vote_fails_and_stays_open_to_execution() {
    let mut dao = Dao::new(who(1));
    let id = dao.create_proposal(&who(1), data(ProposalType::CodeUpgrade, 10), 0).unwrap();
    assert_eq!(dao.execute_proposal(id, 11), Ok(false));
    assert!(!dao.ready_for_upgrade);
    assert!(!dao.get_proposal(id).unwrap().executed);
    assert_eq!(dao.execute_proposal(2, 11), Err(DaoError::ProposalNotFound));
}

#[test]
fn parameter_change_and_upgrade() {
    let mut dao = Dao::new(who(1));
    let a = dao.create_proposal(&who(1), data(ProposalType::ParameterChange, 77), 0).unwrap();
    let b = dao.create_proposal(&who(1), data(ProposalType::CodeUpgrade, 5), 0).unwrap();
    dao.vote(&who(1), a, true, 1).unwrap();
    dao.vote(&who(1), b, true, 1).unwrap();
    assert_eq!(dao.execute_proposal(a, 78), Ok(true));
    assert_eq!(dao.default_voting_period, 77);
    assert_eq!(dao.execute_proposal(b, 78), Ok(true));
    assert!(dao.ready_for_upgrade);
}

#[test]
fn granting_needs_power() {
    let mut dao = Dao::new(who(1));
    dao.grant_voting_power(&who(1), who(2), 10).unwrap();
    assert_eq!(dao.grant_voting_power(&who(2), who(3), 10), Err(DaoError::InsufficientPower));
    assert_eq!(dao.get_voting_power(&who(2)), 10);
    dao.grant_voting_power(&who(1), who(2), 60).unwrap();
    assert_eq!(dao.get_voting_power(&who(2)), 60);
    assert_eq!(dao.get_voting_power(&who(3)), 0);
    assert_eq!(dao.members.len(), 2);
}

#[test]
fn deadline_out_of_range_is_refused() {
    let mut dao = Dao::new(who(1));
    assert_eq!(
        dao.create_proposal(&who(1), data(ProposalType::Treasury, u64::MAX), 1),
        Err(DaoError::ArithmeticOverflow)
    );
    assert!(dao.get_proposal(1).is_none());
}
