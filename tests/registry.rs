use ipx_protocol::principal::Principal;
use ipx_protocol::registry::{CampaignRegistry, CampaignStatus, RegistryError};

fn who(b: u8) -> Principal {
    Principal::from_bytes(vec![b, 2])
}

fn create(reg: &mut CampaignRegistry, creator: u8, share: u8) -> Result<u64, RegistryError> {
    reg.create_campaign(
        &who(creator),
        "Podcast".to_string(),
        "Weekly show".to_string(),
        10_000,
        share,
        vec!["https://example.org/api".to_string()],
        3,
    )
}

#[test]
fn campaign_needs_valid_share() {
    let mut reg = CampaignRegistry::new();
    assert_eq!(create(&mut reg, 1, 0), Err(RegistryError::InvalidRevenueShare));
    assert_eq!(create(&mut reg, 1, 101), Err(RegistryError::InvalidRevenueShare));
    assert_eq!(reg.get_all_campaigns(), Vec::<u64>::new());
    assert_eq!(create(&mut reg, 1, 100), Ok(1));
}

#[test]
fn vault_setup_activates_or_removes() {
    let mut reg = CampaignRegistry::new();
    let a = create(&mut reg, 1, 20).unwrap();
    let b = create(&mut reg, 2, 20).unwrap();
    let c = create(&mut reg, 1, 20).unwrap();
    assert_eq!((a, b, c), (1, 2, 3));
    assert_eq!(reg.get_campaign(a).unwrap().status, CampaignStatus::Draft);
    reg.complete_creation(a, Some(who(50))).unwrap();
    reg.complete_creation(b, None).unwrap();
    let m = reg.get_campaign(a).unwrap();
    assert_eq!(m.status, CampaignStatus::Active);
    assert!(m.vault_canister_id.as_ref().unwrap().same(&who(50)));
    assert!(reg.get_campaign(b).is_none());
    assert_eq!(reg.complete_creation(b, None), Err(RegistryError::CampaignNotFound));
    assert_eq!(reg.get_all_campaigns(), vec![1, 3]);
    assert_eq!(reg.get_active_campaigns(), vec![1]);
    assert_eq!(reg.get_campaigns_by_creator(&who(1)), vec![1, 3]);
    // Ids are not reused after a removal.
    assert_eq!(create(&mut reg, 2, 20), Ok(4));
}

#[test]
fn only_creator_updates_status() {
    let mut reg = CampaignRegistry::new();
    let a = create(&mut reg, 1, 20).unwrap();
    assert_eq!(
        reg.update_campaign_status(&who(2), a, CampaignStatus::Cancelled),
        Err(RegistryError::NotCreator)
    );
    reg.update_campaign_status(&who(1), a, CampaignStatus::Funded).unwrap();
    assert_eq!(reg.get_campaign(a).unwrap().status, CampaignStatus::Funded);
    assert_eq!(
        reg.update_campaign_status(&who(1), 9, CampaignStatus::Funded),
        Err(RegistryError::CampaignNotFound)
    );
}

#[test]
fn ids_run_out() {
    let mut reg = CampaignRegistry::new();
    reg.counter = u64::MAX;
    assert_eq!(create(&mut reg, 1, 20), Err(RegistryError::IdSpaceExhausted));
}
