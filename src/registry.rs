use vstd::prelude::*;

use crate::principal::Principal;

verus! {

#[derive(PartialEq, Eq, Structural, Clone, Copy, Debug)]
pub enum CampaignStatus {
    Draft,
    Active,
    Funded,
    Completed,
    Cancelled,
}

pub struct CampaignMetadata {
    pub creator: Principal,
    pub title: String,
    pub description: String,
    pub funding_goal: u64,
    /// Percentage of revenue promised to backers, from 1 to 100.
    pub revenue_share_percentage: u8,
    pub oracle_endpoints: Vec<String>,
    pub vault_canister_id: Option<Principal>,
    pub created_at: u64,
    pub status: CampaignStatus,
}

#[derive(PartialEq, Eq, Structural, Clone, Copy, Debug)]
pub enum RegistryError {
    /// The revenue share is not between 1 and 100 percent.
    InvalidRevenueShare,
    /// No campaign id is left.
    IdSpaceExhausted,
    CampaignNotFound,
    NotCreator,
}

/// The campaigns, in order of creation, each with its id.
pub struct CampaignRegistry {
    pub campaigns: Vec<(u64, CampaignMetadata)>,
    /// The last id given out.
    pub counter: u64,
}

pub open spec fn ids_where(
    campaigns: Seq<(u64, CampaignMetadata)>,
    creator: Option<Seq<u8>>,
    status: Option<CampaignStatus>,
) -> Seq<u64>
    decreases campaigns.len(),
{
    if campaigns.len() == 0 {
        seq![]
    } else {
        let rest = ids_where(campaigns.drop_last(), creator, status);
        let (id, m) = campaigns.last();
        let by_creator = match creator {
            Some(c) => m.creator@ == c,
            None => true,
        };
        let by_status = match status {
            Some(s) => m.status == s,
            None => true,
        };
        if by_creator && by_status {
            rest.push(id)
        } else {
            rest
        }
    }
}

impl CampaignRegistry {
    /// Ids increase along the list and none exceeds the counter.
    pub open spec fn wf(&self) -> bool {
        &&& forall|i: int, j: int|
            0 <= i < j < self.campaigns@.len() ==> (#[trigger] self.campaigns@[i]).0 < (
            #[trigger] self.campaigns@[j]).0
        &&& forall|i: int|
            0 <= i < self.campaigns@.len() ==> (#[trigger] self.campaigns@[i]).0 <= self.counter
    }

    pub open spec fn has(&self, id: u64) -> bool {
        exists|i: int| 0 <= i < self.campaigns@.len() && (#[trigger] self.campaigns@[i]).0 == id
    }

    pub fn new() -> (r: CampaignRegistry)
        ensures
            r.wf(),
            r.campaigns@.len() == 0,
            r.counter == 0,
    {
        CampaignRegistry { campaigns: Vec::new(), counter: 0 }
    }

    fn position(&self, id: u64) -> (r: Option<usize>)
        ensures
            match r {
                Some(i) => i < self.campaigns@.len() && self.campaigns@[i as int].0 == id,
                None => !self.has(id),
            },
    {
        let mut i: usize = 0;
        while i < self.campaigns.len()
            invariant
                0 <= i <= self.campaigns@.len(),
                forall|j: int| 0 <= j < i ==> (#[trigger] self.campaigns@[j]).0 != id,
            decreases self.campaigns@.len() - i,
        {
            if self.campaigns[i].0 == id {
                return Some(i);
            }
            i = i + 1;
        }
        None
    }

    /// Records a draft campaign of `caller` and returns its id. The campaign
    /// becomes active once a vault has been set up for it (see
    /// `complete_creation`).
    pub fn create_campaign(
        &mut self,
        caller: &Principal,
        title: String,
        description: String,
        funding_goal: u64,
        revenue_share_percentage: u8,
        oracle_endpoints: Vec<String>,
        now: u64,
    ) -> (r: Result<u64, RegistryError>)
        requires
            old(self).wf(),
        ensures
            final(self).wf(),
            revenue_share_percentage == 0 || revenue_share_percentage > 100 ==> r == Err::<
                u64,
                RegistryError,
            >(RegistryError::InvalidRevenueShare) && *final(self) == *old(self),
            1 <= revenue_share_percentage <= 100 && old(self).counter == u64::MAX ==> r == Err::<
                u64,
                RegistryError,
            >(RegistryError::IdSpaceExhausted) && *final(self) == *old(self),
            1 <= revenue_share_percentage <= 100 && old(self).counter < u64::MAX ==> {
                let n = old(self).campaigns@.len();
                let id = (old(self).counter + 1) as u64;
                let m = final(self).campaigns@[n as int].1;
                &&& r == Ok::<u64, RegistryError>(id)
                &&& final(self).counter == id
                &&& final(self).campaigns@.len() == n + 1
                &&& final(self).campaigns@.subrange(0, n as int) == old(self).campaigns@
                &&& final(self).campaigns@[n as int].0 == id
                &&& m.creator@ == caller@
                &&& m.title == title
                &&& m.description == description
                &&& m.funding_goal == funding_goal
                &&& m.revenue_share_percentage == revenue_share_percentage
                &&& m.oracle_endpoints == oracle_endpoints
                &&& m.vault_canister_id is None
                &&& m.created_at == now
                &&& m.status == CampaignStatus::Draft
            },
    {
        if revenue_share_percentage == 0 || revenue_share_percentage > 100 {
            return Err(RegistryError::InvalidRevenueShare);
        }
        if self.counter == u64::MAX {
            return Err(RegistryError::IdSpaceExhausted);
        }
        let id = self.counter + 1;
        let ghost before = self.campaigns@;
        self.campaigns.push(
            (
                id,
                CampaignMetadata {
                    creator: caller.duplicate(),
                    title,
                    description,
                    funding_goal,
                    revenue_share_percentage,
                    oracle_endpoints,
                    vault_canister_id: None,
                    created_at: now,
                    status: CampaignStatus::Draft,
                },
            ),
        );
        self.counter = id;
        proof {
            assert(self.campaigns@.subrange(0, before.len() as int) =~= before);
            assert forall|i: int, j: int|
                0 <= i < j < self.campaigns@.len() implies (#[trigger] self.campaigns@[i]).0 < (
            #[trigger] self.campaigns@[j]).0 by {
                assert(self.campaigns@[i] == before[i]);
                if j < before.len() {
                    assert(self.campaigns@[j] == before[j]);
                }
            }
            assert forall|i: int| 0 <= i < self.campaigns@.len() implies (
            #[trigger] self.campaigns@[i]).0 <= self.counter by {
                if i < before.len() {
                    assert(self.campaigns@[i] == before[i]);
                }
            }
        }
        Ok(id)
    }

    /// Records how setting up the vault of draft campaign `id` went: with the
    /// vault's id the campaign becomes active, without one it is removed.
    pub fn complete_creation(&mut self, id: u64, vault: Option<Principal>) -> (r: Result<
        (),
        RegistryError,
    >)
        requires
            old(self).wf(),
        ensures
            final(self).wf(),
            !old(self).has(id) ==> r == Err::<(), RegistryError>(RegistryError::CampaignNotFound)
                && *final(self) == *old(self),
            old(self).has(id) ==> r == Ok::<(), RegistryError>(()) && final(self).counter == old(
                self,
            ).counter && exists|i: int|
                0 <= i < old(self).campaigns@.len() && (#[trigger] old(self).campaigns@[i]).0 == id
                    && if vault is Some {
                    final(self).campaigns@ == old(self).campaigns@.update(
                        i,
                        (
                            id,
                            (CampaignMetadata {
                                vault_canister_id: vault,
                                status: CampaignStatus::Active,
                                ..old(self).campaigns@[i].1
                            }),
                        ),
                    )
                } else {
                    final(self).campaigns@ == old(self).campaigns@.remove(i)
                },
    {
        let i = match self.position(id) {
            None => return Err(RegistryError::CampaignNotFound),
            Some(i) => i,
        };
        let ghost before = self.campaigns@;
        if vault.is_some() {
            let entry = &mut self.campaigns[i];
            entry.1.vault_canister_id = vault;
            entry.1.status = CampaignStatus::Active;
        } else {
            self.campaigns.remove(i);
            proof {
                assert forall|a: int, b: int|
                    0 <= a < b < self.campaigns@.len() implies (#[trigger] self.campaigns@[a]).0 < (
                #[trigger] self.campaigns@[b]).0 by {
                    let a0 = if a < i { a } else { a + 1 };
                    let b0 = if b < i { b } else { b + 1 };
                    assert(self.campaigns@[a] == before[a0]);
                    assert(self.campaigns@[b] == before[b0]);
                }
                assert forall|a: int| 0 <= a < self.campaigns@.len() implies (
                #[trigger] self.campaigns@[a]).0 <= self.counter by {
                    let a0 = if a < i { a } else { a + 1 };
                    assert(self.campaigns@[a] == before[a0]);
                }
            }
        }
        assert(before[i as int].0 == id);
        Ok(())
    }

    /// The creator of campaign `id` sets its status.
    pub fn update_campaign_status(&mut self, caller: &Principal, id: u64, status: CampaignStatus) -> (r:
        Result<(), RegistryError>)
        requires
            old(self).wf(),
        ensures
            final(self).wf(),
            !old(self).has(id) ==> r == Err::<(), RegistryError>(RegistryError::CampaignNotFound)
                && *final(self) == *old(self),
            old(self).has(id) ==> exists|i: int|
                0 <= i < old(self).campaigns@.len() && (#[trigger] old(self).campaigns@[i]).0 == id
                    && if old(self).campaigns@[i].1.creator@ == caller@ {
                    r == Ok::<(), RegistryError>(()) && final(self).counter == old(self).counter
                        && final(self).campaigns@ == old(self).campaigns@.update(
                        i,
                        (id, (CampaignMetadata { status, ..old(self).campaigns@[i].1 })),
                    )
                } else {
                    r == Err::<(), RegistryError>(RegistryError::NotCreator) && *final(self)
                        == *old(self)
                },
    {
        let i = match self.position(id) {
            None => return Err(RegistryError::CampaignNotFound),
            Some(i) => i,
        };
        if !self.campaigns[i].1.creator.same(caller) {
            return Err(RegistryError::NotCreator);
        }
        let entry = &mut self.campaigns[i];
        entry.1.status = status;
        Ok(())
    }

    /// Campaign `id`, if there is one.
    pub fn get_campaign(&self, id: u64) -> (r: Option<&CampaignMetadata>)
        ensures
            match r {
                Some(m) => exists|i: int|
                    0 <= i < self.campaigns@.len() && (#[trigger] self.campaigns@[i]).0 == id && *m
                        == self.campaigns@[i].1,
                None => !self.has(id),
            },
    {
        match self.position(id) {
            None => None,
            Some(i) => Some(&self.campaigns[i].1),
        }
    }

    fn ids_matching(&self, creator: Option<&Principal>, status: Option<CampaignStatus>) -> (r: Vec<
        u64,
    >)
        ensures
            r@ == ids_where(
                self.campaigns@,
                match creator {
                    Some(c) => Some(c@),
                    None => None,
                },
                status,
            ),
    {
        let ghost who = match creator {
            Some(c) => Some(c@),
            None => None,
        };
        let mut r: Vec<u64> = Vec::new();
        let mut i: usize = 0;
        while i < self.campaigns.len()
            invariant
                0 <= i <= self.campaigns@.len(),
                who == match creator {
                    Some(c) => Some(c@),
                    None => None::<Seq<u8>>,
                },
                r@ == ids_where(self.campaigns@.subrange(0, i as int), who, status),
            decreases self.campaigns@.len() - i,
        {
            proof {
                assert(self.campaigns@.subrange(0, i + 1).drop_last() =~= self.campaigns@.subrange(
                    0,
                    i as int,
                ));
            }
            let by_creator = match creator {
                Some(c) => self.campaigns[i].1.creator.same(c),
                None => true,
            };
            let by_status = match status {
                Some(s) => self.campaigns[i].1.status == s,
                None => true,
            };
            if by_creator && by_status {
                r.push(self.campaigns[i].0);
            }
            i = i + 1;
        }
        proof {
            assert(self.campaigns@.subrange(0, i as int) =~= self.campaigns@);
        }
        r
    }

    /// Ids of the campaigns of `creator`, oldest first.
    pub fn get_campaigns_by_creator(&self, creator: &Principal) -> (r: Vec<u64>)
        ensures
            r@ == ids_where(self.campaigns@, Some(creator@), None),
    {
        self.ids_matching(Some(creator), None)
    }

    /// Ids of all campaigns, oldest first.
    pub fn get_all_campaigns(&self) -> (r: Vec<u64>)
        ensures
            r@ == ids_where(self.campaigns@, None, None),
    {
        self.ids_matching(None, None)
    }

    /// Ids of the active campaigns, oldest first.
    pub fn get_active_campaigns(&self) -> (r: Vec<u64>)
        ensures
            r@ == ids_where(self.campaigns@, None, Some(CampaignStatus::Active)),
    {
        self.ids_matching(None, Some(CampaignStatus::Active))
    }
}

} // verus!
