//! The registry: its state and the calls that read and change it.

use vstd::prelude::*;
use vstd::string::*;
use crate::metadata::{
    decode_metadata, entry_views, field_catalogue, metadata_catalogue, MetadataStructure,
};
use crate::ordered_map::{
    all_values, has_key, lemma_delete_all, lemma_key_place, lemma_put_all, listed, lookup, page,
    put, unique_keys, OrderedMap,
};
use crate::rules::{
    add_project_fault, after_add_guardian, after_add_project, after_revoke_guardian,
    after_update_project, after_vote, after_withdraw, any_claimed, claim_all, first_claimed,
    id_text, initial_state, is_first_claimed, lemma_claim_all, migrated, passed_over, privileged,
    receipt_of, release_all,
    sound_project, sound_proposal, state_wf, update_project_fault, voter_fault, votes_struck,
    withdraw_fault, without_vote, ContractView,
};
use crate::string_set::{lemma_with_member, lemma_without_member, without_member, StringSet};
use crate::text::{decimal_string, is_alphanumeric_text};
use crate::types::{
    pair_texts, CallContext, EProposalKind, OldContract, ProjectInfo, ProjectInfoView,
    ProposalEffect, ProposalInfo, VoteReceipt, WhitelistError, WhitelistErrorView, QUORUM,
    YOCTO_PER_NEAR,
};

verus! {

/// The registry's state.
#[derive(Debug)]
pub struct Contract {
    guardians: StringSet,
    contract_project_index: OrderedMap<String>,
    proposals: OrderedMap<ProposalInfo>,
    approved_projects: OrderedMap<ProjectInfo>,
    running_id: u32,
}

impl View for Contract {
    type V = ContractView;

    closed spec fn view(&self) -> ContractView {
        ContractView {
            guardians: self.guardians@,
            contract_project_index: self.contract_project_index@,
            proposals: self.proposals@,
            approved_projects: self.approved_projects@,
            running_id: self.running_id,
        }
    }
}

/// Calls `NearToken::from_near` and reads the amount back with
/// `NearToken::as_yoctonear`: a number of whole tokens in the smallest units,
/// which is the product with ten to the power 24. The product must fit.
#[verifier::external_body]
fn near_to_yocto(near: u128) -> (r: u128)
    requires
        near * YOCTO_PER_NEAR <= u128::MAX,
    ensures
        r == near * YOCTO_PER_NEAR,
{
    near_sdk::NearToken::from_near(near).as_yoctonear()
}

/// The payment that a proposal must bring: one whole token.
pub fn required_deposit() -> (r: u128)
    ensures
        r == YOCTO_PER_NEAR,
{
    near_to_yocto(1)
}

/// Whether the call comes from the registry's own account.
pub fn is_privileged(ctx: &CallContext) -> (r: bool)
    ensures
        r == privileged(ctx.predecessor@, ctx.current_account@),
{
    ctx.predecessor == ctx.current_account
}

impl Default for Contract {
    /// The registry before anything was stored.
    fn default() -> (r: Contract)
        ensures
            r.wf(),
            r@ == initial_state(),
    {
        Contract::new()
    }
}

fn strike_votes(proposals: &mut OrderedMap<ProposalInfo>, account: &String)
    requires
        old(proposals).wf(),
        all_values(old(proposals)@, sound_proposal()),
    ensures
        final(proposals).wf(),
        final(proposals)@ == votes_struck(old(proposals)@, account@),
        all_values(final(proposals)@, sound_proposal()),
{
    let ghost before = proposals@;
    let n: usize = proposals.len();
    let mut i: usize = 0;
    while i < n
        invariant
            proposals.wf(),
            proposals@.len() == n,
            before.len() == n,
            i <= n,
            all_values(before, sound_proposal()),
            forall|j: int| 0 <= j < i ==> proposals@[j] == votes_struck(before, account@)[j],
            forall|j: int| i <= j < n ==> proposals@[j] == before[j],
        decreases n - i,
    {
        let ghost current = proposals@;
        let (key, mut proposal) = proposals.remove_at(i);
        assert(sound_proposal()(before[i as int].1));
        proposal.votes.remove(account);
        proposals.insert_at(i, key, proposal);
        assert(proposals@ =~= current.update(i as int, (key@, proposal@)));
        assert(proposal@ == without_vote(before[i as int].1, account@));
        i += 1;
    }
    assert(proposals@ =~= votes_struck(before, account@));
    proof {
        assert forall|j: int| 0 <= j < n implies sound_proposal()(#[trigger] proposals@[j].1) by {
            assert(sound_proposal()(before[j].1));
            lemma_without_member(before[j].1.votes, account@);
        }
    }
}

fn claim_contracts(index: &mut OrderedMap<String>, contracts: &StringSet, project_id: &String) -> (r: Vec<
    (String, String),
>)
    requires
        old(index).wf(),
        contracts.wf(),
    ensures
        final(index).wf(),
        final(index)@ == claim_all(old(index)@, contracts@, project_id@),
        pair_texts(r@) == passed_over(old(index)@, contracts@),
{
    let ghost before = index@;
    let mut skipped: Vec<(String, String)> = Vec::new();
    let n: usize = contracts.len();
    let mut i: usize = 0;
    proof {
        index.lemma_wf();
        assert(contracts@.take(0).len() == 0);
        assert(pair_texts(skipped@) =~= passed_over(before, contracts@.take(0)));
    }
    while i < n
        invariant
            index.wf(),
            contracts.wf(),
            unique_keys(before),
            n == contracts@.len(),
            i <= n,
            index@ == claim_all(before, contracts@.take(i as int), project_id@),
            pair_texts(skipped@) == passed_over(before, contracts@.take(i as int)),
        decreases n - i,
    {
        let contract = contracts.get(i);
        proof {
            let done = contracts@.take(i as int);
            assert(contracts@.take(i + 1).drop_last() =~= done);
            assert(contracts@.take(i + 1).last() == contracts@[i as int]);
            lemma_claim_all(before, done, project_id@);
            if done.contains(contract@) {
                let j = choose|j: int| 0 <= j < done.len() && done[j] == contract@;
                assert(contracts@[j] == contracts@[i as int]);
            }
            assert(has_key(index@, contract@) <==> has_key(before, contract@));
        }
        match index.get(contract) {
            Some(owner) => {
                let ghost listed_before = skipped@;
                skipped.push((contract.clone(), owner.clone()));
                assert(pair_texts(skipped@) =~= pair_texts(listed_before).push((contract@, owner@)));
            },
            None => {
                index.insert(contract.clone(), project_id.clone());
            },
        }
        i += 1;
    }
    assert(contracts@.take(n as int) =~= contracts@);
    skipped
}

fn release_contracts(index: &mut OrderedMap<String>, contracts: &StringSet)
    requires
        old(index).wf(),
    ensures
        final(index).wf(),
        final(index)@ == release_all(old(index)@, contracts@),
{
    let ghost before = index@;
    let n: usize = contracts.len();
    let mut i: usize = 0;
    assert(contracts@.take(0).len() == 0);
    while i < n
        invariant
            index.wf(),
            n == contracts@.len(),
            i <= n,
            index@ == release_all(before, contracts@.take(i as int)),
        decreases n - i,
    {
        proof {
            assert(contracts@.take(i + 1).drop_last() =~= contracts@.take(i as int));
            assert(contracts@.take(i + 1).last() == contracts@[i as int]);
        }
        index.remove(contracts.get(i));
        i += 1;
    }
    assert(contracts@.take(n as int) =~= contracts@);
}

fn find_claimed(index: &OrderedMap<String>, contracts: &StringSet) -> (r: Option<usize>)
    requires
        index.wf(),
    ensures
        match r {
            Some(i) => is_first_claimed(index@, contracts@, i as int) && any_claimed(index@, contracts@)
                && first_claimed(index@, contracts@) == i,
            None => !any_claimed(index@, contracts@),
        },
{
    let n: usize = contracts.len();
    let mut i: usize = 0;
    while i < n
        invariant
            index.wf(),
            n == contracts@.len(),
            i <= n,
            forall|j: int| 0 <= j < i ==> !has_key(index@, #[trigger] contracts@[j]),
        decreases n - i,
    {
        if index.contains_key(contracts.get(i)) {
            proof {
                assert(is_first_claimed(index@, contracts@, i as int));
                let k = first_claimed(index@, contracts@);
                assert(is_first_claimed(index@, contracts@, k));
                if k < i {
                    assert(!has_key(index@, contracts@[k]));
                }
                if i < k {
                    assert(!has_key(index@, contracts@[i as int]));
                }
            }
            return Some(i);
        }
        i += 1;
    }
    None
}

fn carry_out_new(
    index: &mut OrderedMap<String>,
    projects: &mut OrderedMap<ProjectInfo>,
    proposed: ProjectInfo,
) -> (r: (ProposalEffect, Vec<(String, String)>))
    requires
        old(index).wf(),
        old(projects).wf(),
        all_values(old(projects)@, sound_project()),
        proposed.contract_ids.wf(),
    ensures
        final(index).wf(),
        final(projects).wf(),
        all_values(final(projects)@, sound_project()),
        has_key(old(projects)@, proposed@.project_id) ==> {
            &&& final(index)@ == old(index)@
            &&& final(projects)@ == old(projects)@
            &&& r.0 == ProposalEffect::ProjectIdOccupied
            &&& pair_texts(r.1@) == Seq::<(Seq<char>, Seq<char>)>::empty()
        },
        !has_key(old(projects)@, proposed@.project_id) ==> {
            &&& final(index)@ == claim_all(old(index)@, proposed@.contract_ids, proposed@.project_id)
            &&& final(projects)@ == put(
                old(projects)@,
                proposed@.project_id,
                ProjectInfoView { pending_proposals: Seq::empty(), ..proposed@ },
            )
            &&& r.0 == ProposalEffect::ProjectAdded
            &&& pair_texts(r.1@) == passed_over(old(index)@, proposed@.contract_ids)
        },
{
    if projects.contains_key(&proposed.project_id) {
        let none: Vec<(String, String)> = Vec::new();
        assert(pair_texts(none@) =~= Seq::<(Seq<char>, Seq<char>)>::empty());
        return (ProposalEffect::ProjectIdOccupied, none);
    }
    let skipped = claim_contracts(index, &proposed.contract_ids, &proposed.project_id);
    let key = proposed.project_id.clone();
    let project = ProjectInfo {
        contract_ids: proposed.contract_ids,
        metadata: proposed.metadata,
        pending_proposals: StringSet::new(),
        project_id: proposed.project_id,
    };
    proof {
        lemma_put_all(projects@, key@, project@, sound_project());
    }
    projects.insert(key, project);
    (ProposalEffect::ProjectAdded, skipped)
}

fn carry_out_update(
    index: &mut OrderedMap<String>,
    projects: &mut OrderedMap<ProjectInfo>,
    proposal_id: &String,
    target: Option<String>,
    proposed: ProjectInfo,
) -> (r: (ProposalEffect, Vec<(String, String)>))
    requires
        old(index).wf(),
        old(projects).wf(),
        all_values(old(projects)@, sound_project()),
        proposed.contract_ids.wf(),
    ensures
        final(index).wf(),
        final(projects).wf(),
        all_values(final(projects)@, sound_project()),
        match target {
            None => {
                &&& final(index)@ == old(index)@
                &&& final(projects)@ == old(projects)@
                &&& r.0 == ProposalEffect::TargetMissing
                &&& pair_texts(r.1@) == Seq::<(Seq<char>, Seq<char>)>::empty()
            },
            Some(t) => match lookup(old(projects)@, t@) {
                None => {
                    &&& final(index)@ == old(index)@
                    &&& final(projects)@ == old(projects)@
                    &&& r.0 == ProposalEffect::TargetNotFound
                    &&& pair_texts(r.1@) == Seq::<(Seq<char>, Seq<char>)>::empty()
                },
                Some(existing) => {
                    &&& final(index)@ == claim_all(
                        release_all(old(index)@, existing.contract_ids),
                        proposed@.contract_ids,
                        t@,
                    )
                    &&& final(projects)@ == put(
                        old(projects)@,
                        t@,
                        ProjectInfoView {
                            pending_proposals: without_member(existing.pending_proposals, proposal_id@),
                            ..proposed@
                        },
                    )
                    &&& r.0 == ProposalEffect::ProjectUpdated
                    &&& pair_texts(r.1@) == passed_over(
                        release_all(old(index)@, existing.contract_ids),
                        proposed@.contract_ids,
                    )
                },
            },
        },
{
    let none: Vec<(String, String)> = Vec::new();
    assert(pair_texts(none@) =~= Seq::<(Seq<char>, Seq<char>)>::empty());
    let t = match target {
        None => {
            return (ProposalEffect::TargetMissing, none);
        },
        Some(t) => t,
    };
    let i = match projects.position(&t) {
        None => {
            return (ProposalEffect::TargetNotFound, none);
        },
        Some(i) => i,
    };
    let ghost before = projects@;
    proof {
        projects.lemma_wf();
        lemma_key_place(before, i as int);
        assert(sound_project()(before[i as int].1));
        lemma_without_member(before[i as int].1.pending_proposals, proposal_id@);
    }
    let (key, existing) = projects.remove_at(i);
    release_contracts(index, &existing.contract_ids);
    let skipped = claim_contracts(index, &proposed.contract_ids, &t);
    let mut pending = existing.pending_proposals;
    pending.remove(proposal_id);
    let replaced = ProjectInfo {
        contract_ids: proposed.contract_ids,
        metadata: proposed.metadata,
        pending_proposals: pending,
        project_id: proposed.project_id,
    };
    proof {
        lemma_put_all(before, t@, replaced@, sound_project());
    }
    projects.insert_at(i, key, replaced);
    assert(projects@ =~= before.update(i as int, (t@, replaced@)));
    (ProposalEffect::ProjectUpdated, skipped)
}

impl Contract {
    /// The tables are well formed, and no guardian, vote or member is listed twice.
    pub closed spec fn wf(&self) -> bool {
        &&& self.guardians.wf()
        &&& self.contract_project_index.wf()
        &&& self.proposals.wf()
        &&& self.approved_projects.wf()
        &&& state_wf(self@)
    }

    /// A well-formed registry has a well-formed view.
    pub proof fn lemma_wf(&self)
        requires
            self.wf(),
        ensures
            state_wf(self@),
    {
    }

    /// Advances the counter and makes the identifier for the current block time.
    pub fn generate_id(block_timestamp: u64, last_running_id: u32) -> (r: (u32, String))
        requires
            last_running_id < u32::MAX,
        ensures
            r.0 == last_running_id + 1,
            r.1@ == id_text(block_timestamp, r.0),
    {
        let new_running_id: u32 = last_running_id + 1;
        let seconds: u64 = block_timestamp / 1_000_000_000;
        let mut id = decimal_string(seconds);
        let counter = decimal_string(new_running_id as u64);
        id.append(counter.as_str());
        (new_running_id, id)
    }

    /// The catalogue of metadata fields that clients can discover: five
    /// optional free-text fields in a fixed order.
    pub fn get_metadata_structure() -> (r: Vec<MetadataStructure>)
        ensures
            entry_views(r@) == metadata_catalogue(),
    {
        field_catalogue()
    }

    /// The registry before anything was stored: no guardians, empty tables, counter at zero.
    pub fn new() -> (r: Contract)
        ensures
            r.wf(),
            r@ == initial_state(),
    {
        let r = Contract {
            guardians: StringSet::new(),
            contract_project_index: OrderedMap::new(),
            proposals: OrderedMap::new(),
            approved_projects: OrderedMap::new(),
            running_id: 0,
        };
        proof {
            r.contract_project_index.lemma_wf();
            r.proposals.lemma_wf();
            r.approved_projects.lemma_wf();
        }
        r
    }

    /// Puts a registry together from its parts, as a host that stores them
    /// apart hands them over.
    pub fn from_parts(
        guardians: StringSet,
        contract_project_index: OrderedMap<String>,
        proposals: OrderedMap<ProposalInfo>,
        approved_projects: OrderedMap<ProjectInfo>,
        running_id: u32,
    ) -> (r: Contract)
        requires
            guardians.wf(),
            contract_project_index.wf(),
            proposals.wf(),
            approved_projects.wf(),
            all_values(proposals@, sound_proposal()),
            all_values(approved_projects@, sound_project()),
        ensures
            r.wf(),
            r@ == (ContractView {
                guardians: guardians@,
                contract_project_index: contract_project_index@,
                proposals: proposals@,
                approved_projects: approved_projects@,
                running_id,
            }),
    {
        proof {
            contract_project_index.lemma_wf();
            proposals.lemma_wf();
            approved_projects.lemma_wf();
        }
        Contract { guardians, contract_project_index, proposals, approved_projects, running_id }
    }

    /// Takes a registry apart: guardians, index, proposals, approved projects and counter.
    pub fn into_parts(self) -> (r: (
        StringSet,
        OrderedMap<String>,
        OrderedMap<ProposalInfo>,
        OrderedMap<ProjectInfo>,
        u32,
    ))
        requires
            self.wf(),
        ensures
            r.0.wf(),
            r.1.wf(),
            r.2.wf(),
            r.3.wf(),
            all_values(r.2@, sound_proposal()),
            all_values(r.3@, sound_project()),
            self@ == (ContractView {
                guardians: r.0@,
                contract_project_index: r.1@,
                proposals: r.2@,
                approved_projects: r.3@,
                running_id: r.4,
            }),
    {
        (
            self.guardians,
            self.contract_project_index,
            self.proposals,
            self.approved_projects,
            self.running_id,
        )
    }

    /// Builds the state in the current layout from one in the earlier layout:
    /// guardians and counter are kept, every proposal, project and index entry
    /// is dropped. Only the registry's own account may ask for it.
    pub fn migrate(ctx: &CallContext, old_state: OldContract) -> (r: Result<Contract, WhitelistError>)
        requires
            old_state.guardians.wf(),
        ensures
            match r {
                Ok(c) => privileged(ctx.predecessor@, ctx.current_account@) && c.wf() && c@ == migrated(
                    old_state.guardians@,
                    old_state.running_id,
                ),
                Err(e) => !privileged(ctx.predecessor@, ctx.current_account@) && e@
                    == WhitelistErrorView::Unauthorized,
            },
    {
        if !is_privileged(ctx) {
            return Err(WhitelistError::Unauthorized);
        }
        let r = Contract {
            guardians: old_state.guardians,
            contract_project_index: OrderedMap::new(),
            proposals: OrderedMap::new(),
            approved_projects: OrderedMap::new(),
            running_id: old_state.running_id,
        };
        proof {
            r.contract_project_index.lemma_wf();
            r.proposals.lemma_wf();
            r.approved_projects.lemma_wf();
        }
        Ok(r)
    }

    /// Makes `account_id` a guardian. Only the registry's own account may do so.
    pub fn add_guardian(&mut self, ctx: &CallContext, account_id: String) -> (r: Result<(), WhitelistError>)
        requires
            old(self).wf(),
        ensures
            final(self).wf(),
            match r {
                Ok(_) => privileged(ctx.predecessor@, ctx.current_account@) && final(self)@
                    == after_add_guardian(old(self)@, account_id@),
                Err(e) => !privileged(ctx.predecessor@, ctx.current_account@) && e@
                    == WhitelistErrorView::Unauthorized && *final(self) == *old(self),
            },
    {
        if !is_privileged(ctx) {
            return Err(WhitelistError::Unauthorized);
        }
        proof {
            lemma_with_member(self.guardians@, account_id@);
        }
        self.guardians.insert(account_id);
        Ok(())
    }

    /// Takes the guardianship from `account_id` and, where it was a guardian,
    /// its votes from every pending proposal. Only the registry's own account may do so.
    pub fn revoke_guardian(&mut self, ctx: &CallContext, account_id: String) -> (r: Result<
        (),
        WhitelistError,
    >)
        requires
            old(self).wf(),
        ensures
            final(self).wf(),
            match r {
                Ok(_) => privileged(ctx.predecessor@, ctx.current_account@) && final(self)@
                    == after_revoke_guardian(old(self)@, account_id@),
                Err(e) => !privileged(ctx.predecessor@, ctx.current_account@) && e@
                    == WhitelistErrorView::Unauthorized && *final(self) == *old(self),
            },
    {
        if !is_privileged(ctx) {
            return Err(WhitelistError::Unauthorized);
        }
        proof {
            lemma_without_member(self.guardians@, account_id@);
        }
        let removed = self.guardians.remove(&account_id);
        if removed {
            strike_votes(&mut self.proposals, &account_id);
            proof {
                self.proposals.lemma_wf();
            }
        }
        Ok(())
    }

    /// The guardians, in the order in which they were added.
    pub fn list_guardians(&self) -> (r: StringSet)
        requires
            self.wf(),
        ensures
            r.wf(),
            r@ == self@.guardians,
    {
        self.guardians.duplicate()
    }

    /// The running counter.
    pub fn running_id(&self) -> (r: u32)
        ensures
            r == self@.running_id,
    {
        self.running_id
    }

    /// Whether a contract account is on the whitelist: whether the index has it.
    pub fn check_contract_whitelisted(&self, contract_id: String) -> (r: bool)
        requires
            self.wf(),
        ensures
            r == has_key(self@.contract_project_index, contract_id@),
    {
        self.contract_project_index.contains_key(&contract_id)
    }

    /// One page of the approved projects, newest first.
    pub fn list_projects(&self, from_index: i32, limit: i32) -> (r: Vec<(&String, &ProjectInfo)>)
        requires
            self.wf(),
        ensures
            listed(r@) == page(self@.approved_projects, from_index, limit),
    {
        self.approved_projects.list(from_index, limit)
    }

    /// One page of the pending proposals, newest first.
    pub fn list_proposals(&self, from_index: i32, limit: i32) -> (r: Vec<(&String, &ProposalInfo)>)
        requires
            self.wf(),
        ensures
            listed(r@) == page(self@.proposals, from_index, limit),
    {
        self.proposals.list(from_index, limit)
    }

    /// One page of the index from contracts to projects, newest first.
    pub fn list_contracts(&self, from_index: i32, limit: i32) -> (r: Vec<(&String, &String)>)
        requires
            self.wf(),
        ensures
            listed(r@) == page(self@.contract_project_index, from_index, limit),
    {
        self.contract_project_index.list(from_index, limit)
    }

    /// The project that vouches for a contract account, if one does.
    pub fn get_project_id_by_contract_id(&self, contract_id: String) -> (r: Option<&String>)
        requires
            self.wf(),
        ensures
            match r {
                Some(id) => lookup(self@.contract_project_index, contract_id@) == Some(id@),
                None => lookup(self@.contract_project_index, contract_id@).is_none(),
            },
    {
        self.contract_project_index.get(&contract_id)
    }

    /// The approved project with the identifier, if there is one.
    pub fn get_project_by_id(&self, project_id: String) -> (r: Option<&ProjectInfo>)
        requires
            self.wf(),
        ensures
            match r {
                Some(p) => lookup(self@.approved_projects, project_id@) == Some(p@),
                None => lookup(self@.approved_projects, project_id@).is_none(),
            },
    {
        self.approved_projects.get(&project_id)
    }

    /// The pending proposal with the identifier, if there is one.
    pub fn get_proposal_by_id(&self, proposal_id: String) -> (r: Option<&ProposalInfo>)
        requires
            self.wf(),
        ensures
            match r {
                Some(p) => lookup(self@.proposals, proposal_id@) == Some(p@),
                None => lookup(self@.proposals, proposal_id@).is_none(),
            },
    {
        self.proposals.get(&proposal_id)
    }

    /// Stores a proposal for a new project and hands out its identifier. The
    /// call must bring exactly one whole token, which stays with the registry
    /// until the proposal is carried out.
    pub fn add_project(
        &mut self,
        ctx: &CallContext,
        contract_ids: StringSet,
        metadata: String,
        project_id: String,
    ) -> (r: Result<String, WhitelistError>)
        requires
            old(self).wf(),
            contract_ids.wf(),
        ensures
            final(self).wf(),
            match r {
                Ok(id) => {
                    &&& add_project_fault(
                        old(self)@,
                        ctx.attached_deposit,
                        ctx.block_timestamp,
                        contract_ids@,
                        metadata@,
                        project_id@,
                    ).is_none()
                    &&& id@ == id_text(ctx.block_timestamp, final(self)@.running_id)
                    &&& final(self)@ == after_add_project(
                        old(self)@,
                        ctx.predecessor@,
                        ctx.block_timestamp,
                        contract_ids@,
                        metadata@,
                        project_id@,
                    )
                },
                Err(e) => {
                    &&& add_project_fault(
                        old(self)@,
                        ctx.attached_deposit,
                        ctx.block_timestamp,
                        contract_ids@,
                        metadata@,
                        project_id@,
                    ) == Some(e@)
                    &&& *final(self) == *old(self)
                },
            },
    {
        if ctx.attached_deposit != required_deposit() {
            return Err(WhitelistError::InvalidDeposit);
        }
        if project_id.as_str().is_empty() {
            return Err(WhitelistError::EmptyProjectId);
        }
        if !is_alphanumeric_text(project_id.as_str()) {
            return Err(WhitelistError::ProjectIdNotAlphanumeric);
        }
        if self.approved_projects.contains_key(&project_id) {
            return Err(WhitelistError::ProjectIdOccupied);
        }
        if decode_metadata(metadata.as_str()).is_none() {
            return Err(WhitelistError::InvalidMetadata);
        }
        if self.running_id == u32::MAX {
            return Err(WhitelistError::CounterExhausted);
        }
        let (new_running_id, proposal_id) = Contract::generate_id(ctx.block_timestamp, self.running_id);
        if self.proposals.contains_key(&proposal_id) {
            return Err(WhitelistError::IdCollision);
        }
        match find_claimed(&self.contract_project_index, &contract_ids) {
            Some(i) => {
                let contract_id = contract_ids.get(i).clone();
                let owner = match self.contract_project_index.get(&contract_id) {
                    Some(owner) => owner.clone(),
                    None => String::new(),
                };
                return Err(WhitelistError::ContractClaimed { contract_id, project_id: owner });
            },
            None => {},
        }
        let proposal = ProposalInfo {
            project_info: ProjectInfo {
                contract_ids,
                metadata,
                pending_proposals: StringSet::new(),
                project_id,
            },
            kind: EProposalKind::NEW,
            project_id: None,
            votes: StringSet::new(),
            proposed_by: ctx.predecessor.clone(),
        };
        proof {
            lemma_put_all(self.proposals@, proposal_id@, proposal@, sound_proposal());
        }
        self.running_id = new_running_id;
        self.proposals.insert(proposal_id.clone(), proposal);
        proof {
            self.proposals.lemma_wf();
        }
        Ok(proposal_id)
    }

    /// Stores a proposal for a change to an approved project, lists it among
    /// the proposals that are pending for that project, and hands out its
    /// identifier. The call must bring exactly one whole token.
    pub fn update_project(
        &mut self,
        ctx: &CallContext,
        project_id: String,
        contract_ids: StringSet,
        metadata: String,
    ) -> (r: Result<String, WhitelistError>)
        requires
            old(self).wf(),
            contract_ids.wf(),
        ensures
            final(self).wf(),
            match r {
                Ok(id) => {
                    &&& update_project_fault(
                        old(self)@,
                        ctx.attached_deposit,
                        ctx.block_timestamp,
                        metadata@,
                        project_id@,
                    ).is_none()
                    &&& id@ == id_text(ctx.block_timestamp, final(self)@.running_id)
                    &&& final(self)@ == after_update_project(
                        old(self)@,
                        ctx.predecessor@,
                        ctx.block_timestamp,
                        contract_ids@,
                        metadata@,
                        project_id@,
                    )
                },
                Err(e) => {
                    &&& update_project_fault(
                        old(self)@,
                        ctx.attached_deposit,
                        ctx.block_timestamp,
                        metadata@,
                        project_id@,
                    ) == Some(e@)
                    &&& *final(self) == *old(self)
                },
            },
    {
        if ctx.attached_deposit != required_deposit() {
            return Err(WhitelistError::InvalidDeposit);
        }
        if decode_metadata(metadata.as_str()).is_none() {
            return Err(WhitelistError::InvalidMetadata);
        }
        let place = match self.approved_projects.position(&project_id) {
            None => {
                return Err(WhitelistError::ProjectNotFound);
            },
            Some(place) => place,
        };
        if self.running_id == u32::MAX {
            return Err(WhitelistError::CounterExhausted);
        }
        let (new_running_id, proposal_id) = Contract::generate_id(ctx.block_timestamp, self.running_id);
        if self.proposals.contains_key(&proposal_id) {
            return Err(WhitelistError::IdCollision);
        }
        let proposal = ProposalInfo {
            project_info: ProjectInfo {
                contract_ids,
                metadata,
                pending_proposals: StringSet::new(),
                project_id: project_id.clone(),
            },
            kind: EProposalKind::UPDATE,
            project_id: Some(project_id),
            votes: StringSet::new(),
            proposed_by: ctx.predecessor.clone(),
        };
        let ghost projects = self.approved_projects@;
        proof {
            lemma_put_all(self.proposals@, proposal_id@, proposal@, sound_proposal());
            lemma_key_place(projects, place as int);
            assert(sound_project()(projects[place as int].1));
            lemma_with_member(projects[place as int].1.pending_proposals, proposal_id@);
        }
        self.running_id = new_running_id;
        self.proposals.insert(proposal_id.clone(), proposal);
        let (key, mut project) = self.approved_projects.remove_at(place);
        project.pending_proposals.insert(proposal_id.clone());
        proof {
            lemma_put_all(projects, key@, project@, sound_project());
        }
        self.approved_projects.insert_at(place, key, project);
        assert(self.approved_projects@ =~= projects.update(place as int, (key@, project@)));
        proof {
            self.proposals.lemma_wf();
            self.approved_projects.lemma_wf();
        }
        Ok(proposal_id)
    }

    /// Records the caller's vote for a pending proposal. Only a guardian may
    /// vote. With the third distinct vote the proposal is carried out and
    /// leaves the table; the receipt then names the proposer, to whom the host
    /// hands the deposit back.
    pub fn vote_proposal(&mut self, ctx: &CallContext, proposal_id: String) -> (r: Result<
        VoteReceipt,
        WhitelistError,
    >)
        requires
            old(self).wf(),
        ensures
            final(self).wf(),
            match r {
                Ok(receipt) => {
                    &&& voter_fault(old(self)@, ctx.predecessor@, proposal_id@).is_none()
                    &&& final(self)@ == after_vote(old(self)@, ctx.predecessor@, proposal_id@)
                    &&& receipt@ == receipt_of(old(self)@, ctx.predecessor@, proposal_id@)
                },
                Err(e) => {
                    &&& voter_fault(old(self)@, ctx.predecessor@, proposal_id@) == Some(e@)
                    &&& *final(self) == *old(self)
                },
            },
    {
        if !self.guardians.contains(&ctx.predecessor) {
            return Err(WhitelistError::Unauthorized);
        }
        let place = match self.proposals.position(&proposal_id) {
            None => {
                return Err(WhitelistError::ProposalNotFound);
            },
            Some(place) => place,
        };
        let ghost proposals = self.proposals@;
        proof {
            lemma_key_place(proposals, place as int);
            assert(sound_proposal()(proposals[place as int].1));
            lemma_with_member(proposals[place as int].1.votes, ctx.predecessor@);
            lemma_delete_all(proposals, proposal_id@, sound_proposal());
        }
        let (key, mut proposal) = self.proposals.remove_at(place);
        proposal.votes.insert(ctx.predecessor.clone());
        if proposal.votes.len() >= QUORUM {
            let (effect, passed_over) = match proposal.kind {
                EProposalKind::NEW => carry_out_new(
                    &mut self.contract_project_index,
                    &mut self.approved_projects,
                    proposal.project_info,
                ),
                EProposalKind::UPDATE => carry_out_update(
                    &mut self.contract_project_index,
                    &mut self.approved_projects,
                    &proposal_id,
                    proposal.project_id,
                    proposal.project_info,
                ),
            };
            proof {
                self.proposals.lemma_wf();
                self.approved_projects.lemma_wf();
                self.contract_project_index.lemma_wf();
            }
            Ok(
                VoteReceipt {
                    refund_to: Some(proposal.proposed_by),
                    refund_amount: required_deposit(),
                    effect,
                    passed_over,
                },
            )
        } else {
            proof {
                lemma_put_all(proposals, key@, proposal@, sound_proposal());
            }
            self.proposals.insert_at(place, key, proposal);
            assert(self.proposals@ =~= proposals.update(place as int, (key@, proposal@)));
            proof {
                self.proposals.lemma_wf();
            }
            let passed_over: Vec<(String, String)> = Vec::new();
            assert(pair_texts(passed_over@) =~= Seq::<(Seq<char>, Seq<char>)>::empty());
            Ok(
                VoteReceipt {
                    refund_to: None,
                    refund_amount: 0,
                    effect: ProposalEffect::Pending,
                    passed_over,
                },
            )
        }
    }

    /// Takes the caller's vote back from a pending proposal. Only a guardian
    /// may do so, and only one who has voted for the proposal.
    pub fn withdraw_vote_on_proposal(&mut self, ctx: &CallContext, proposal_id: String) -> (r: Result<
        bool,
        WhitelistError,
    >)
        requires
            old(self).wf(),
        ensures
            final(self).wf(),
            match r {
                Ok(done) => {
                    &&& done
                    &&& withdraw_fault(old(self)@, ctx.predecessor@, proposal_id@).is_none()
                    &&& final(self)@ == after_withdraw(old(self)@, ctx.predecessor@, proposal_id@)
                },
                Err(e) => {
                    &&& withdraw_fault(old(self)@, ctx.predecessor@, proposal_id@) == Some(e@)
                    &&& *final(self) == *old(self)
                },
            },
    {
        if !self.guardians.contains(&ctx.predecessor) {
            return Err(WhitelistError::Unauthorized);
        }
        let place = match self.proposals.position(&proposal_id) {
            None => {
                return Err(WhitelistError::ProposalNotFound);
            },
            Some(place) => place,
        };
        let ghost proposals = self.proposals@;
        proof {
            lemma_key_place(proposals, place as int);
            assert(sound_proposal()(proposals[place as int].1));
            lemma_without_member(proposals[place as int].1.votes, ctx.predecessor@);
        }
        if !self.proposals.value_at(place).votes.contains(&ctx.predecessor) {
            return Err(WhitelistError::VoteNotFound);
        }
        let (key, mut proposal) = self.proposals.remove_at(place);
        proposal.votes.remove(&ctx.predecessor);
        proof {
            lemma_put_all(proposals, key@, proposal@, sound_proposal());
        }
        self.proposals.insert_at(place, key, proposal);
        assert(self.proposals@ =~= proposals.update(place as int, (key@, proposal@)));
        proof {
            self.proposals.lemma_wf();
        }
        Ok(true)
    }
}

} // verus!
