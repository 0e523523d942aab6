//! The registry's rules, stated over plain values: what each call answers and
//! which state it leaves behind.

use vstd::prelude::*;
use crate::metadata::metadata_decodes;
use crate::ordered_map::{
    all_values, delete, has_key, lemma_delete, lemma_put, lookup, put, unique_keys,
};
use crate::string_set::{with_member, without_member};
use crate::text::{all_alphanumeric, decimal_digits};
use crate::types::{
    project_wf, proposal_wf, EProposalKind, ProjectInfoView, ProposalEffect, ProposalInfoView,
    VoteReceiptView, WhitelistErrorView, QUORUM, YOCTO_PER_NEAR,
};

verus! {

/// The index from contract accounts to the projects that vouch for them.
pub type IndexView = Seq<(Seq<char>, Seq<char>)>;

/// The registry's state as plain values. Each table lists its entries oldest first.
pub ghost struct ContractView {
    pub guardians: Seq<Seq<char>>,
    pub contract_project_index: IndexView,
    pub proposals: Seq<(Seq<char>, ProposalInfoView)>,
    pub approved_projects: Seq<(Seq<char>, ProjectInfoView)>,
    pub running_id: u32,
}

/// The property that every stored proposal has.
pub open spec fn sound_proposal() -> spec_fn(ProposalInfoView) -> bool {
    |p: ProposalInfoView| proposal_wf(p)
}

/// The property that every stored project has.
pub open spec fn sound_project() -> spec_fn(ProjectInfoView) -> bool {
    |p: ProjectInfoView| project_wf(p)
}

/// No guardian, key, vote or member is listed twice anywhere in the state.
pub open spec fn state_wf(s: ContractView) -> bool {
    &&& s.guardians.no_duplicates()
    &&& unique_keys(s.contract_project_index)
    &&& unique_keys(s.proposals)
    &&& unique_keys(s.approved_projects)
    &&& all_values(s.proposals, sound_proposal())
    &&& all_values(s.approved_projects, sound_project())
}

/// The state before anything was stored.
pub open spec fn initial_state() -> ContractView {
    ContractView {
        guardians: Seq::empty(),
        contract_project_index: Seq::empty(),
        proposals: Seq::empty(),
        approved_projects: Seq::empty(),
        running_id: 0,
    }
}

/// The state that a migration leaves: guardians and counter stay, the tables are empty.
pub open spec fn migrated(guardians: Seq<Seq<char>>, running_id: u32) -> ContractView {
    ContractView { guardians, running_id, ..initial_state() }
}

/// The whole seconds of a block time given in nanoseconds.
pub open spec fn block_seconds(block_timestamp: u64) -> nat {
    (block_timestamp / 1_000_000_000) as nat
}

/// The identifier made at a block time with a counter value: the seconds and the
/// counter in decimal, one directly after the other.
pub open spec fn id_text(block_timestamp: u64, counter: u32) -> Seq<char> {
    decimal_digits(block_seconds(block_timestamp)) + decimal_digits(counter as nat)
}

/// `index` with `contract` pointing at `project`, unless the contract is claimed already.
pub open spec fn claim(index: IndexView, contract: Seq<char>, project: Seq<char>) -> IndexView {
    if has_key(index, contract) {
        index
    } else {
        put(index, contract, project)
    }
}

/// `index` after `project` claimed each of `contracts` in turn.
pub open spec fn claim_all(index: IndexView, contracts: Seq<Seq<char>>, project: Seq<char>) -> IndexView
    decreases contracts.len(),
{
    if contracts.len() == 0 {
        index
    } else {
        claim(claim_all(index, contracts.drop_last(), project), contracts.last(), project)
    }
}

/// `index` without any of `contracts`.
pub open spec fn release_all(index: IndexView, contracts: Seq<Seq<char>>) -> IndexView
    decreases contracts.len(),
{
    if contracts.len() == 0 {
        index
    } else {
        delete(release_all(index, contracts.drop_last()), contracts.last())
    }
}

/// The contracts of `contracts` that `index` holds already, each with the
/// project that has it, in the order of `contracts`: a project that claims
/// `contracts` passes these over.
pub open spec fn passed_over(index: IndexView, contracts: Seq<Seq<char>>) -> Seq<(Seq<char>, Seq<char>)>
    decreases contracts.len(),
{
    if contracts.len() == 0 {
        Seq::empty()
    } else {
        let rest = passed_over(index, contracts.drop_last());
        match lookup(index, contracts.last()) {
            Some(owner) => rest.push((contracts.last(), owner)),
            None => rest,
        }
    }
}

/// Claiming contracts keeps the index's keys unique, and afterwards exactly
/// the contracts that were claimed before or are among those named are claimed.
pub proof fn lemma_claim_all(index: IndexView, contracts: Seq<Seq<char>>, project: Seq<char>)
    requires
        unique_keys(index),
    ensures
        unique_keys(claim_all(index, contracts, project)),
        forall|c: Seq<char>| #[trigger]
            has_key(claim_all(index, contracts, project), c) <==> (has_key(index, c)
                || contracts.contains(c)),
        forall|c: Seq<char>| has_key(index, c) ==> #[trigger] lookup(claim_all(index, contracts, project), c)
            == lookup(index, c),
    decreases contracts.len(),
{
    if contracts.len() > 0 {
        let rest = contracts.drop_last();
        let last = contracts.last();
        lemma_claim_all(index, rest, project);
        let mid = claim_all(index, rest, project);
        lemma_put(mid, last, project);
        let end = claim_all(index, contracts, project);
        assert(end == claim(mid, last, project));
        assert forall|c: Seq<char>| #[trigger] has_key(end, c) <==> (has_key(index, c) || contracts.contains(c)) by {
            if contracts.contains(c) {
                let i = choose|i: int| 0 <= i < contracts.len() && contracts[i] == c;
                if i < rest.len() {
                    assert(rest[i] == c);
                }
            }
            if rest.contains(c) {
                let i = choose|i: int| 0 <= i < rest.len() && rest[i] == c;
                assert(contracts[i] == c);
            }
            assert(contracts[contracts.len() - 1] == last);
        }
        assert forall|c: Seq<char>| has_key(index, c) implies #[trigger] lookup(end, c) == lookup(index, c) by {
            assert(has_key(mid, c));
            assert(lookup(mid, c) == lookup(index, c));
        }
    }
}

/// Releasing contracts keeps the index's keys unique, and afterwards exactly
/// the contracts that were claimed before and are not among those named are claimed.
pub proof fn lemma_release_all(index: IndexView, contracts: Seq<Seq<char>>)
    requires
        unique_keys(index),
    ensures
        unique_keys(release_all(index, contracts)),
        forall|c: Seq<char>| #[trigger]
            has_key(release_all(index, contracts), c) <==> (has_key(index, c) && !contracts.contains(c)),
    decreases contracts.len(),
{
    if contracts.len() > 0 {
        let rest = contracts.drop_last();
        let last = contracts.last();
        lemma_release_all(index, rest);
        let mid = release_all(index, rest);
        lemma_delete(mid, last);
        let end = release_all(index, contracts);
        assert forall|c: Seq<char>| #[trigger] has_key(end, c) <==> (has_key(index, c) && !contracts.contains(c)) by {
            if contracts.contains(c) {
                let i = choose|i: int| 0 <= i < contracts.len() && contracts[i] == c;
                if i < rest.len() {
                    assert(rest[i] == c);
                }
            }
            if rest.contains(c) {
                let i = choose|i: int| 0 <= i < rest.len() && rest[i] == c;
                assert(contracts[i] == c);
            }
            assert(contracts[contracts.len() - 1] == last);
        }
    }
}

/// `contracts[i]` is claimed in `index` and none before it is.
pub open spec fn is_first_claimed(index: IndexView, contracts: Seq<Seq<char>>, i: int) -> bool {
    &&& 0 <= i < contracts.len()
    &&& has_key(index, contracts[i])
    &&& forall|j: int| 0 <= j < i ==> !has_key(index, #[trigger] contracts[j])
}

/// Some contract of `contracts` is claimed in `index`.
pub open spec fn any_claimed(index: IndexView, contracts: Seq<Seq<char>>) -> bool {
    exists|i: int| 0 <= i < contracts.len() && has_key(index, #[trigger] contracts[i])
}

/// The place of the first contract of `contracts` that is claimed in `index`.
pub open spec fn first_claimed(index: IndexView, contracts: Seq<Seq<char>>) -> int {
    choose|i: int| is_first_claimed(index, contracts, i)
}

/// Only the registry's own account may make a privileged call.
pub open spec fn privileged(caller: Seq<char>, current_account: Seq<char>) -> bool {
    caller == current_account
}

/// The state after `account` was made a guardian.
pub open spec fn after_add_guardian(s: ContractView, account: Seq<char>) -> ContractView {
    ContractView { guardians: with_member(s.guardians, account), ..s }
}

/// A proposal without the vote of `account`.
pub open spec fn without_vote(p: ProposalInfoView, account: Seq<char>) -> ProposalInfoView {
    ProposalInfoView { votes: without_member(p.votes, account), ..p }
}

/// A proposal with the vote of `account`.
pub open spec fn with_vote(p: ProposalInfoView, account: Seq<char>) -> ProposalInfoView {
    ProposalInfoView { votes: with_member(p.votes, account), ..p }
}

/// The proposals after the votes of `account` were struck from each of them.
pub open spec fn votes_struck(
    proposals: Seq<(Seq<char>, ProposalInfoView)>,
    account: Seq<char>,
) -> Seq<(Seq<char>, ProposalInfoView)> {
    Seq::new(proposals.len(), |i: int| (proposals[i].0, without_vote(proposals[i].1, account)))
}

/// The state after `account` lost its guardianship: where it was a guardian, its
/// votes on all pending proposals go with it.
pub open spec fn after_revoke_guardian(s: ContractView, account: Seq<char>) -> ContractView {
    if s.guardians.contains(account) {
        ContractView {
            guardians: without_member(s.guardians, account),
            proposals: votes_struck(s.proposals, account),
            ..s
        }
    } else {
        s
    }
}

/// The proposal that a submission for a new project stores.
pub open spec fn new_project_proposal(
    caller: Seq<char>,
    contract_ids: Seq<Seq<char>>,
    metadata: Seq<char>,
    project_id: Seq<char>,
) -> ProposalInfoView {
    ProposalInfoView {
        project_info: ProjectInfoView {
            contract_ids,
            metadata,
            pending_proposals: Seq::empty(),
            project_id,
        },
        kind: EProposalKind::NEW,
        project_id: None,
        votes: Seq::empty(),
        proposed_by: caller,
    }
}

/// The proposal that a submission for a change to the project `project_id` stores.
pub open spec fn update_project_proposal(
    caller: Seq<char>,
    contract_ids: Seq<Seq<char>>,
    metadata: Seq<char>,
    project_id: Seq<char>,
) -> ProposalInfoView {
    ProposalInfoView {
        project_info: ProjectInfoView {
            contract_ids,
            metadata,
            pending_proposals: Seq::empty(),
            project_id,
        },
        kind: EProposalKind::UPDATE,
        project_id: Some(project_id),
        votes: Seq::empty(),
        proposed_by: caller,
    }
}

/// Why a proposal for a new project is turned down, if it is. The tests are made
/// in this order, and the first that fails decides.
pub open spec fn add_project_fault(
    s: ContractView,
    deposit: u128,
    block_timestamp: u64,
    contract_ids: Seq<Seq<char>>,
    metadata: Seq<char>,
    project_id: Seq<char>,
) -> Option<WhitelistErrorView> {
    if deposit != YOCTO_PER_NEAR {
        Some(WhitelistErrorView::InvalidDeposit)
    } else if project_id.len() == 0 {
        Some(WhitelistErrorView::EmptyProjectId)
    } else if !all_alphanumeric(project_id) {
        Some(WhitelistErrorView::ProjectIdNotAlphanumeric)
    } else if has_key(s.approved_projects, project_id) {
        Some(WhitelistErrorView::ProjectIdOccupied)
    } else if !metadata_decodes(metadata) {
        Some(WhitelistErrorView::InvalidMetadata)
    } else if s.running_id == u32::MAX {
        Some(WhitelistErrorView::CounterExhausted)
    } else if has_key(s.proposals, id_text(block_timestamp, (s.running_id + 1) as u32)) {
        Some(WhitelistErrorView::IdCollision)
    } else if any_claimed(s.contract_project_index, contract_ids) {
        let contract_id = contract_ids[first_claimed(s.contract_project_index, contract_ids)];
        Some(
            WhitelistErrorView::ContractClaimed {
                contract_id,
                project_id: lookup(s.contract_project_index, contract_id).unwrap(),
            },
        )
    } else {
        None
    }
}

/// The state after a proposal for a new project was stored.
pub open spec fn after_add_project(
    s: ContractView,
    caller: Seq<char>,
    block_timestamp: u64,
    contract_ids: Seq<Seq<char>>,
    metadata: Seq<char>,
    project_id: Seq<char>,
) -> ContractView {
    let counter = (s.running_id + 1) as u32;
    ContractView {
        proposals: put(
            s.proposals,
            id_text(block_timestamp, counter),
            new_project_proposal(caller, contract_ids, metadata, project_id),
        ),
        running_id: counter,
        ..s
    }
}

/// Why a proposal for a change to a project is turned down, if it is.
pub open spec fn update_project_fault(
    s: ContractView,
    deposit: u128,
    block_timestamp: u64,
    metadata: Seq<char>,
    project_id: Seq<char>,
) -> Option<WhitelistErrorView> {
    if deposit != YOCTO_PER_NEAR {
        Some(WhitelistErrorView::InvalidDeposit)
    } else if !metadata_decodes(metadata) {
        Some(WhitelistErrorView::InvalidMetadata)
    } else if !has_key(s.approved_projects, project_id) {
        Some(WhitelistErrorView::ProjectNotFound)
    } else if s.running_id == u32::MAX {
        Some(WhitelistErrorView::CounterExhausted)
    } else if has_key(s.proposals, id_text(block_timestamp, (s.running_id + 1) as u32)) {
        Some(WhitelistErrorView::IdCollision)
    } else {
        None
    }
}

/// A project with one more pending proposal.
pub open spec fn with_pending(p: ProjectInfoView, proposal_id: Seq<char>) -> ProjectInfoView {
    ProjectInfoView { pending_proposals: with_member(p.pending_proposals, proposal_id), ..p }
}

/// The state after a proposal for a change to `project_id` was stored: the
/// project lists the proposal among those that are pending for it.
pub open spec fn after_update_project(
    s: ContractView,
    caller: Seq<char>,
    block_timestamp: u64,
    contract_ids: Seq<Seq<char>>,
    metadata: Seq<char>,
    project_id: Seq<char>,
) -> ContractView {
    let counter = (s.running_id + 1) as u32;
    let id = id_text(block_timestamp, counter);
    ContractView {
        proposals: put(
            s.proposals,
            id,
            update_project_proposal(caller, contract_ids, metadata, project_id),
        ),
        approved_projects: put(
            s.approved_projects,
            project_id,
            with_pending(lookup(s.approved_projects, project_id).unwrap(), id),
        ),
        running_id: counter,
        ..s
    }
}

/// Why a vote, or the withdrawal of one, is not even looked at.
pub open spec fn voter_fault(s: ContractView, caller: Seq<char>, proposal_id: Seq<char>) -> Option<
    WhitelistErrorView,
> {
    if !s.guardians.contains(caller) {
        Some(WhitelistErrorView::Unauthorized)
    } else if !has_key(s.proposals, proposal_id) {
        Some(WhitelistErrorView::ProposalNotFound)
    } else {
        None
    }
}

/// The project that a proposal puts in force, before any pending proposals are
/// carried over to it.
pub open spec fn proposed_project(p: ProposalInfoView) -> ProjectInfoView {
    ProjectInfoView { pending_proposals: Seq::empty(), ..p.project_info }
}

/// What carrying out a proposal for a new project does to the state.
pub open spec fn apply_new(s: ContractView, p: ProposalInfoView) -> ContractView {
    let id = p.project_info.project_id;
    if has_key(s.approved_projects, id) {
        s
    } else {
        ContractView {
            contract_project_index: claim_all(
                s.contract_project_index,
                p.project_info.contract_ids,
                id,
            ),
            approved_projects: put(s.approved_projects, id, proposed_project(p)),
            ..s
        }
    }
}

/// What carrying out the proposal `proposal_id` for a change does to the state.
pub open spec fn apply_update(s: ContractView, proposal_id: Seq<char>, p: ProposalInfoView) -> ContractView {
    match p.project_id {
        None => s,
        Some(target) => match lookup(s.approved_projects, target) {
            None => s,
            Some(existing) => ContractView {
                contract_project_index: claim_all(
                    release_all(s.contract_project_index, existing.contract_ids),
                    p.project_info.contract_ids,
                    target,
                ),
                approved_projects: put(
                    s.approved_projects,
                    target,
                    ProjectInfoView {
                        pending_proposals: without_member(existing.pending_proposals, proposal_id),
                        ..p.project_info
                    },
                ),
                ..s
            },
        },
    }
}

/// What carrying out a proposal does to the state, the proposal table apart.
pub open spec fn apply(s: ContractView, proposal_id: Seq<char>, p: ProposalInfoView) -> ContractView {
    match p.kind {
        EProposalKind::NEW => apply_new(s, p),
        EProposalKind::UPDATE => apply_update(s, proposal_id, p),
    }
}

/// The contracts that carrying out a proposal passes over because another
/// project has them.
pub open spec fn passed_over_by(s: ContractView, p: ProposalInfoView) -> Seq<(Seq<char>, Seq<char>)> {
    match p.kind {
        EProposalKind::NEW => if has_key(s.approved_projects, p.project_info.project_id) {
            Seq::empty()
        } else {
            passed_over(s.contract_project_index, p.project_info.contract_ids)
        },
        EProposalKind::UPDATE => match p.project_id {
            None => Seq::empty(),
            Some(target) => match lookup(s.approved_projects, target) {
                None => Seq::empty(),
                Some(existing) => passed_over(
                    release_all(s.contract_project_index, existing.contract_ids),
                    p.project_info.contract_ids,
                ),
            },
        },
    }
}

/// What carrying out a proposal reports.
pub open spec fn effect_of(s: ContractView, p: ProposalInfoView) -> ProposalEffect {
    match p.kind {
        EProposalKind::NEW => if has_key(s.approved_projects, p.project_info.project_id) {
            ProposalEffect::ProjectIdOccupied
        } else {
            ProposalEffect::ProjectAdded
        },
        EProposalKind::UPDATE => match p.project_id {
            None => ProposalEffect::TargetMissing,
            Some(target) => if has_key(s.approved_projects, target) {
                ProposalEffect::ProjectUpdated
            } else {
                ProposalEffect::TargetNotFound
            },
        },
    }
}

/// Whether the vote of `caller` brings the proposal to the quorum.
pub open spec fn reaches_quorum(s: ContractView, caller: Seq<char>, proposal_id: Seq<char>) -> bool {
    with_member(lookup(s.proposals, proposal_id).unwrap().votes, caller).len() >= QUORUM
}

/// The state after the guardian `caller` voted for the pending proposal
/// `proposal_id`: the vote is recorded, and at the quorum the proposal is
/// carried out and leaves the table.
pub open spec fn after_vote(s: ContractView, caller: Seq<char>, proposal_id: Seq<char>) -> ContractView {
    let voted = with_vote(lookup(s.proposals, proposal_id).unwrap(), caller);
    if reaches_quorum(s, caller, proposal_id) {
        ContractView { proposals: delete(s.proposals, proposal_id), ..apply(s, proposal_id, voted) }
    } else {
        ContractView { proposals: put(s.proposals, proposal_id, voted), ..s }
    }
}

/// What the vote of the guardian `caller` for the pending proposal reports.
pub open spec fn receipt_of(s: ContractView, caller: Seq<char>, proposal_id: Seq<char>) -> VoteReceiptView {
    let voted = with_vote(lookup(s.proposals, proposal_id).unwrap(), caller);
    if reaches_quorum(s, caller, proposal_id) {
        VoteReceiptView {
            refund_to: Some(voted.proposed_by),
            refund_amount: YOCTO_PER_NEAR,
            effect: effect_of(s, voted),
            passed_over: passed_over_by(s, voted),
        }
    } else {
        VoteReceiptView {
            refund_to: None,
            refund_amount: 0,
            effect: ProposalEffect::Pending,
            passed_over: Seq::empty(),
        }
    }
}

/// Why a vote is not withdrawn, if it is not.
pub open spec fn withdraw_fault(s: ContractView, caller: Seq<char>, proposal_id: Seq<char>) -> Option<
    WhitelistErrorView,
> {
    if voter_fault(s, caller, proposal_id).is_some() {
        voter_fault(s, caller, proposal_id)
    } else if !lookup(s.proposals, proposal_id).unwrap().votes.contains(caller) {
        Some(WhitelistErrorView::VoteNotFound)
    } else {
        None
    }
}

/// The state after the guardian `caller` withdrew the vote for `proposal_id`.
pub open spec fn after_withdraw(s: ContractView, caller: Seq<char>, proposal_id: Seq<char>) -> ContractView {
    ContractView {
        proposals: put(
            s.proposals,
            proposal_id,
            without_vote(lookup(s.proposals, proposal_id).unwrap(), caller),
        ),
        ..s
    }
}

} // verus!
