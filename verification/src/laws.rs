//! Laws of the registry: what follows from its rules for every state and input.

use vstd::prelude::*;
use crate::ordered_map::{
    delete, has_key, keys_of, lemma_delete, lemma_place_of_key, lemma_put, lookup, page, put,
    unique_keys,
};
use crate::rules::{
    add_project_fault, after_add_project, after_revoke_guardian, after_update_project,
    after_vote, after_withdraw, any_claimed, apply_update, block_seconds, claim, claim_all,
    first_claimed, id_text, is_first_claimed, lemma_claim_all, lemma_release_all, migrated,
    proposed_project, reaches_quorum,
    receipt_of, release_all, sound_proposal, state_wf, update_project_fault, voter_fault,
    with_vote, withdraw_fault, without_vote, ContractView, IndexView,
};
use crate::string_set::{lemma_with_member, lemma_without_member, without_member};
use crate::metadata::metadata_decodes;
use crate::text::{
    all_alphanumeric, decimal_digits, lemma_decimal_injective, lemma_decimal_nonempty,
};
use crate::ordered_map::key_place;
use crate::types::{
    EProposalKind, ProjectInfoView, ProposalInfoView, WhitelistErrorView, YOCTO_PER_NEAR,
};

verus! {

/// A proposal that brings any payment other than one whole token is turned
/// down, whatever else it holds.
pub proof fn law_wrong_deposit_rejected(
    s: ContractView,
    deposit: u128,
    block_timestamp: u64,
    contract_ids: Seq<Seq<char>>,
    metadata: Seq<char>,
    project_id: Seq<char>,
)
    requires
        deposit != YOCTO_PER_NEAR,
    ensures
        add_project_fault(s, deposit, block_timestamp, contract_ids, metadata, project_id) == Some(
            WhitelistErrorView::InvalidDeposit,
        ),
        update_project_fault(s, deposit, block_timestamp, metadata, project_id) == Some(
            WhitelistErrorView::InvalidDeposit,
        ),
{
}

/// A migration keeps the guardians and the counter as they are and leaves
/// every table empty, whatever the tables held before.
pub proof fn law_migration_keeps_guardians_and_counter(guardians: Seq<Seq<char>>, running_id: u32)
    ensures
        migrated(guardians, running_id).guardians == guardians,
        migrated(guardians, running_id).running_id == running_id,
        migrated(guardians, running_id).proposals.len() == 0,
        migrated(guardians, running_id).approved_projects.len() == 0,
        migrated(guardians, running_id).contract_project_index.len() == 0,
        forall|c: Seq<char>| !#[trigger] has_key(migrated(guardians, running_id).contract_project_index, c),
{
    assert(keys_of(migrated(guardians, running_id).contract_project_index) =~= Seq::<Seq<char>>::empty());
}

/// Storing a proposal changes neither the whitelist nor the approved projects.
pub proof fn law_submission_keeps_whitelist(
    s: ContractView,
    caller: Seq<char>,
    block_timestamp: u64,
    contract_ids: Seq<Seq<char>>,
    metadata: Seq<char>,
    project_id: Seq<char>,
)
    ensures
        after_add_project(s, caller, block_timestamp, contract_ids, metadata, project_id).contract_project_index
            == s.contract_project_index,
        after_add_project(s, caller, block_timestamp, contract_ids, metadata, project_id).approved_projects
            == s.approved_projects,
        after_update_project(s, caller, block_timestamp, contract_ids, metadata, project_id).contract_project_index
            == s.contract_project_index,
{
}

/// A vote on a proposal that has fewer than two votes leaves the proposal
/// pending and changes neither the whitelist nor the approved projects.
pub proof fn law_vote_below_quorum_keeps_whitelist(s: ContractView, caller: Seq<char>, proposal_id: Seq<char>)
    requires
        state_wf(s),
        voter_fault(s, caller, proposal_id).is_none(),
        lookup(s.proposals, proposal_id).unwrap().votes.len() < 2,
    ensures
        !reaches_quorum(s, caller, proposal_id),
        after_vote(s, caller, proposal_id).contract_project_index == s.contract_project_index,
        after_vote(s, caller, proposal_id).approved_projects == s.approved_projects,
        has_key(after_vote(s, caller, proposal_id).proposals, proposal_id),
        receipt_of(s, caller, proposal_id).refund_to.is_none(),
{
    lemma_place_of_key(s.proposals, proposal_id);
    let p = lookup(s.proposals, proposal_id).unwrap();
    lemma_with_member(p.votes, caller);
    lemma_put(s.proposals, proposal_id, with_vote(p, caller));
}

/// The vote of an account that is no guardian is turned down, whatever the
/// proposal and however many such accounts try.
pub proof fn law_outsider_vote_rejected(s: ContractView, caller: Seq<char>, proposal_id: Seq<char>)
    requires
        !s.guardians.contains(caller),
    ensures
        voter_fault(s, caller, proposal_id) == Some(WhitelistErrorView::Unauthorized),
        withdraw_fault(s, caller, proposal_id) == Some(WhitelistErrorView::Unauthorized),
{
}

/// A guardian's second vote on a proposal changes nothing.
pub proof fn law_repeated_vote_counts_once(s: ContractView, caller: Seq<char>, proposal_id: Seq<char>)
    requires
        state_wf(s),
        voter_fault(s, caller, proposal_id).is_none(),
        lookup(s.proposals, proposal_id).unwrap().votes.contains(caller),
        lookup(s.proposals, proposal_id).unwrap().votes.len() < 3,
    ensures
        after_vote(s, caller, proposal_id) == s,
{
    lemma_place_of_key(s.proposals, proposal_id);
    let p = lookup(s.proposals, proposal_id).unwrap();
    assert(with_vote(p, caller) == p);
    assert(put(s.proposals, proposal_id, p) =~= s.proposals);
}

/// The vote that brings a proposal to the quorum takes it from the table, so
/// that it cannot be carried out again, and orders the refund of one whole
/// token to the proposer. Where the proposal is for a new project whose
/// identifier is free, the project is approved and each of its contracts is on
/// the whitelist afterwards.
pub proof fn law_quorum_executes_once(s: ContractView, caller: Seq<char>, proposal_id: Seq<char>)
    requires
        state_wf(s),
        voter_fault(s, caller, proposal_id).is_none(),
        reaches_quorum(s, caller, proposal_id),
    ensures
        !has_key(after_vote(s, caller, proposal_id).proposals, proposal_id),
        forall|g: Seq<char>| #[trigger]
            voter_fault(after_vote(s, caller, proposal_id), g, proposal_id).is_some(),
        receipt_of(s, caller, proposal_id).refund_to == Some(
            lookup(s.proposals, proposal_id).unwrap().proposed_by,
        ),
        receipt_of(s, caller, proposal_id).refund_amount == YOCTO_PER_NEAR,
        ({
            let p = lookup(s.proposals, proposal_id).unwrap();
            p.kind == EProposalKind::NEW && !has_key(s.approved_projects, p.project_info.project_id) ==> {
                &&& has_key(after_vote(s, caller, proposal_id).approved_projects, p.project_info.project_id)
                &&& forall|c: Seq<char>| p.project_info.contract_ids.contains(c) ==> #[trigger] has_key(
                    after_vote(s, caller, proposal_id).contract_project_index,
                    c,
                )
            }
        }),
{
    let p = lookup(s.proposals, proposal_id).unwrap();
    lemma_delete(s.proposals, proposal_id);
    let t = after_vote(s, caller, proposal_id);
    assert(t.proposals == delete(s.proposals, proposal_id));
    if p.kind == EProposalKind::NEW && !has_key(s.approved_projects, p.project_info.project_id) {
        let voted = with_vote(p, caller);
        let id = p.project_info.project_id;
        lemma_claim_all(s.contract_project_index, p.project_info.contract_ids, id);
        lemma_put(s.approved_projects, id, proposed_project(voted));
        assert(t.contract_project_index == claim_all(s.contract_project_index, p.project_info.contract_ids, id));
    }
}

/// Three distinct guardians who vote in turn for a proposal without votes:
/// the first two votes leave it pending and the whitelist as it was, the third
/// reaches the quorum and takes the proposal from the table.
pub proof fn law_three_guardians_carry_a_proposal(
    s: ContractView,
    first: Seq<char>,
    second: Seq<char>,
    third: Seq<char>,
    proposal_id: Seq<char>,
)
    requires
        state_wf(s),
        s.guardians.contains(first),
        s.guardians.contains(second),
        s.guardians.contains(third),
        first != second,
        first != third,
        second != third,
        has_key(s.proposals, proposal_id),
        lookup(s.proposals, proposal_id).unwrap().votes.len() == 0,
    ensures
        ({
            let s1 = after_vote(s, first, proposal_id);
            let s2 = after_vote(s1, second, proposal_id);
            let s3 = after_vote(s2, third, proposal_id);
            &&& !reaches_quorum(s, first, proposal_id)
            &&& voter_fault(s1, second, proposal_id).is_none()
            &&& !reaches_quorum(s1, second, proposal_id)
            &&& voter_fault(s2, third, proposal_id).is_none()
            &&& s2.contract_project_index == s.contract_project_index
            &&& s2.approved_projects == s.approved_projects
            &&& reaches_quorum(s2, third, proposal_id)
            &&& !has_key(s3.proposals, proposal_id)
        }),
{
    let unvoted = lookup(s.proposals, proposal_id).unwrap();
    lemma_place_of_key(s.proposals, proposal_id);
    assert(!unvoted.votes.contains(first));
    assert(!unvoted.votes.contains(second));
    let once = with_vote(unvoted, first);
    assert(once.votes =~= seq![first]);
    lemma_put(s.proposals, proposal_id, once);
    let s1 = after_vote(s, first, proposal_id);
    assert(s1.proposals == put(s.proposals, proposal_id, once));
    assert(lookup(s1.proposals, proposal_id) == Some(once));
    assert(!once.votes.contains(second)) by {
        if once.votes.contains(second) {
            let i = choose|i: int| 0 <= i < once.votes.len() && once.votes[i] == second;
            assert(once.votes[i] == first);
        }
    }
    let twice = with_vote(once, second);
    assert(twice.votes =~= seq![first, second]);
    lemma_put(s1.proposals, proposal_id, twice);
    let s2 = after_vote(s1, second, proposal_id);
    assert(s2.proposals == put(s1.proposals, proposal_id, twice));
    assert(lookup(s2.proposals, proposal_id) == Some(twice));
    assert(!twice.votes.contains(third)) by {
        if twice.votes.contains(third) {
            let i = choose|i: int| 0 <= i < twice.votes.len() && twice.votes[i] == third;
            assert(twice.votes[i] == first || twice.votes[i] == second);
        }
    }
    assert(with_vote(twice, third).votes =~= seq![first, second, third]);
    lemma_delete(s2.proposals, proposal_id);
}

/// Revoking a guardian takes the account from the guardians and its vote from
/// every pending proposal; each proposal keeps its place, its key and its
/// other votes, and counts one vote less where the account had voted.
pub proof fn law_revocation_strikes_votes(s: ContractView, account: Seq<char>)
    requires
        state_wf(s),
        s.guardians.contains(account),
    ensures
        !after_revoke_guardian(s, account).guardians.contains(account),
        after_revoke_guardian(s, account).proposals.len() == s.proposals.len(),
        forall|i: int|
            0 <= i < s.proposals.len() ==> {
                let before = s.proposals[i];
                let after = #[trigger] after_revoke_guardian(s, account).proposals[i];
                &&& after.0 == before.0
                &&& !after.1.votes.contains(account)
                &&& after.1.votes.len() == before.1.votes.len() - (if before.1.votes.contains(account) {
                    1int
                } else {
                    0int
                })
                &&& forall|g: Seq<char>| g != account ==> (#[trigger] after.1.votes.contains(g)
                    <==> before.1.votes.contains(g))
            },
{
    lemma_without_member(s.guardians, account);
    let t = after_revoke_guardian(s, account);
    assert forall|i: int| 0 <= i < s.proposals.len() implies ({
        let before = s.proposals[i];
        let after = #[trigger] t.proposals[i];
        &&& after.0 == before.0
        &&& !after.1.votes.contains(account)
        &&& after.1.votes.len() == before.1.votes.len() - (if before.1.votes.contains(account) {
            1int
        } else {
            0int
        })
        &&& forall|g: Seq<char>| g != account ==> (#[trigger] after.1.votes.contains(g)
            <==> before.1.votes.contains(g))
    }) by {
        assert(sound_proposal()(s.proposals[i].1));
        lemma_without_member(s.proposals[i].1.votes, account);
    }
}

/// A withdrawn vote is gone: the proposal does not list the guardian any
/// more, and a second withdrawal finds no vote until the guardian votes again.
pub proof fn law_withdrawn_vote_is_gone(s: ContractView, caller: Seq<char>, proposal_id: Seq<char>)
    requires
        state_wf(s),
        withdraw_fault(s, caller, proposal_id).is_none(),
    ensures
        has_key(after_withdraw(s, caller, proposal_id).proposals, proposal_id),
        !lookup(after_withdraw(s, caller, proposal_id).proposals, proposal_id).unwrap().votes.contains(caller),
        lookup(after_withdraw(s, caller, proposal_id).proposals, proposal_id).unwrap().votes.len() == lookup(
            s.proposals,
            proposal_id,
        ).unwrap().votes.len() - 1,
        withdraw_fault(after_withdraw(s, caller, proposal_id), caller, proposal_id) == Some(
            WhitelistErrorView::VoteNotFound,
        ),
        after_withdraw(s, caller, proposal_id).contract_project_index == s.contract_project_index,
{
    let p = lookup(s.proposals, proposal_id).unwrap();
    lemma_place_of_key(s.proposals, proposal_id);
    assert(sound_proposal()(s.proposals[key_place(s.proposals, proposal_id)].1));
    lemma_without_member(p.votes, caller);
    lemma_put(s.proposals, proposal_id, without_vote(p, caller));
}

/// Carrying out a change to an approved project: the contracts that the
/// project drops leave the whitelist, every contract of the new member set is
/// on it, and the approved projects keep their identifiers and their order.
pub proof fn law_update_replaces_members(s: ContractView, proposal_id: Seq<char>, p: ProposalInfoView)
    requires
        state_wf(s),
        p.project_id.is_some(),
        has_key(s.approved_projects, p.project_id.unwrap()),
    ensures
        ({
            let target = p.project_id.unwrap();
            let existing = lookup(s.approved_projects, target).unwrap();
            let t = apply_update(s, proposal_id, p);
            &&& forall|c: Seq<char>|
                existing.contract_ids.contains(c) && !p.project_info.contract_ids.contains(c) ==> !#[trigger] has_key(
                    t.contract_project_index,
                    c,
                )
            &&& forall|c: Seq<char>|
                p.project_info.contract_ids.contains(c) ==> #[trigger] has_key(t.contract_project_index, c)
            &&& keys_of(t.approved_projects) == keys_of(s.approved_projects)
            &&& lookup(t.approved_projects, target).unwrap().contract_ids == p.project_info.contract_ids
        }),
{
    let target = p.project_id.unwrap();
    let existing = lookup(s.approved_projects, target).unwrap();
    let t = apply_update(s, proposal_id, p);
    let released = release_all(s.contract_project_index, existing.contract_ids);
    lemma_release_all(s.contract_project_index, existing.contract_ids);
    lemma_claim_all(released, p.project_info.contract_ids, target);
    lemma_place_of_key(s.approved_projects, target);
    lemma_put(s.approved_projects, target, lookup(t.approved_projects, target).unwrap());
    assert(keys_of(t.approved_projects) =~= keys_of(s.approved_projects));
    assert(t.contract_project_index == claim_all(released, p.project_info.contract_ids, target));
    let replaced = ProjectInfoView {
        pending_proposals: without_member(existing.pending_proposals, proposal_id),
        ..p.project_info
    };
    lemma_put(s.approved_projects, target, replaced);
}

/// A proposal for a new project that names a contract which the whitelist
/// holds already is never stored.
pub proof fn law_claimed_contract_is_never_accepted(
    s: ContractView,
    deposit: u128,
    block_timestamp: u64,
    contract_ids: Seq<Seq<char>>,
    metadata: Seq<char>,
    project_id: Seq<char>,
)
    requires
        any_claimed(s.contract_project_index, contract_ids),
    ensures
        add_project_fault(s, deposit, block_timestamp, contract_ids, metadata, project_id).is_some(),
{
}

/// Where nothing else is wrong with such a proposal, the error names the
/// first of its contracts that the whitelist holds, and the project that has it.
pub proof fn law_conflict_names_the_contract(
    s: ContractView,
    block_timestamp: u64,
    contract_ids: Seq<Seq<char>>,
    metadata: Seq<char>,
    project_id: Seq<char>,
)
    requires
        any_claimed(s.contract_project_index, contract_ids),
        project_id.len() > 0,
        all_alphanumeric(project_id),
        !has_key(s.approved_projects, project_id),
        metadata_decodes(metadata),
        s.running_id < u32::MAX,
        !has_key(s.proposals, id_text(block_timestamp, (s.running_id + 1) as u32)),
    ensures
        ({
            let place = first_claimed(s.contract_project_index, contract_ids);
            &&& is_first_claimed(s.contract_project_index, contract_ids, place)
            &&& add_project_fault(s, YOCTO_PER_NEAR, block_timestamp, contract_ids, metadata, project_id)
                == Some(
                WhitelistErrorView::ContractClaimed {
                    contract_id: contract_ids[place],
                    project_id: lookup(s.contract_project_index, contract_ids[place]).unwrap(),
                },
            )
        }),
{
    lemma_first_claimed(s.contract_project_index, contract_ids, contract_ids.len() as int);
}

/// Where one of the first `n` contracts is claimed, one of them is the first that is.
pub proof fn lemma_first_claimed(index: IndexView, contracts: Seq<Seq<char>>, n: int)
    requires
        0 <= n <= contracts.len(),
        exists|i: int| 0 <= i < n && has_key(index, #[trigger] contracts[i]),
    ensures
        exists|i: int| 0 <= i < n && is_first_claimed(index, contracts, i),
        n == contracts.len() ==> is_first_claimed(index, contracts, first_claimed(index, contracts)),
    decreases n,
{
    if exists|i: int| 0 <= i < n - 1 && has_key(index, #[trigger] contracts[i]) {
        lemma_first_claimed(index, contracts, n - 1);
        let i = choose|i: int| 0 <= i < n - 1 && is_first_claimed(index, contracts, i);
        assert(is_first_claimed(index, contracts, i));
    } else {
        let i = choose|i: int| 0 <= i < n && has_key(index, #[trigger] contracts[i]);
        assert(i == n - 1);
        assert(is_first_claimed(index, contracts, n - 1));
    }
}

/// A listing is empty where `from_index` or `limit` is negative, where
/// `from_index` is not below the number of entries, and where `limit` is zero.
/// Otherwise it starts `from_index` entries behind the newest one, goes on
/// towards the oldest, and stops at `limit` entries or at the oldest.
pub proof fn law_pages_newest_first<T>(m: Seq<T>, from_index: i32, limit: i32)
    ensures
        (from_index < 0 || limit < 0) ==> page(m, from_index, limit).len() == 0,
        from_index >= m.len() ==> page(m, from_index, limit).len() == 0,
        limit == 0 ==> page(m, from_index, limit).len() == 0,
        0 <= from_index < m.len() && 0 <= limit ==> page(m, from_index, limit).len() == (if limit
            <= m.len() - from_index {
            limit as int
        } else {
            m.len() - from_index
        }),
        forall|i: int|
            0 <= i < page(m, from_index, limit).len() ==> #[trigger] page(m, from_index, limit)[i] == m[m.len()
                - 1 - from_index - i],
{
}

/// Identifiers made in the same second with different counter values differ.
pub proof fn law_ids_differ_within_a_second(first_time: u64, second_time: u64, first: u32, second: u32)
    requires
        block_seconds(first_time) == block_seconds(second_time),
        first != second,
    ensures
        id_text(first_time, first) != id_text(second_time, second),
{
    let head = decimal_digits(block_seconds(first_time));
    let a = decimal_digits(first as nat);
    let b = decimal_digits(second as nat);
    if head + a == head + b {
        assert((head + a).subrange(head.len() as int, (head + a).len() as int) =~= a);
        assert((head + b).subrange(head.len() as int, (head + b).len() as int) =~= b);
        lemma_decimal_injective(first as nat, second as nat);
    }
}

/// A larger number has at least as many decimal digits.
pub proof fn lemma_decimal_length_grows(a: nat, b: nat)
    requires
        a <= b,
    ensures
        decimal_digits(a).len() <= decimal_digits(b).len(),
    decreases a,
{
    lemma_decimal_nonempty(b);
    if a >= 10 {
        lemma_decimal_length_grows(a / 10, b / 10);
    }
}

/// While the block time does not run backwards, an identifier made with a
/// larger counter value differs from every identifier made before: none is
/// ever issued twice, whether or not the record that had it is still stored.
pub proof fn law_ids_never_repeat(earlier_time: u64, later_time: u64, earlier: u32, later: u32)
    requires
        block_seconds(earlier_time) <= block_seconds(later_time),
        earlier < later,
    ensures
        id_text(earlier_time, earlier) != id_text(later_time, later),
{
    let h1 = decimal_digits(block_seconds(earlier_time));
    let h2 = decimal_digits(block_seconds(later_time));
    let c1 = decimal_digits(earlier as nat);
    let c2 = decimal_digits(later as nat);
    lemma_decimal_length_grows(block_seconds(earlier_time), block_seconds(later_time));
    lemma_decimal_length_grows(earlier as nat, later as nat);
    if h1 + c1 == h2 + c2 {
        assert((h1 + c1).len() == (h2 + c2).len());
        assert(h1.len() == h2.len());
        assert((h1 + c1).subrange(h1.len() as int, (h1 + c1).len() as int) =~= c1);
        assert((h2 + c2).subrange(h2.len() as int, (h2 + c2).len() as int) =~= c2);
        lemma_decimal_injective(earlier as nat, later as nat);
    }
}

/// Every stored proposal advances the counter by one, so that no two
/// submissions ever draw the same counter value.
pub proof fn law_counter_advances(
    s: ContractView,
    caller: Seq<char>,
    block_timestamp: u64,
    contract_ids: Seq<Seq<char>>,
    metadata: Seq<char>,
    project_id: Seq<char>,
)
    requires
        s.running_id < u32::MAX,
    ensures
        after_add_project(s, caller, block_timestamp, contract_ids, metadata, project_id).running_id
            == s.running_id + 1,
        after_update_project(s, caller, block_timestamp, contract_ids, metadata, project_id).running_id
            == s.running_id + 1,
{
}

} // verus!
