use near_whitelist::contract::{is_privileged, required_deposit};
use near_whitelist::{
    CallContext, Contract, EProposalKind, ErrorKind, OldContract, OrderedMap, ProposalEffect,
    StringSet, WhitelistError,
};

const ONE_NEAR: u128 = 1_000_000_000_000_000_000_000_000;
const OWNER: &str = "whitelist.near";
const NOW: u64 = 1_700_000_000_000_000_000;

fn call(predecessor: &str, deposit: u128) -> CallContext {
    CallContext {
        predecessor: predecessor.to_string(),
        current_account: OWNER.to_string(),
        attached_deposit: deposit,
        block_timestamp: NOW,
    }
}

fn call_at(predecessor: &str, deposit: u128, seconds: u64) -> CallContext {
    CallContext {
        predecessor: predecessor.to_string(),
        current_account: OWNER.to_string(),
        attached_deposit: deposit,
        block_timestamp: seconds * 1_000_000_000,
    }
}

fn set(items: &[&str]) -> StringSet {
    StringSet::from_vec(items.iter().map(|s| s.to_string()).collect())
}

fn with_guardians(names: &[&str]) -> Contract {
    let mut contract = Contract::new();
    for name in names {
        contract.add_guardian(&call(OWNER, 0), name.to_string()).unwrap();
    }
    contract
}

fn whitelisted(contract: &Contract, id: &str) -> bool {
    contract.check_contract_whitelisted(id.to_string())
}

fn vote_all(contract: &mut Contract, guardians: &[&str], proposal_id: &str) {
    for g in guardians {
        let _ = contract.vote_proposal(&call(g, 0), proposal_id.to_string());
    }
}

#[test]
fn test_contract_is_operational() {
    let mut contract = Contract::new();
    let guardians = ["guardian1.near", "guardian2.near", "guardian3.near"];
    let rando = "rando.near";

    assert_eq!(whitelisted(&contract, "aa-harvest-moon.near"), false);

    let without_deposit = contract.add_project(
        &call(rando, 0),
        set(&["aa-harvest-moon.near"]),
        "{}".to_string(),
        "meteorHarvestMoon".to_string(),
    );
    assert!(without_deposit.is_err());

    let with_five = contract.add_project(
        &call(rando, 5 * ONE_NEAR),
        set(&["aa-harvest-moon.near"]),
        "{}".to_string(),
        "meteorHarvestMoon".to_string(),
    );
    assert!(with_five.is_err());

    let added = contract.add_project(
        &call(rando, ONE_NEAR),
        set(&["aa-harvest-moon.near"]),
        "{}".to_string(),
        "meteorHarvestMoon".to_string(),
    );
    assert!(added.is_ok());
    let proposal_id = added.unwrap();

    assert_eq!(whitelisted(&contract, "aa-harvest-moon.near"), false);

    vote_all(&mut contract, &guardians, &proposal_id);
    assert_eq!(whitelisted(&contract, "aa-harvest-moon.near"), false);

    for g in guardians {
        contract.add_guardian(&call(OWNER, 0), g.to_string()).unwrap();
    }
    let first = contract.vote_proposal(&call(guardians[0], 0), proposal_id.clone()).unwrap();
    assert_eq!(first.refund_to, None);
    let second = contract.vote_proposal(&call(guardians[1], 0), proposal_id.clone()).unwrap();
    assert_eq!(second.refund_to, None);
    let third = contract.vote_proposal(&call(guardians[2], 0), proposal_id.clone()).unwrap();

    assert_eq!(whitelisted(&contract, "aa-harvest-moon.near"), true);
    assert_eq!(third.refund_to, Some(rando.to_string()));
    assert_eq!(third.refund_amount, ONE_NEAR);

    let all_projects = contract.list_projects(0, 20);
    assert_eq!(all_projects.len(), 1);
    let project_id = all_projects[0].0.clone();
    assert_eq!(project_id, "meteorHarvestMoon");

    let updated = contract.update_project(
        &call(rando, ONE_NEAR),
        project_id,
        set(&["nothere.near"]),
        "{}".to_string(),
    );
    assert!(updated.is_ok());
    let update_proposal_id = updated.unwrap();

    vote_all(&mut contract, &guardians, &update_proposal_id);

    assert_eq!(whitelisted(&contract, "aa-harvest-moon.near"), false);
    assert_eq!(whitelisted(&contract, "nothere.near"), true);
}

#[test]
fn fresh_registry_is_empty() {
    let contract = Contract::new();
    assert_eq!(contract.running_id(), 0);
    assert_eq!(contract.list_guardians().len(), 0);
    assert!(contract.list_projects(0, 10).is_empty());
    assert!(contract.list_proposals(0, 10).is_empty());
    assert!(contract.list_contracts(0, 10).is_empty());
    assert!(!whitelisted(&contract, "anything.near"));
    let by_default = Contract::default();
    assert_eq!(by_default.running_id(), 0);
    assert_eq!(by_default.list_guardians().len(), 0);
}

#[test]
fn required_deposit_is_one_whole_token() {
    assert_eq!(required_deposit(), 1_000_000_000_000_000_000_000_000u128);
}

#[test]
fn deposit_must_be_exactly_one_token() {
    let mut contract = Contract::new();
    for wrong in [0u128, 1, ONE_NEAR - 1, ONE_NEAR + 1, 5 * ONE_NEAR] {
        let r = contract.add_project(
            &call("a.near", wrong),
            set(&["c.near"]),
            "{}".to_string(),
            "proj".to_string(),
        );
        assert_eq!(r, Err(WhitelistError::InvalidDeposit));
        let r = contract.update_project(
            &call("a.near", wrong),
            "proj".to_string(),
            set(&["c.near"]),
            "{}".to_string(),
        );
        assert_eq!(r, Err(WhitelistError::InvalidDeposit));
    }
    assert_eq!(contract.running_id(), 0);
    assert!(contract.list_proposals(0, 10).is_empty());
    let ok = contract.add_project(
        &call("a.near", ONE_NEAR),
        set(&["c.near"]),
        "{}".to_string(),
        "proj".to_string(),
    );
    assert_eq!(ok, Ok("17000000001".to_string()));
}

#[test]
fn add_project_checks_its_input_in_order() {
    let mut contract = with_guardians(&["g1", "g2", "g3"]);
    let submit = |c: &mut Contract, id: &str, meta: &str, members: &[&str]| {
        c.add_project(&call("a.near", ONE_NEAR), set(members), meta.to_string(), id.to_string())
    };
    assert_eq!(submit(&mut contract, "", "{}", &["c.near"]), Err(WhitelistError::EmptyProjectId));
    assert_eq!(
        submit(&mut contract, "bad-id", "{}", &["c.near"]),
        Err(WhitelistError::ProjectIdNotAlphanumeric)
    );
    assert_eq!(
        submit(&mut contract, "with space", "not json", &["c.near"]),
        Err(WhitelistError::ProjectIdNotAlphanumeric)
    );
    assert_eq!(
        submit(&mut contract, "proj", "not json", &["c.near"]),
        Err(WhitelistError::InvalidMetadata)
    );
    assert_eq!(
        submit(&mut contract, "proj", "{\"description\": 5}", &["c.near"]),
        Err(WhitelistError::InvalidMetadata)
    );
    assert_eq!(contract.running_id(), 0);

    let id = submit(&mut contract, "proj", "{\"description\": \"d\"}", &["c.near"]).unwrap();
    assert_eq!(id, "17000000001");
    assert_eq!(contract.running_id(), 1);
    vote_all(&mut contract, &["g1", "g2", "g3"], &id);
    assert!(whitelisted(&contract, "c.near"));

    assert_eq!(
        submit(&mut contract, "proj", "not json", &["d.near"]),
        Err(WhitelistError::ProjectIdOccupied)
    );
    assert_eq!(
        submit(&mut contract, "other", "{}", &["d.near", "c.near", "e.near"]),
        Err(WhitelistError::ContractClaimed {
            contract_id: "c.near".to_string(),
            project_id: "proj".to_string(),
        })
    );
    assert_eq!(contract.running_id(), 1);
    assert!(contract.list_proposals(0, 10).is_empty());
}

#[test]
fn unicode_letters_and_digits_make_a_project_id() {
    let mut contract = Contract::new();
    let r = contract.add_project(
        &call("a.near", ONE_NEAR),
        set(&[]),
        "{}".to_string(),
        "Gr\u{00fc}n\u{0663}7".to_string(),
    );
    assert!(r.is_ok());
    let r = contract.add_project(
        &call("a.near", ONE_NEAR),
        set(&[]),
        "{}".to_string(),
        "under_score".to_string(),
    );
    assert_eq!(r, Err(WhitelistError::ProjectIdNotAlphanumeric));
}

#[test]
fn stored_proposal_holds_what_was_submitted() {
    let mut contract = Contract::new();
    let id = contract
        .add_project(
            &call("proposer.near", ONE_NEAR),
            set(&["a.near", "b.near", "a.near"]),
            "{\"website_url\":\"https://x\"}".to_string(),
            "proj1".to_string(),
        )
        .unwrap();
    let p = contract.get_proposal_by_id(id.clone()).unwrap();
    assert_eq!(p.kind, EProposalKind::NEW);
    assert_eq!(p.project_id, None);
    assert_eq!(p.proposed_by, "proposer.near");
    assert_eq!(p.votes.len(), 0);
    assert_eq!(p.project_info.project_id, "proj1");
    assert_eq!(p.project_info.metadata, "{\"website_url\":\"https://x\"}");
    assert_eq!(p.project_info.contract_ids.to_vec(), vec!["a.near".to_string(), "b.near".to_string()]);
    assert_eq!(p.project_info.pending_proposals.len(), 0);
    assert!(contract.get_proposal_by_id("nope".to_string()).is_none());
    assert!(contract.get_project_by_id("proj1".to_string()).is_none());
    assert!(contract.get_project_id_by_contract_id("a.near".to_string()).is_none());
}

#[test]
fn votes_below_quorum_do_not_whitelist() {
    let mut contract = with_guardians(&["g1", "g2", "g3"]);
    let id = contract
        .add_project(&call("a.near", ONE_NEAR), set(&["c.near"]), "{}".to_string(), "p".to_string())
        .unwrap();
    assert!(!whitelisted(&contract, "c.near"));
    let r = contract.vote_proposal(&call("g1", 0), id.clone()).unwrap();
    assert_eq!(r.effect, ProposalEffect::Pending);
    assert_eq!(r.refund_amount, 0);
    assert!(!whitelisted(&contract, "c.near"));
    contract.vote_proposal(&call("g2", 0), id.clone()).unwrap();
    assert!(!whitelisted(&contract, "c.near"));
    contract.vote_proposal(&call("g2", 0), id.clone()).unwrap();
    contract.vote_proposal(&call("g1", 0), id.clone()).unwrap();
    assert!(!whitelisted(&contract, "c.near"));
    assert_eq!(contract.get_proposal_by_id(id.clone()).unwrap().votes.len(), 2);
    assert!(contract.get_project_by_id("p".to_string()).is_none());
}

#[test]
fn votes_of_outsiders_never_count() {
    let mut contract = with_guardians(&["g1"]);
    let id = contract
        .add_project(&call("a.near", ONE_NEAR), set(&["c.near"]), "{}".to_string(), "p".to_string())
        .unwrap();
    for outsider in ["x1", "x2", "x3", "x4"] {
        let r = contract.vote_proposal(&call(outsider, 0), id.clone());
        assert_eq!(r.unwrap_err(), WhitelistError::Unauthorized);
        let r = contract.withdraw_vote_on_proposal(&call(outsider, 0), id.clone());
        assert_eq!(r.unwrap_err(), WhitelistError::Unauthorized);
    }
    assert!(!whitelisted(&contract, "c.near"));
    assert_eq!(contract.get_proposal_by_id(id).unwrap().votes.len(), 0);
    let r = contract.vote_proposal(&call("x1", 0), "missing".to_string());
    assert_eq!(r.unwrap_err(), WhitelistError::Unauthorized);
    let r = contract.vote_proposal(&call("g1", 0), "missing".to_string());
    assert_eq!(r.unwrap_err(), WhitelistError::ProposalNotFound);
    let r = contract.withdraw_vote_on_proposal(&call("g1", 0), "missing".to_string());
    assert_eq!(r.unwrap_err(), WhitelistError::ProposalNotFound);
}

#[test]
fn quorum_executes_exactly_once() {
    let mut contract = with_guardians(&["g1", "g2", "g3", "g4"]);
    let id = contract
        .add_project(
            &call("proposer.near", ONE_NEAR),
            set(&["aa-harvest-moon.near", "bb.near"]),
            "{}".to_string(),
            "meteorHarvestMoon".to_string(),
        )
        .unwrap();
    contract.vote_proposal(&call("g1", 0), id.clone()).unwrap();
    contract.vote_proposal(&call("g2", 0), id.clone()).unwrap();
    let r = contract.vote_proposal(&call("g3", 0), id.clone()).unwrap();
    assert_eq!(r.effect, ProposalEffect::ProjectAdded);
    assert!(r.passed_over.is_empty());
    assert_eq!(r.refund_to, Some("proposer.near".to_string()));
    assert_eq!(r.refund_amount, ONE_NEAR);
    assert!(contract.get_proposal_by_id(id.clone()).is_none());
    assert!(whitelisted(&contract, "aa-harvest-moon.near"));
    assert!(whitelisted(&contract, "bb.near"));
    assert_eq!(
        contract.get_project_id_by_contract_id("bb.near".to_string()),
        Some(&"meteorHarvestMoon".to_string())
    );
    let project = contract.get_project_by_id("meteorHarvestMoon".to_string()).unwrap();
    assert_eq!(project.project_id, "meteorHarvestMoon");
    assert_eq!(project.metadata, "{}");
    assert_eq!(project.contract_ids.len(), 2);
    assert_eq!(project.pending_proposals.len(), 0);
    assert_eq!(contract.running_id(), 1);
    let again = contract.vote_proposal(&call("g4", 0), id);
    assert_eq!(again.unwrap_err(), WhitelistError::ProposalNotFound);
    assert_eq!(contract.list_projects(0, 10).len(), 1);
}

#[test]
fn racing_proposals_for_one_project_id() {
    let mut contract = with_guardians(&["g1", "g2", "g3"]);
    let first = contract
        .add_project(&call("a.near", ONE_NEAR), set(&["first.near"]), "{}".to_string(), "p".to_string())
        .unwrap();
    let second = contract
        .add_project(&call("b.near", ONE_NEAR), set(&["second.near"]), "{}".to_string(), "p".to_string())
        .unwrap();
    vote_all(&mut contract, &["g1", "g2"], &second);
    vote_all(&mut contract, &["g1", "g2", "g3"], &first);
    let r = contract.vote_proposal(&call("g3", 0), second.clone()).unwrap();
    assert_eq!(r.effect, ProposalEffect::ProjectIdOccupied);
    assert_eq!(r.refund_to, Some("b.near".to_string()));
    assert!(contract.get_proposal_by_id(second).is_none());
    assert!(whitelisted(&contract, "first.near"));
    assert!(!whitelisted(&contract, "second.near"));
    assert_eq!(contract.list_projects(0, 10).len(), 1);
}

#[test]
fn racing_proposals_for_one_contract() {
    let mut contract = with_guardians(&["g1", "g2", "g3"]);
    let first = contract
        .add_project(&call("a.near", ONE_NEAR), set(&["shared.near"]), "{}".to_string(), "one".to_string())
        .unwrap();
    let second = contract
        .add_project(
            &call("b.near", ONE_NEAR),
            set(&["shared.near", "own.near"]),
            "{}".to_string(),
            "two".to_string(),
        )
        .unwrap();
    vote_all(&mut contract, &["g1", "g2", "g3"], &first);
    let r = contract.vote_proposal(&call("g1", 0), second.clone()).unwrap();
    assert_eq!(r.effect, ProposalEffect::Pending);
    contract.vote_proposal(&call("g2", 0), second.clone()).unwrap();
    let r = contract.vote_proposal(&call("g3", 0), second.clone()).unwrap();
    assert_eq!(r.effect, ProposalEffect::ProjectAdded);
    assert_eq!(r.passed_over, vec![("shared.near".to_string(), "one".to_string())]);
    assert_eq!(
        contract.get_project_id_by_contract_id("shared.near".to_string()),
        Some(&"one".to_string())
    );
    assert_eq!(
        contract.get_project_id_by_contract_id("own.near".to_string()),
        Some(&"two".to_string())
    );
    assert!(contract.get_project_by_id("two".to_string()).is_some());
}

#[test]
fn revoking_a_guardian_strikes_its_votes() {
    let mut contract = with_guardians(&["g1", "g2", "g3", "g4"]);
    let first_id = contract
        .add_project(&call("a.near", ONE_NEAR), set(&["first.near"]), "{}".to_string(), "one".to_string())
        .unwrap();
    let second_id = contract
        .add_project(&call("a.near", ONE_NEAR), set(&["second.near"]), "{}".to_string(), "two".to_string())
        .unwrap();
    vote_all(&mut contract, &["g1", "g2"], &first_id);
    vote_all(&mut contract, &["g2"], &second_id);

    let denied = contract.revoke_guardian(&call("g1", 0), "g2".to_string());
    assert_eq!(denied, Err(WhitelistError::Unauthorized));
    assert_eq!(contract.list_guardians().len(), 4);
    assert_eq!(contract.get_proposal_by_id(first_id.clone()).unwrap().votes.len(), 2);

    contract.revoke_guardian(&call(OWNER, 0), "g2".to_string()).unwrap();
    assert_eq!(contract.list_guardians().to_vec(), vec!["g1", "g3", "g4"]);
    assert_eq!(contract.get_proposal_by_id(first_id.clone()).unwrap().votes.to_vec(), vec!["g1"]);
    assert_eq!(contract.get_proposal_by_id(second_id.clone()).unwrap().votes.len(), 0);
    assert_eq!(
        contract.vote_proposal(&call("g2", 0), first_id.clone()).unwrap_err(),
        WhitelistError::Unauthorized
    );

    let r = contract.vote_proposal(&call("g3", 0), first_id.clone()).unwrap();
    assert_eq!(r.effect, ProposalEffect::Pending);
    assert!(!whitelisted(&contract, "first.near"));
    let r = contract.vote_proposal(&call("g4", 0), first_id.clone()).unwrap();
    assert_eq!(r.effect, ProposalEffect::ProjectAdded);
    assert!(whitelisted(&contract, "first.near"));

    contract.revoke_guardian(&call(OWNER, 0), "nobody".to_string()).unwrap();
    assert_eq!(contract.list_guardians().len(), 3);
}

#[test]
fn guardians_are_added_once_and_only_by_the_owner() {
    let mut contract = Contract::new();
    assert_eq!(
        contract.add_guardian(&call("g1", 0), "g1".to_string()),
        Err(WhitelistError::Unauthorized)
    );
    assert_eq!(contract.list_guardians().len(), 0);
    contract.add_guardian(&call(OWNER, 0), "g1".to_string()).unwrap();
    contract.add_guardian(&call(OWNER, 0), "g1".to_string()).unwrap();
    contract.add_guardian(&call(OWNER, 0), "g2".to_string()).unwrap();
    assert_eq!(contract.list_guardians().to_vec(), vec!["g1", "g2"]);
    assert!(is_privileged(&call(OWNER, 0)));
    assert!(!is_privileged(&call("whitelist.nea", 0)));
}

#[test]
fn withdrawing_a_vote() {
    let mut contract = with_guardians(&["g1", "g2", "g3"]);
    let id = contract
        .add_project(&call("a.near", ONE_NEAR), set(&["c.near"]), "{}".to_string(), "p".to_string())
        .unwrap();
    assert_eq!(
        contract.withdraw_vote_on_proposal(&call("g1", 0), id.clone()),
        Err(WhitelistError::VoteNotFound)
    );
    vote_all(&mut contract, &["g1", "g2"], &id);
    assert_eq!(contract.withdraw_vote_on_proposal(&call("g1", 0), id.clone()), Ok(true));
    assert_eq!(contract.get_proposal_by_id(id.clone()).unwrap().votes.to_vec(), vec!["g2"]);
    assert_eq!(
        contract.withdraw_vote_on_proposal(&call("g1", 0), id.clone()),
        Err(WhitelistError::VoteNotFound)
    );
    let r = contract.vote_proposal(&call("g3", 0), id.clone()).unwrap();
    assert_eq!(r.effect, ProposalEffect::Pending);
    assert!(!whitelisted(&contract, "c.near"));
    let r = contract.vote_proposal(&call("g1", 0), id.clone()).unwrap();
    assert_eq!(r.effect, ProposalEffect::ProjectAdded);
    assert!(whitelisted(&contract, "c.near"));
}

#[test]
fn update_replaces_the_member_set() {
    let mut contract = with_guardians(&["g1", "g2", "g3"]);
    let id = contract
        .add_project(
            &call("a.near", ONE_NEAR),
            set(&["keep.near", "drop.near"]),
            "{}".to_string(),
            "proj".to_string(),
        )
        .unwrap();
    vote_all(&mut contract, &["g1", "g2", "g3"], &id);

    assert_eq!(
        contract.update_project(
            &call("a.near", ONE_NEAR),
            "missing".to_string(),
            set(&["x.near"]),
            "{}".to_string()
        ),
        Err(WhitelistError::ProjectNotFound)
    );
    assert_eq!(
        contract.update_project(
            &call("a.near", ONE_NEAR),
            "missing".to_string(),
            set(&["x.near"]),
            "[1".to_string()
        ),
        Err(WhitelistError::InvalidMetadata)
    );

    let update = contract
        .update_project(
            &call("b.near", ONE_NEAR),
            "proj".to_string(),
            set(&["keep.near", "new.near"]),
            "{\"description\":\"v2\"}".to_string(),
        )
        .unwrap();
    assert_eq!(update, "17000000002");
    let other = contract
        .update_project(
            &call("b.near", ONE_NEAR),
            "proj".to_string(),
            set(&["z.near"]),
            "{}".to_string(),
        )
        .unwrap();
    {
        let pending = &contract.get_project_by_id("proj".to_string()).unwrap().pending_proposals;
        assert_eq!(pending.to_vec(), vec![update.clone(), other.clone()]);
        let p = contract.get_proposal_by_id(update.clone()).unwrap();
        assert_eq!(p.kind, EProposalKind::UPDATE);
        assert_eq!(p.project_id, Some("proj".to_string()));
        assert_eq!(p.proposed_by, "b.near");
    }
    assert!(whitelisted(&contract, "drop.near"));
    assert!(!whitelisted(&contract, "new.near"));

    vote_all(&mut contract, &["g1", "g2"], &update);
    let r = contract.vote_proposal(&call("g3", 0), update.clone()).unwrap();
    assert_eq!(r.effect, ProposalEffect::ProjectUpdated);
    assert_eq!(r.refund_to, Some("b.near".to_string()));

    assert!(whitelisted(&contract, "keep.near"));
    assert!(whitelisted(&contract, "new.near"));
    assert!(!whitelisted(&contract, "drop.near"));
    let project = contract.get_project_by_id("proj".to_string()).unwrap();
    assert_eq!(project.project_id, "proj");
    assert_eq!(project.metadata, "{\"description\":\"v2\"}");
    assert_eq!(project.contract_ids.to_vec(), vec!["keep.near", "new.near"]);
    assert_eq!(project.pending_proposals.to_vec(), vec![other]);
    assert_eq!(contract.list_projects(0, 10).len(), 1);
    assert_eq!(
        contract.get_project_id_by_contract_id("new.near".to_string()),
        Some(&"proj".to_string())
    );
}

#[test]
fn update_skips_contracts_of_other_projects() {
    let mut contract = with_guardians(&["g1", "g2", "g3"]);
    let a = contract
        .add_project(&call("a.near", ONE_NEAR), set(&["a1.near"]), "{}".to_string(), "pa".to_string())
        .unwrap();
    let b = contract
        .add_project(&call("a.near", ONE_NEAR), set(&["b1.near"]), "{}".to_string(), "pb".to_string())
        .unwrap();
    vote_all(&mut contract, &["g1", "g2", "g3"], &a);
    vote_all(&mut contract, &["g1", "g2", "g3"], &b);
    let u = contract
        .update_project(
            &call("a.near", ONE_NEAR),
            "pb".to_string(),
            set(&["a1.near", "b2.near"]),
            "{}".to_string(),
        )
        .unwrap();
    vote_all(&mut contract, &["g1", "g2"], &u);
    let r = contract.vote_proposal(&call("g3", 0), u).unwrap();
    assert_eq!(r.effect, ProposalEffect::ProjectUpdated);
    assert_eq!(r.passed_over, vec![("a1.near".to_string(), "pa".to_string())]);
    assert_eq!(contract.get_project_id_by_contract_id("a1.near".to_string()), Some(&"pa".to_string()));
    assert_eq!(contract.get_project_id_by_contract_id("b2.near".to_string()), Some(&"pb".to_string()));
    assert!(!whitelisted(&contract, "b1.near"));
    let listed: Vec<(String, String)> = contract
        .list_contracts(0, 10)
        .into_iter()
        .map(|(k, v)| (k.clone(), v.clone()))
        .collect();
    assert_eq!(
        listed,
        vec![("b2.near".to_string(), "pb".to_string()), ("a1.near".to_string(), "pa".to_string())]
    );
}

#[test]
fn listings_are_newest_first_and_paged() {
    let mut contract = with_guardians(&["g1", "g2", "g3"]);
    for (i, name) in ["one", "two", "three", "four"].iter().enumerate() {
        let id = contract
            .add_project(
                &call("a.near", ONE_NEAR),
                set(&[&format!("member{}.near", i + 1)]),
                "{}".to_string(),
                name.to_string(),
            )
            .unwrap();
        vote_all(&mut contract, &["g1", "g2", "g3"], &id);
    }
    let keys = |c: &Contract, from: i32, limit: i32| -> Vec<String> {
        c.list_projects(from, limit).into_iter().map(|(k, _)| k.clone()).collect()
    };
    assert_eq!(keys(&contract, 0, 20), vec!["four", "three", "two", "one"]);
    assert_eq!(keys(&contract, 0, 4), vec!["four", "three", "two", "one"]);
    assert_eq!(keys(&contract, 1, 2), vec!["three", "two"]);
    assert_eq!(keys(&contract, 3, 5), vec!["one"]);
    assert_eq!(keys(&contract, 0, 0), Vec::<String>::new());
    assert_eq!(keys(&contract, 4, 5), Vec::<String>::new());
    assert_eq!(keys(&contract, 100, 5), Vec::<String>::new());
    assert_eq!(keys(&contract, -1, 5), Vec::<String>::new());
    assert_eq!(keys(&contract, i32::MIN, 5), Vec::<String>::new());
    assert_eq!(keys(&contract, -1, -1), Vec::<String>::new());
    assert_eq!(keys(&contract, 1, -1), Vec::<String>::new());
    assert_eq!(keys(&contract, i32::MAX, i32::MAX), Vec::<String>::new());

    let contracts: Vec<String> =
        contract.list_contracts(0, 2).into_iter().map(|(k, _)| k.clone()).collect();
    assert_eq!(contracts, vec!["member4.near", "member3.near"]);
    assert!(contract.list_contracts(-5, 2).is_empty());

    let a = contract
        .add_project(&call("a.near", ONE_NEAR), set(&[]), "{}".to_string(), "q1".to_string())
        .unwrap();
    let b = contract
        .add_project(&call("a.near", ONE_NEAR), set(&[]), "{}".to_string(), "q2".to_string())
        .unwrap();
    let proposals: Vec<String> =
        contract.list_proposals(0, 10).into_iter().map(|(k, _)| k.clone()).collect();
    assert_eq!(proposals, vec![b.clone(), a]);
    let proposals: Vec<String> =
        contract.list_proposals(1, 1).into_iter().map(|(k, _)| k.clone()).collect();
    assert_eq!(proposals.len(), 1);
    assert!(contract.list_proposals(-1, 1).is_empty());
    assert!(contract.list_proposals(2, 1).is_empty());
}

#[test]
fn identifiers_join_seconds_and_counter() {
    assert_eq!(Contract::generate_id(1_700_000_000_000_000_000, 6), (7, "17000000007".to_string()));
    assert_eq!(Contract::generate_id(1_700_000_000_999_999_999, 0), (1, "17000000001".to_string()));
    assert_eq!(Contract::generate_id(0, 0), (1, "01".to_string()));
    assert_eq!(Contract::generate_id(999_999_999, 9), (10, "010".to_string()));
    assert_eq!(
        Contract::generate_id(u64::MAX, u32::MAX - 1),
        (u32::MAX, "184467440734294967295".to_string())
    );
    let (c1, first) = Contract::generate_id(NOW, 41);
    let (c2, second) = Contract::generate_id(NOW, c1);
    assert_eq!((c1, c2), (42, 43));
    assert_ne!(first, second);
}

#[test]
fn identifiers_are_not_reused_while_the_counter_runs() {
    let mut contract = with_guardians(&["g1", "g2", "g3"]);
    let first = contract
        .add_project(&call("a.near", ONE_NEAR), set(&[]), "{}".to_string(), "one".to_string())
        .unwrap();
    vote_all(&mut contract, &["g1", "g2", "g3"], &first);
    assert!(contract.get_proposal_by_id(first.clone()).is_none());
    let second = contract
        .add_project(&call("a.near", ONE_NEAR), set(&[]), "{}".to_string(), "two".to_string())
        .unwrap();
    assert_eq!(first, "17000000001");
    assert_eq!(second, "17000000002");
    assert_eq!(contract.running_id(), 2);
}

#[test]
fn colliding_identifier_is_refused() {
    let mut contract = Contract::new();
    let first = contract
        .add_project(&call_at("a.near", ONE_NEAR, 11), set(&[]), "{}".to_string(), "zero".to_string())
        .unwrap();
    assert_eq!(first, "111");
    for i in 0..9 {
        contract
            .add_project(
                &call_at("a.near", ONE_NEAR, 500),
                set(&[]),
                "{}".to_string(),
                format!("q{}", i),
            )
            .unwrap();
    }
    assert_eq!(contract.running_id(), 10);
    let clash = contract.add_project(
        &call_at("a.near", ONE_NEAR, 1),
        set(&[]),
        "{}".to_string(),
        "late".to_string(),
    );
    assert_eq!(clash, Err(WhitelistError::IdCollision));
    assert_eq!(contract.running_id(), 10);
    assert_eq!(contract.list_proposals(0, 100).len(), 10);
}

#[test]
fn migration_keeps_guardians_and_counter_only() {
    let mut index: OrderedMap<String> = OrderedMap::new();
    index.insert("c.near".to_string(), "p".to_string());
    let old = OldContract {
        guardians: set(&["g1", "g2"]),
        contract_project_index: index,
        proposals: OrderedMap::new(),
        approved_projects: OrderedMap::new(),
        running_id: 77,
    };
    let denied = Contract::migrate(&call("g1", 0), old);
    assert_eq!(denied.unwrap_err(), WhitelistError::Unauthorized);

    let mut index: OrderedMap<String> = OrderedMap::new();
    index.insert("c.near".to_string(), "p".to_string());
    let old = OldContract {
        guardians: set(&["g1", "g2"]),
        contract_project_index: index,
        proposals: OrderedMap::new(),
        approved_projects: OrderedMap::new(),
        running_id: 77,
    };
    let contract = Contract::migrate(&call(OWNER, 0), old).unwrap();
    assert_eq!(contract.list_guardians().to_vec(), vec!["g1", "g2"]);
    assert_eq!(contract.running_id(), 77);
    assert!(contract.list_projects(0, 10).is_empty());
    assert!(contract.list_proposals(0, 10).is_empty());
    assert!(contract.list_contracts(0, 10).is_empty());
    assert!(!whitelisted(&contract, "c.near"));
}

#[test]
fn exhausted_counter_stops_submissions() {
    let old = OldContract {
        guardians: set(&[]),
        contract_project_index: OrderedMap::new(),
        proposals: OrderedMap::new(),
        approved_projects: OrderedMap::new(),
        running_id: u32::MAX,
    };
    let mut contract = Contract::migrate(&call(OWNER, 0), old).unwrap();
    let r = contract.add_project(
        &call("a.near", ONE_NEAR),
        set(&[]),
        "{}".to_string(),
        "p".to_string(),
    );
    assert_eq!(r, Err(WhitelistError::CounterExhausted));
    assert_eq!(r.unwrap_err().kind(), ErrorKind::Exhausted);
}

#[test]
fn parts_round_trip() {
    let mut contract = with_guardians(&["g1", "g2", "g3"]);
    let id = contract
        .add_project(&call("a.near", ONE_NEAR), set(&["c.near"]), "{}".to_string(), "p".to_string())
        .unwrap();
    vote_all(&mut contract, &["g1", "g2", "g3"], &id);
    let (guardians, index, proposals, projects, counter) = contract.into_parts();
    assert_eq!(guardians.len(), 3);
    assert_eq!(index.len(), 1);
    assert_eq!(proposals.len(), 0);
    assert_eq!(projects.len(), 1);
    let again = Contract::from_parts(guardians, index, proposals, projects, counter);
    assert!(whitelisted(&again, "c.near"));
    assert_eq!(again.running_id(), 1);
}

#[test]
fn errors_fall_into_classes() {
    assert_eq!(WhitelistError::Unauthorized.kind(), ErrorKind::Unauthorized);
    assert_eq!(WhitelistError::InvalidDeposit.kind(), ErrorKind::InvalidDeposit);
    assert_eq!(WhitelistError::EmptyProjectId.kind(), ErrorKind::InvalidInput);
    assert_eq!(WhitelistError::ProjectIdNotAlphanumeric.kind(), ErrorKind::InvalidInput);
    assert_eq!(WhitelistError::InvalidMetadata.kind(), ErrorKind::InvalidInput);
    assert_eq!(WhitelistError::ProjectIdOccupied.kind(), ErrorKind::Conflict);
    assert_eq!(
        WhitelistError::ContractClaimed { contract_id: "c".to_string(), project_id: "p".to_string() }
            .kind(),
        ErrorKind::Conflict
    );
    assert_eq!(WhitelistError::IdCollision.kind(), ErrorKind::Conflict);
    assert_eq!(WhitelistError::ProjectNotFound.kind(), ErrorKind::NotFound);
    assert_eq!(WhitelistError::ProposalNotFound.kind(), ErrorKind::NotFound);
    assert_eq!(WhitelistError::VoteNotFound.kind(), ErrorKind::VoteNotFound);
}
