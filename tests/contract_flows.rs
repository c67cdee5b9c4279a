use boundless_contract::contract::{BoundlessContract, TransferOutcome};
use boundless_contract::project::{FUNDING_PERIOD_LEDGERS, VOTING_PERIOD_LEDGERS};
use boundless_contract::{Address, Notification, ProjectError};

fn text(s: &str) -> String {
    String::from(s)
}

fn creator() -> Address {
    Address::from_str("GCREATOR")
}

fn other_user() -> Address {
    Address::from_str("GOTHERUSER")
}

fn setup_project(target: u64, milestones: u32) -> BoundlessContract {
    let mut c = BoundlessContract::new();
    c.create_project(
        text("test_project"),
        creator(),
        text("ipfs://example-metadata"),
        target,
        milestones,
    )
    .unwrap();
    c
}

/// Funds the way a host does: ask what moves, move it, then record it.
fn fund(c: &mut BoundlessContract, amount: u64, funder: &Address) -> Result<Notification, ProjectError> {
    let id = text("test_project");
    c.check_funding(&id, amount)?;
    c.fund_project(id, amount, funder.clone(), TransferOutcome::Completed)
}

#[test]
fn test_create_project_success() {
    let mut c = BoundlessContract::new();
    let project_id = text("test_project");
    let metadata_uri = text("ipfs://example-metadata");
    let funding_target: u64 = 1000;
    let milestone_count: u32 = 5;

    c.create_project(project_id.clone(), creator(), metadata_uri.clone(), funding_target, milestone_count)
        .unwrap();

    let project = c.get_project(&project_id).unwrap();
    assert_eq!(project.project_id, project_id);
    assert_eq!(project.creator, creator());
    assert_eq!(project.metadata_uri, metadata_uri);
    assert_eq!(project.funding_target, funding_target);
    assert_eq!(project.milestone_count, milestone_count);
    assert!(!project.is_closed);
}

#[test]
fn create_project_test_test_create_project_success() {
    let mut c = BoundlessContract::new();
    let project_id = text("test_project");
    let metadata_uri = text("ipfs://example-metadata");

    c.create_project(project_id.clone(), creator(), metadata_uri.clone(), 1000, 5).unwrap();

    let project = c.get_project(&project_id).expect("Project not found");
    assert_eq!(project.project_id, project_id);
    assert_eq!(project.creator, creator());
    assert_eq!(project.metadata_uri, metadata_uri);
    assert_eq!(project.funding_target, 1000);
    assert_eq!(project.milestone_count, 5);
    assert!(!project.is_closed);
}

#[test]
fn test_create_project_zero_funding_target_fails() {
    let mut c = BoundlessContract::new();
    let r = c.create_project(text("test_project"), creator(), text("ipfs://example-metadata"), 0, 3);
    let e = r.unwrap_err();
    assert_eq!(e, ProjectError::InvalidFundingTarget);
    assert_eq!(e.code(), 7);
    assert_eq!(c.get_project(&text("test_project")).unwrap_err(), ProjectError::NotFound);
}

#[test]
fn test_create_project_duplicate_id_fails() {
    let mut c = setup_project(1000, 5);
    let r = c.create_project(text("test_project"), creator(), text("ipfs://example-metadata"), 2000, 3);
    let e = r.unwrap_err();
    assert_eq!(e, ProjectError::AlreadyExists);
    assert_eq!(e.code(), 2);
    let project = c.get_project(&text("test_project")).unwrap();
    assert_eq!(project.funding_target, 1000);
    assert_eq!(project.milestone_count, 5);
}

#[test]
fn test_update_project_metadata_success() {
    let mut c = setup_project(1000, 5);
    let new_metadata_uri = text("ipfs://new-metadata");
    c.update_project_metadata(text("test_project"), creator(), new_metadata_uri.clone()).unwrap();
    let project = c.get_project(&text("test_project")).unwrap();
    assert_eq!(project.metadata_uri, new_metadata_uri);
}

#[test]
fn create_project_test_test_update_project_metadata_success() {
    let mut c = setup_project(1000, 5);
    c.update_project_metadata(text("test_project"), creator(), text("ipfs://new-metadata"))
        .unwrap();
    let project = c.get_project(&text("test_project")).expect("Project not found");
    assert_eq!(project.metadata_uri, text("ipfs://new-metadata"));
}

#[test]
fn test_update_project_metadata_wrong_creator_fails() {
    let mut c = setup_project(1000, 5);
    let e = c
        .update_project_metadata(text("test_project"), other_user(), text("ipfs://new-metadata"))
        .unwrap_err();
    assert_eq!(e, ProjectError::Unauthorized);
    assert_eq!(e.code(), 5);
    let project = c.get_project(&text("test_project")).unwrap();
    assert_eq!(project.metadata_uri, text("ipfs://example-metadata"));
}

#[test]
fn test_modify_milestone_success() {
    let mut c = setup_project(1000, 4);
    c.modify_milestone(text("test_project"), creator(), 10).unwrap();
    let project = c.get_project(&text("test_project")).unwrap();
    assert_eq!(10, project.milestone_count);
}

#[test]
fn create_project_test_test_modify_milestone_success() {
    let mut c = setup_project(1000, 5);
    c.modify_milestone(text("test_project"), creator(), 10).unwrap();
    let project = c.get_project(&text("test_project")).expect("Project not found");
    assert_eq!(project.milestone_count, 10);
}

#[test]
fn test_modify_milestone_wrong_caller_fails() {
    let mut c = setup_project(1000, 5);
    let e = c.modify_milestone(text("test_project"), other_user(), 10).unwrap_err();
    assert_eq!(e, ProjectError::Unauthorized);
    assert_eq!(e.code(), 5);
    assert_eq!(c.get_project(&text("test_project")).unwrap().milestone_count, 5);
}

#[test]
fn test_close_project_success() {
    let mut c = setup_project(1000, 5);
    c.close_project(text("test_project"), creator()).unwrap();
    let project = c.get_project(&text("test_project")).expect("Project not found");
    assert!(project.is_closed);
}

#[test]
fn test_close_project_wrong_caller_fails() {
    let mut c = setup_project(1000, 5);
    let e = c.close_project(text("test_project"), other_user()).unwrap_err();
    assert_eq!(e, ProjectError::Unauthorized);
    assert_eq!(e.code(), 5);
    assert!(!c.get_project(&text("test_project")).unwrap().is_closed);
}

#[test]
fn test_initialization() {
    let mut c = BoundlessContract::new();
    let admin = Address::from_str("GADMIN");
    c.initialize(admin.clone()).unwrap();
    assert_eq!(1, c.get_version());
    assert_eq!(admin, c.get_admin().unwrap());
}

#[test]
fn test_cannot_reinitialize() {
    let mut c = BoundlessContract::new();
    let admin = Address::from_str("GADMIN");
    c.initialize(admin.clone()).unwrap();
    let e = c.initialize(admin).unwrap_err();
    assert_eq!(e, ProjectError::AlreadyInitialized);
    assert_eq!(e.code(), 100);
}

#[test]
fn test_project_deadlines() {
    let mut c = BoundlessContract::new();
    c.initialize(Address::from_str("GADMIN")).unwrap();
    c.create_project(text("test_project"), creator(), text("ipfs://example-metadata"), 1000, 5)
        .unwrap();
    let project = c.get_project(&text("test_project")).unwrap();
    assert_eq!(project.funding_deadline, project.created_at + FUNDING_PERIOD_LEDGERS as u64);
    assert_eq!(project.voting_deadline, project.funding_deadline + VOTING_PERIOD_LEDGERS as u64);
}

#[test]
fn test_funding_operations() {
    let mut c = setup_project(1000, 2);
    c.initialize(Address::from_str("GADMIN")).unwrap();
    let funder = Address::from_str("GFUNDER");

    fund(&mut c, 500, &funder).unwrap();
    let (total_funded, target) = c.get_project_funding(&text("test_project")).unwrap();
    assert_eq!(total_funded, 500);
    assert_eq!(target, 1000);

    let contribution = c.get_backer_contribution(&text("test_project"), &funder).unwrap();
    assert_eq!(contribution, 500);

    fund(&mut c, 600, &funder).unwrap();
    let (total_funded, _) = c.get_project_funding(&text("test_project")).unwrap();
    assert_eq!(total_funded, 1000);
}

#[test]
fn test_refund() {
    let mut c = setup_project(1000, 2);
    c.initialize(Address::from_str("GADMIN")).unwrap();
    let funder = Address::from_str("GFUNDER");
    fund(&mut c, 500, &funder).unwrap();

    let before = c.ledger_timestamp();
    let after = before + 31 * 17280;
    c.set_ledger_timestamp(after);

    let transfers = c.refund_transfers(&text("test_project")).unwrap();
    assert_eq!(transfers, vec![(funder.clone(), 500)]);
    c.refund(text("test_project"), TransferOutcome::Completed).unwrap();

    let project = c.get_project(&text("test_project")).unwrap();
    assert!(project.refund_processed);
    assert!(project.is_closed);
    let returned: u64 = transfers.iter().filter(|t| t.0 == funder).map(|t| t.1).sum();
    assert_eq!(returned, 500);
}

#[test]
fn test_unauthorized_milestone_approval() {
    let mut c = BoundlessContract::new();
    c.initialize(Address::from_str("GADMIN")).unwrap();
    c.create_project(text("test_project"), creator(), text("ipfs://example-metadata"), 1000, 2)
        .unwrap();
    let e = c
        .approve_milestone(text("test_project"), 0, Address::from_str("GNONADMIN"))
        .unwrap_err();
    assert_eq!(e, ProjectError::Unauthorized);
    assert_eq!(e.code(), 5);
}

#[test]
fn test_unauthorized_milestone_release() {
    let mut c = BoundlessContract::new();
    c.initialize(Address::from_str("GADMIN")).unwrap();
    c.create_project(text("test_project"), creator(), text("ipfs://example-metadata"), 1000, 2)
        .unwrap();
    let e = c
        .release_milestone(text("test_project"), 0, Address::from_str("GNONADMIN"))
        .unwrap_err();
    assert_eq!(e, ProjectError::Unauthorized);
    assert_eq!(e.code(), 5);
}

#[test]
fn test_voting() {
    let mut c = setup_project(1000, 5);
    let voter = Address::from_str("GVOTER");
    let id = text("test_project");

    assert_eq!(c.has_voted(&id, &voter).unwrap(), false);

    c.vote_project(id.clone(), voter.clone(), 1).unwrap();
    assert_eq!(c.has_voted(&id, &voter).unwrap(), true);
    assert_eq!(c.get_vote(&id, &voter).unwrap(), 1);

    c.withdraw_vote(id.clone(), voter.clone()).unwrap();
    assert_eq!(c.has_voted(&id, &voter).unwrap(), false);
}
