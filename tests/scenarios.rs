use boundless_contract::contract::{BoundlessContract, TransferOutcome};
use boundless_contract::project::{DAY_IN_LEDGERS, FUNDING_PERIOD_LEDGERS};
use boundless_contract::{Address, Notification, ProjectError};

const ID: &str = "campaign";

fn id() -> String {
    String::from(ID)
}

fn admin() -> Address {
    Address::from_str("GADMIN")
}

fn creator() -> Address {
    Address::from_str("GCREATOR")
}

fn contract(target: u64, milestones: u32) -> BoundlessContract {
    let mut c = BoundlessContract::new();
    c.initialize(admin()).unwrap();
    c.create_project(id(), creator(), String::from("ipfs://meta"), target, milestones).unwrap();
    c
}

fn fund(c: &mut BoundlessContract, amount: u64, funder: &Address) -> Result<Notification, ProjectError> {
    c.check_funding(&id(), amount)?;
    c.fund_project(id(), amount, funder.clone(), TransferOutcome::Completed)
}

fn past_deadline(c: &mut BoundlessContract) {
    let deadline = c.get_project(&id()).unwrap().funding_deadline;
    c.set_ledger_timestamp(deadline + 1);
}

#[test]
fn scenario_funding_is_capped_at_target() {
    let mut c = contract(1000, 2);
    let funder = Address::from_str("GFUNDER");
    fund(&mut c, 500, &funder).unwrap();
    assert_eq!(c.get_project_funding(&id()).unwrap(), (500, 1000));
    assert_eq!(c.check_funding(&id(), 600), Ok(500));
    match fund(&mut c, 600, &funder).unwrap() {
        Notification::Funded { amount, .. } => assert_eq!(amount, 500),
        other => panic!("unexpected notification {:?}", other),
    }
    assert_eq!(c.get_project_funding(&id()).unwrap(), (1000, 1000));
    let project = c.get_project(&id()).unwrap();
    assert_eq!(project.backers, vec![(funder.clone(), 500), (funder.clone(), 500)]);
    assert_eq!(fund(&mut c, 1, &funder).unwrap_err(), ProjectError::FundingTargetReached);
}

#[test]
fn scenario_milestones_release_in_turn() {
    let mut c = contract(1000, 2);
    c.approve_milestone(id(), 0, admin()).unwrap();
    match c.release_milestone(id(), 0, admin()).unwrap() {
        Notification::MilestoneReleased { index, amount, .. } => {
            assert_eq!(index, 0);
            assert_eq!(amount, 500);
        },
        other => panic!("unexpected notification {:?}", other),
    }
    let p = c.get_project(&id()).unwrap();
    assert_eq!(p.current_milestone, 1);
    assert!(!p.is_successful);
    c.approve_milestone(id(), 1, admin()).unwrap();
    c.release_milestone(id(), 1, admin()).unwrap();
    let p = c.get_project(&id()).unwrap();
    assert_eq!(p.current_milestone, 2);
    assert!(p.is_successful);
    assert_eq!(p.milestone_releases, vec![(0, 500), (1, 500)]);
}

#[test]
fn scenario_one_vote_per_principal() {
    let mut c = contract(1000, 2);
    let voter = Address::from_str("GVOTERA");
    c.vote_project(id(), voter.clone(), 1).unwrap();
    assert_eq!(c.vote_project(id(), voter.clone(), -1).unwrap_err(), ProjectError::AlreadyVoted);
    c.withdraw_vote(id(), voter.clone()).unwrap();
    assert_eq!(c.withdraw_vote(id(), voter.clone()).unwrap_err(), ProjectError::NotVoted);
}

#[test]
fn scenario_refund_after_deadline_once() {
    let mut c = contract(1000, 2);
    let funder = Address::from_str("GFUNDER");
    fund(&mut c, 500, &funder).unwrap();
    past_deadline(&mut c);
    let transfers = c.refund_transfers(&id()).unwrap();
    assert_eq!(transfers, vec![(funder.clone(), 500)]);
    match c.refund(id(), TransferOutcome::Completed).unwrap() {
        Notification::Refunded { amount, .. } => assert_eq!(amount, 500),
        other => panic!("unexpected notification {:?}", other),
    }
    let p = c.get_project(&id()).unwrap();
    assert!(p.refund_processed);
    assert!(p.is_closed);
    assert_eq!(c.refund(id(), TransferOutcome::Completed).unwrap_err(), ProjectError::RefundAlreadyProcessed);
    assert_eq!(c.refund_transfers(&id()).unwrap_err(), ProjectError::RefundAlreadyProcessed);
}

#[test]
fn scenario_release_needs_approval_and_decisions_are_final() {
    let mut c = contract(1000, 2);
    assert_eq!(c.release_milestone(id(), 0, admin()).unwrap_err(), ProjectError::MilestoneNotApproved);
    c.approve_milestone(id(), 0, admin()).unwrap();
    assert_eq!(c.reject_milestone(id(), 0, admin()).unwrap_err(), ProjectError::MilestoneAlreadyCompleted);
}

#[test]
fn rejected_milestone_cannot_be_released_or_approved() {
    let mut c = contract(1000, 2);
    c.reject_milestone(id(), 1, admin()).unwrap();
    assert_eq!(c.get_project(&id()).unwrap().milestone_approvals, vec![(1, false)]);
    assert_eq!(c.approve_milestone(id(), 1, admin()).unwrap_err(), ProjectError::MilestoneAlreadyCompleted);
    assert_eq!(c.release_milestone(id(), 1, admin()).unwrap_err(), ProjectError::MilestoneNotApproved);
}

#[test]
fn release_out_of_order_jumps_ahead() {
    let mut c = contract(1000, 3);
    c.approve_milestone(id(), 2, admin()).unwrap();
    c.release_milestone(id(), 2, admin()).unwrap();
    let p = c.get_project(&id()).unwrap();
    assert_eq!(p.current_milestone, 3);
    assert!(p.is_successful);
    assert_eq!(p.milestone_releases, vec![(2, 333)]);
}

#[test]
fn release_twice_and_out_of_range() {
    let mut c = contract(1000, 2);
    c.approve_milestone(id(), 0, admin()).unwrap();
    c.release_milestone(id(), 0, admin()).unwrap();
    assert_eq!(c.release_milestone(id(), 0, admin()).unwrap_err(), ProjectError::MilestoneAlreadyCompleted);
    assert_eq!(c.release_milestone(id(), 2, admin()).unwrap_err(), ProjectError::InvalidMilestoneNumber);
    assert_eq!(c.approve_milestone(id(), 7, admin()).unwrap_err(), ProjectError::InvalidMilestoneNumber);
}

#[test]
fn milestone_decisions_need_initialization() {
    let mut c = BoundlessContract::new();
    c.create_project(id(), creator(), String::from("ipfs://meta"), 1000, 2).unwrap();
    assert_eq!(c.approve_milestone(id(), 0, admin()).unwrap_err(), ProjectError::NotInitialized);
    assert_eq!(c.get_admin().unwrap_err(), ProjectError::NotInitialized);
    assert_eq!(c.upgrade(&admin()).unwrap_err(), ProjectError::NotInitialized);
}

#[test]
fn missing_project_is_not_found() {
    let mut c = BoundlessContract::new();
    c.initialize(admin()).unwrap();
    let who = Address::from_str("GX");
    assert_eq!(c.get_project(&id()).unwrap_err(), ProjectError::NotFound);
    assert_eq!(c.approve_milestone(id(), 0, who.clone()).unwrap_err(), ProjectError::NotFound);
    assert_eq!(c.vote_project(id(), who.clone(), 1).unwrap_err(), ProjectError::NotFound);
    assert_eq!(c.close_project(id(), who.clone()).unwrap_err(), ProjectError::NotFound);
    assert_eq!(c.has_voted(&id(), &who).unwrap_err(), ProjectError::NotFound);
    assert_eq!(c.check_funding(&id(), 5).unwrap_err(), ProjectError::NotFound);
    assert_eq!(c.refund(id(), TransferOutcome::Completed).unwrap_err(), ProjectError::NotFound);
    assert!(!c.project_exists(&id()));
}

#[test]
fn invalid_vote_values_are_refused() {
    let mut c = contract(1000, 2);
    let voter = Address::from_str("GVOTER");
    let e = c.vote_project(id(), voter.clone(), 0).unwrap_err();
    assert_eq!(e, ProjectError::InvalidVote);
    assert_eq!(e.code(), 8);
    assert_eq!(c.vote_project(id(), voter.clone(), 2).unwrap_err(), ProjectError::InvalidVote);
    assert_eq!(c.get_vote(&id(), &voter).unwrap_err(), ProjectError::NotVoted);
    c.vote_project(id(), voter.clone(), -1).unwrap();
    assert_eq!(c.get_vote(&id(), &voter).unwrap(), -1);
}

#[test]
fn vote_then_withdraw_restores_votes() {
    let mut c = contract(1000, 2);
    let a = Address::from_str("GA");
    let b = Address::from_str("GB");
    c.vote_project(id(), a.clone(), 1).unwrap();
    let before = c.get_project(&id()).unwrap().votes.clone();
    c.vote_project(id(), b.clone(), -1).unwrap();
    c.withdraw_vote(id(), b.clone()).unwrap();
    assert_eq!(c.get_project(&id()).unwrap().votes, before);
    assert!(!c.has_voted(&id(), &b).unwrap());
    c.vote_project(id(), b.clone(), 1).unwrap();
    assert_eq!(c.get_vote(&id(), &b).unwrap(), 1);
}

#[test]
fn funding_checks_in_order() {
    let mut c = contract(1000, 2);
    let funder = Address::from_str("GFUNDER");
    assert_eq!(fund(&mut c, 0, &funder).unwrap_err(), ProjectError::InvalidAmount);
    c.set_ledger_timestamp(FUNDING_PERIOD_LEDGERS as u64 + 1);
    assert_eq!(fund(&mut c, 10, &funder).unwrap_err(), ProjectError::FundingDeadlinePassed);
    c.close_project(id(), creator()).unwrap();
    assert_eq!(fund(&mut c, 10, &funder).unwrap_err(), ProjectError::ProjectClosed);
    assert_eq!(fund(&mut c, 0, &funder).unwrap_err(), ProjectError::InvalidAmount);
}

#[test]
fn failed_transfer_leaves_state_unchanged() {
    let mut c = contract(1000, 2);
    let funder = Address::from_str("GFUNDER");
    let e = c.fund_project(id(), 300, funder.clone(), TransferOutcome::Failed).unwrap_err();
    assert_eq!(e, ProjectError::InsufficientFunds);
    assert_eq!(c.get_project_funding(&id()).unwrap(), (0, 1000));
    assert!(c.get_project(&id()).unwrap().backers.is_empty());
    assert_eq!(
        c.fund_project(id(), 0, funder.clone(), TransferOutcome::Failed).unwrap_err(),
        ProjectError::InvalidAmount
    );
}

#[test]
fn refund_checks_and_retry() {
    let mut c = contract(1000, 2);
    let funder = Address::from_str("GFUNDER");
    past_deadline(&mut c);
    assert_eq!(c.refund(id(), TransferOutcome::Completed).unwrap_err(), ProjectError::NoFundsToRefund);

    let mut c = contract(1000, 2);
    fund(&mut c, 400, &funder).unwrap();
    fund(&mut c, 100, &Address::from_str("GOTHER")).unwrap();
    fund(&mut c, 50, &funder).unwrap();
    assert_eq!(c.refund(id(), TransferOutcome::Completed).unwrap_err(), ProjectError::ProjectNotFailed);
    past_deadline(&mut c);
    assert_eq!(c.refund(id(), TransferOutcome::Failed).unwrap_err(), ProjectError::InsufficientFunds);
    assert!(!c.get_project(&id()).unwrap().refund_processed);
    let transfers = c.refund_transfers(&id()).unwrap();
    assert_eq!(
        transfers,
        vec![(funder.clone(), 400), (Address::from_str("GOTHER"), 100), (funder.clone(), 50)]
    );
    assert_eq!(c.get_backer_contribution(&id(), &funder).unwrap(), 450);
    c.refund(id(), TransferOutcome::Completed).unwrap();
    assert!(c.get_project(&id()).unwrap().is_closed);
}

#[test]
fn fully_funded_project_never_refunds() {
    let mut c = contract(1000, 2);
    fund(&mut c, 5000, &Address::from_str("GFUNDER")).unwrap();
    past_deadline(&mut c);
    assert_eq!(c.refund(id(), TransferOutcome::Completed).unwrap_err(), ProjectError::ProjectNotFailed);
}

#[test]
fn closed_project_refuses_edits() {
    let mut c = contract(1000, 2);
    c.close_project(id(), creator()).unwrap();
    assert_eq!(c.close_project(id(), creator()).unwrap_err(), ProjectError::ProjectClosed);
    assert_eq!(
        c.update_project_metadata(id(), creator(), String::from("x")).unwrap_err(),
        ProjectError::ProjectClosed
    );
    assert_eq!(c.update_project_mile(id(), creator(), 4).unwrap_err(), ProjectError::ProjectClosed);
    assert_eq!(
        c.modify_milestone(id(), Address::from_str("GOTHER"), 4).unwrap_err(),
        ProjectError::Unauthorized
    );
}

#[test]
fn update_project_mile_sets_count() {
    let mut c = contract(1000, 2);
    match c.update_project_mile(id(), creator(), 6).unwrap() {
        Notification::MilestoneCountChanged { milestone_count, .. } => assert_eq!(milestone_count, 6),
        other => panic!("unexpected notification {:?}", other),
    }
    assert_eq!(c.get_project(&id()).unwrap().milestone_count, 6);
}

#[test]
fn upgrade_bumps_version_for_admin_only() {
    let mut c = BoundlessContract::new();
    assert_eq!(c.get_version(), 1);
    c.initialize(admin()).unwrap();
    assert_eq!(c.upgrade(&Address::from_str("GOTHER")).unwrap_err(), ProjectError::Unauthorized);
    match c.upgrade(&admin()).unwrap() {
        Notification::Upgraded { version } => assert_eq!(version, 2),
        other => panic!("unexpected notification {:?}", other),
    }
    assert_eq!(c.get_version(), 2);
}

#[test]
fn ledger_time_only_moves_forward() {
    let mut c = BoundlessContract::new();
    c.set_ledger_timestamp(100);
    c.set_ledger_timestamp(40);
    assert_eq!(c.ledger_timestamp(), 100);
    c.create_project(id(), creator(), String::from("m"), 10, 1).unwrap();
    let p = c.get_project(&id()).unwrap();
    assert_eq!(p.created_at, 100);
    assert_eq!(p.funding_deadline, 100 + 30 * DAY_IN_LEDGERS as u64);
}

#[test]
fn creation_near_end_of_time_overflows() {
    let mut c = BoundlessContract::new();
    c.set_ledger_timestamp(u64::MAX - 5);
    let e = c.create_project(id(), creator(), String::from("m"), 10, 1).unwrap_err();
    assert_eq!(e, ProjectError::OverOrUnderFlow);
    assert_eq!(e.code(), 4);
    assert!(!c.project_exists(&id()));
}

#[test]
fn created_notification_names_project_and_creator() {
    let mut c = BoundlessContract::new();
    match c.create_project(id(), creator(), String::from("m"), 10, 1).unwrap() {
        Notification::ProjectCreated { project_id, creator: who } => {
            assert_eq!(project_id, id());
            assert_eq!(who.as_str(), "GCREATOR");
        },
        other => panic!("unexpected notification {:?}", other),
    }
}

#[test]
fn error_codes_match_host_numbers() {
    assert_eq!(ProjectError::NotFound.code(), 1);
    assert_eq!(ProjectError::NotInitialized.code(), 101);
    assert_eq!(ProjectError::UpgradeFailed.code(), 400);
    assert_eq!(ProjectError::MilestoneAlreadyCompleted.code(), 12);
    assert_eq!(ProjectError::MilestoneNotApproved.code(), 13);
    assert_eq!(ProjectError::NoFundsToRefund.code(), 14);
    assert_eq!(ProjectError::ProjectNotFailed.code(), 15);
    assert_eq!(ProjectError::RefundAlreadyProcessed.code(), 16);
    assert_eq!(ProjectError::InvalidAmount.code(), 17);
    assert_eq!(ProjectError::FundingTargetReached.code(), 19);
    assert_eq!(ProjectError::FundingDeadlinePassed.code(), 20);
    assert_eq!(ProjectError::InsufficientFunds.code(), 21);
}

#[test]
fn milestone_count_never_drops_below_progress() {
    let mut c = contract(1000, 2);
    c.approve_milestone(id(), 1, admin()).unwrap();
    c.release_milestone(id(), 1, admin()).unwrap();
    assert_eq!(c.get_project(&id()).unwrap().current_milestone, 2);
    let e = c.modify_milestone(id(), creator(), 1).unwrap_err();
    assert_eq!(e, ProjectError::InvalidMilestoneNumber);
    assert_eq!(e.code(), 11);
    assert_eq!(c.update_project_mile(id(), creator(), 0).unwrap_err(), ProjectError::InvalidMilestoneNumber);
    let p = c.get_project(&id()).unwrap();
    assert_eq!(p.milestone_count, 2);
    assert_eq!(p.current_milestone, 2);
    c.modify_milestone(id(), creator(), 2).unwrap();
    c.modify_milestone(id(), creator(), 4).unwrap();
    assert_eq!(c.get_project(&id()).unwrap().milestone_count, 4);
}

#[test]
fn creation_needs_a_milestone() {
    let mut c = BoundlessContract::new();
    let e = c.create_project(id(), creator(), String::from("m"), 1000, 0).unwrap_err();
    assert_eq!(e, ProjectError::InvalidMilestoneNumber);
    assert!(!c.project_exists(&id()));
    assert_eq!(
        c.create_project(id(), creator(), String::from("m"), 0, 0).unwrap_err(),
        ProjectError::InvalidFundingTarget
    );
}

#[test]
fn taken_id_wins_over_zero_milestones() {
    let mut c = contract(1000, 2);
    let e = c.create_project(id(), creator(), String::from("m"), 1000, 0).unwrap_err();
    assert_eq!(e, ProjectError::AlreadyExists);
    assert_eq!(c.get_project(&id()).unwrap().milestone_count, 2);
}

#[test]
fn lowering_count_to_progress_marks_success() {
    let mut c = contract(1000, 2);
    c.approve_milestone(id(), 0, admin()).unwrap();
    c.release_milestone(id(), 0, admin()).unwrap();
    assert!(!c.get_project(&id()).unwrap().is_successful);
    c.modify_milestone(id(), creator(), 1).unwrap();
    let p = c.get_project(&id()).unwrap();
    assert_eq!(p.milestone_count, 1);
    assert_eq!(p.current_milestone, 1);
    assert!(p.is_successful);
}
