//! Properties that hold across operations, stated over the models and proved.
use vstd::prelude::*;

use crate::contract::{create_check, ContractView};
use crate::error::ProjectError;
use crate::project::{
    amounts_total, capped_contribution, close_step, decide_step, fund_step, has_vote,
    lemma_first_vote_unique, lemma_total_push, milestone_count_step, new_project_view,
    refund_check, refund_step, release_step, update_metadata_step, vote_step, withdraw_step,
    ProjectView,
};

verus! {

/// A creation succeeds only with a positive target, at least one milestone and a fresh
/// id, and then leaves a well-formed state holding one more record; a zero target
/// always fails with `InvalidFundingTarget`, a taken id (with a positive target) with
/// `AlreadyExists`, and no milestones (otherwise valid) with `InvalidMilestoneNumber`.
pub proof fn lemma_create_validates(
    s: ContractView,
    project_id: Seq<char>,
    creator: Seq<char>,
    metadata_uri: Seq<char>,
    funding_target: u64,
    milestone_count: u32,
)
    requires
        s.wf(),
    ensures
        funding_target == 0 ==> create_check(s, project_id, funding_target, milestone_count) == Err::<
            (),
            ProjectError,
        >(ProjectError::InvalidFundingTarget),
        funding_target > 0 && s.projects.contains_key(project_id) ==> create_check(
            s,
            project_id,
            funding_target,
            milestone_count,
        ) == Err::<(), ProjectError>(ProjectError::AlreadyExists),
        funding_target > 0 && !s.projects.contains_key(project_id) && milestone_count == 0
            ==> create_check(s, project_id, funding_target, milestone_count) == Err::<
            (),
            ProjectError,
        >(ProjectError::InvalidMilestoneNumber),
        create_check(s, project_id, funding_target, milestone_count) is Ok ==> {
            let t = s.with_project(
                new_project_view(
                    project_id,
                    creator,
                    metadata_uri,
                    funding_target,
                    milestone_count,
                    s.now,
                ),
            );
            &&& funding_target > 0
            &&& milestone_count > 0
            &&& !s.projects.contains_key(project_id)
            &&& t.wf()
            &&& t.projects.dom() == s.projects.dom().insert(project_id)
        },
{
    if create_check(s, project_id, funding_target, milestone_count) is Ok {
        let p = new_project_view(
            project_id,
            creator,
            metadata_uri,
            funding_target,
            milestone_count,
            s.now,
        );
        let t = s.with_project(p);
        assert(p.backers =~= Seq::<(Seq<char>, u64)>::empty());
        assert(amounts_total(p.backers) == 0);
        assert(p.wf());
        assert(t.projects.dom() =~= s.projects.dom().insert(project_id));
    }
}

/// A contribution never takes the total past the target, whatever amount is asked:
/// it credits at most the amount asked, exactly what was missing when the ask exceeds
/// it, and keeps the record well formed.
pub proof fn lemma_fund_within_target(p: ProjectView, amount: u64, funder: Seq<char>, now: u64)
    requires
        p.wf(),
    ensures
        fund_step(p, amount, funder, now) matches Ok(q) ==> {
            &&& q.wf()
            &&& q.total_funded <= q.funding_target
            &&& q.total_funded == p.total_funded + capped_contribution(p, amount)
            &&& capped_contribution(p, amount) <= amount
            &&& amount >= p.funding_target - p.total_funded ==> q.total_funded == q.funding_target
        },
{
    if fund_step(p, amount, funder, now) is Ok {
        lemma_total_push(p.backers, (funder, capped_contribution(p, amount)));
    }
}

/// Releasing a milestone keeps `current_milestone` within `milestone_count` and sets
/// `is_successful` exactly when `current_milestone` reaches `milestone_count` (it is
/// never cleared). With `lemma_milestones_untouched` and the invariant `wf`, which
/// every operation keeps, `0 <= current_milestone <= milestone_count` holds at all times.
pub proof fn lemma_release_progress(p: ProjectView, index: u32)
    requires
        p.wf(),
    ensures
        release_step(p, index) matches Ok(q) ==> {
            &&& q.wf()
            &&& q.current_milestone == index + 1
            &&& q.current_milestone <= q.milestone_count
            &&& q.milestone_count == p.milestone_count
            &&& q.is_successful == (p.is_successful || q.current_milestone == q.milestone_count)
        },
{
    if release_step(p, index) is Ok {
        let q = release_step(p, index).unwrap();
        assert forall|i: int| 0 <= i < q.milestone_releases.len() implies #[trigger] crate::project::is_approved(
            q.milestone_approvals,
            q.milestone_releases[i].0,
        ) by {
            if i < p.milestone_releases.len() {
                assert(q.milestone_releases[i] == p.milestone_releases[i]);
            }
        }
        assert forall|i: int, j: int|
            0 <= i < q.milestone_releases.len() && 0 <= j < q.milestone_releases.len() && i != j
        implies q.milestone_releases[i].0 != q.milestone_releases[j].0 by {
            if i < p.milestone_releases.len() && j < p.milestone_releases.len() {
            } else if i < p.milestone_releases.len() {
                assert(q.milestone_releases[i] == p.milestone_releases[i]);
            } else {
                assert(q.milestone_releases[j] == p.milestone_releases[j]);
            }
        }
    }
}

/// No operation but a release or a milestone-count change moves `current_milestone`,
/// `milestone_count` or `is_successful`. A count change refuses a count below
/// `current_milestone` and sets `is_successful` exactly when the new count equals a
/// positive `current_milestone`; so `current_milestone` stays within `milestone_count`
/// and `is_successful` becomes true exactly when `current_milestone` reaches it.
pub proof fn lemma_milestones_untouched(
    p: ProjectView,
    caller: Seq<char>,
    uri: Seq<char>,
    count: u32,
    amount: u64,
    now: u64,
    index: u32,
    approved: bool,
    value: i32,
)
    ensures
        update_metadata_step(p, caller, uri) matches Ok(q) ==> same_milestones(p, q),
        close_step(p, caller) matches Ok(q) ==> same_milestones(p, q),
        fund_step(p, amount, caller, now) matches Ok(q) ==> same_milestones(p, q),
        refund_step(p, now) matches Ok(q) ==> same_milestones(p, q),
        decide_step(p, index, approved) matches Ok(q) ==> same_milestones(p, q),
        vote_step(p, caller, value) matches Ok(q) ==> same_milestones(p, q),
        withdraw_step(p, caller) matches Ok(q) ==> same_milestones(p, q),
        milestone_count_step(p, caller, count) matches Ok(q) ==> {
            &&& q.current_milestone == p.current_milestone
            &&& q.is_successful == (p.is_successful || (q.current_milestone > 0
                && q.current_milestone == q.milestone_count))
            &&& q.milestone_count == count
            &&& q.current_milestone <= q.milestone_count
        },
        count < p.current_milestone ==> milestone_count_step(p, caller, count) is Err,
{
}

/// Whether two records agree on milestone progress.
pub open spec fn same_milestones(p: ProjectView, q: ProjectView) -> bool {
    &&& q.current_milestone == p.current_milestone
    &&& q.milestone_count == p.milestone_count
    &&& q.is_successful == p.is_successful
}

/// Voting and then withdrawing that vote gives back the state before the vote; while
/// a principal has a vote, a second one is refused.
pub proof fn lemma_vote_withdraw_inverse(
    s: ContractView,
    project_id: Seq<char>,
    voter: Seq<char>,
    value: i32,
    second: i32,
)
    requires
        s.wf(),
    ensures
        s.on_project(project_id, |p: ProjectView| vote_step(p, voter, value)) matches Ok(t) ==> {
            &&& t.wf()
            &&& has_vote(t.projects[project_id].votes, voter)
            &&& (second == 1 || second == -1) ==> t.on_project(
                project_id,
                |p: ProjectView| vote_step(p, voter, second),
            ) == Err::<ContractView, ProjectError>(ProjectError::AlreadyVoted)
            &&& t.on_project(project_id, |p: ProjectView| withdraw_step(p, voter)) == Ok::<
                ContractView,
                ProjectError,
            >(s)
        },
{
    let vote = |p: ProjectView| vote_step(p, voter, value);
    if s.on_project(project_id, vote) is Ok {
        let p = s.projects[project_id];
        let q = vote_step(p, voter, value).unwrap();
        let t = s.with_project(q);
        let n = p.votes.len() as int;
        assert(q.votes[n].0 == voter);
        assert forall|j: int| 0 <= j < n implies q.votes[j].0 != voter by {
            assert(q.votes[j] == p.votes[j]);
        }
        lemma_first_vote_unique(q.votes, voter, n);
        assert(q.votes.remove(n) =~= p.votes);
        assert(withdraw_step(q, voter) == Ok::<ProjectView, ProjectError>(p));
        assert(t.projects[project_id] == q);
        assert(t.with_project(p).projects =~= s.projects);
        assert(t.with_project(p) =~= s);
        assert(q.wf());
        assert forall|k: Seq<char>| #[trigger] t.projects.contains_key(k) implies t.projects[k].wf()
            && t.projects[k].project_id == k by {
            if k != project_id {
                assert(s.projects.contains_key(k));
            }
        }
    }
}

/// Once a refund has gone through, every later refund of the same project fails with
/// `RefundAlreadyProcessed`, so no transfer is asked for twice.
pub proof fn lemma_refund_once(s: ContractView, project_id: Seq<char>, later: u64)
    requires
        s.wf(),
        later >= s.now,
    ensures
        s.on_project(project_id, |p: ProjectView| refund_step(p, s.now)) matches Ok(t) ==> {
            &&& t.projects[project_id].refund_processed
            &&& t.projects[project_id].is_closed
            &&& refund_check(t.projects[project_id], later) == Err::<(), ProjectError>(
                ProjectError::RefundAlreadyProcessed,
            )
            &&& t.on_project(project_id, |p: ProjectView| refund_step(p, later)) == Err::<
                ContractView,
                ProjectError,
            >(ProjectError::RefundAlreadyProcessed)
        },
{
}

} // verus!
