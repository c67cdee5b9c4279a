use vstd::prelude::*;

use crate::address::Address;
use crate::error::ProjectError;

verus! {

/// Ledgers closed in one day, at about five seconds per ledger.
pub const DAY_IN_LEDGERS: u32 = 17280;

/// How long after creation a project accepts contributions.
pub const FUNDING_PERIOD_LEDGERS: u32 = 30 * DAY_IN_LEDGERS;

/// How long after the funding deadline the governance window stays open.
pub const VOTING_PERIOD_LEDGERS: u32 = 7 * DAY_IN_LEDGERS;

/// The mathematical model of a project record.
///
/// Principals and strings are their character sequences; the lists keep
/// their order of insertion.
#[verifier::ext_equal]
pub struct ProjectView {
    pub project_id: Seq<char>,
    pub creator: Seq<char>,
    pub metadata_uri: Seq<char>,
    pub funding_target: u64,
    pub milestone_count: u32,
    pub current_milestone: u32,
    pub total_funded: u64,
    pub backers: Seq<(Seq<char>, u64)>,
    pub votes: Seq<(Seq<char>, i32)>,
    pub milestone_approvals: Seq<(u32, bool)>,
    pub milestone_releases: Seq<(u32, u64)>,
    pub validated: bool,
    pub is_successful: bool,
    pub is_closed: bool,
    pub refund_processed: bool,
    pub created_at: u64,
    pub funding_deadline: u64,
    pub voting_deadline: u64,
}

/// Sum of the amounts of a list of contributions.
pub open spec fn amounts_total(s: Seq<(Seq<char>, u64)>) -> int
    decreases s.len(),
{
    if s.len() == 0 {
        0
    } else {
        amounts_total(s.drop_last()) + s.last().1
    }
}

/// Sum of the amounts that `who` contributed, over all of its entries.
pub open spec fn contribution_of(s: Seq<(Seq<char>, u64)>, who: Seq<char>) -> int
    decreases s.len(),
{
    if s.len() == 0 {
        0
    } else {
        contribution_of(s.drop_last(), who) + if s.last().0 == who {
            s.last().1 as int
        } else {
            0
        }
    }
}

/// Whether `who` has a vote entry.
pub open spec fn has_vote(votes: Seq<(Seq<char>, i32)>, who: Seq<char>) -> bool {
    exists|i: int| 0 <= i < votes.len() && votes[i].0 == who
}

/// Whether `i` is the first position at which `who` has voted.
pub open spec fn is_first_vote(votes: Seq<(Seq<char>, i32)>, who: Seq<char>, i: int) -> bool {
    &&& 0 <= i < votes.len()
    &&& votes[i].0 == who
    &&& forall|j: int| 0 <= j < i ==> votes[j].0 != who
}

/// The position of the first vote entry of `who` (meaningful when it has one).
pub open spec fn first_vote_index(votes: Seq<(Seq<char>, i32)>, who: Seq<char>) -> int {
    choose|i: int| is_first_vote(votes, who, i)
}

/// Whether the list of votes holds at most one entry per principal, each +1 or -1.
pub open spec fn votes_wf(votes: Seq<(Seq<char>, i32)>) -> bool {
    &&& forall|i: int, j: int|
        0 <= i < votes.len() && 0 <= j < votes.len() && i != j ==> votes[i].0 != votes[j].0
    &&& forall|i: int| 0 <= i < votes.len() ==> (votes[i].1 == 1 || votes[i].1 == -1)
}

/// Whether milestone `index` has been approved or rejected.
pub open spec fn is_decided(approvals: Seq<(u32, bool)>, index: u32) -> bool {
    exists|i: int| 0 <= i < approvals.len() && approvals[i].0 == index
}

/// Whether milestone `index` has been approved.
pub open spec fn is_approved(approvals: Seq<(u32, bool)>, index: u32) -> bool {
    exists|i: int| 0 <= i < approvals.len() && approvals[i] == (index, true)
}

/// Whether milestone `index` has been released.
pub open spec fn is_released(releases: Seq<(u32, u64)>, index: u32) -> bool {
    exists|i: int| 0 <= i < releases.len() && releases[i].0 == index
}

/// Whether the first components of a list are pairwise distinct.
pub open spec fn keys_unique<V>(s: Seq<(u32, V)>) -> bool {
    forall|i: int, j: int| 0 <= i < s.len() && 0 <= j < s.len() && i != j ==> s[i].0 != s[j].0
}

impl ProjectView {
    /// The structural invariants of a project record.
    pub open spec fn wf(self) -> bool {
        &&& self.funding_target > 0
        &&& self.total_funded <= self.funding_target
        &&& self.current_milestone <= self.milestone_count
        &&& self.current_milestone > 0 && self.current_milestone == self.milestone_count
            ==> self.is_successful
        &&& amounts_total(self.backers) == self.total_funded
        &&& votes_wf(self.votes)
        &&& keys_unique(self.milestone_approvals)
        &&& keys_unique(self.milestone_releases)
        &&& forall|i: int|
            0 <= i < self.milestone_releases.len() ==> is_approved(
                self.milestone_approvals,
                #[trigger] self.milestone_releases[i].0,
            )
        &&& self.refund_processed ==> self.is_closed
        &&& self.funding_deadline == self.created_at + FUNDING_PERIOD_LEDGERS
        &&& self.voting_deadline == self.funding_deadline + VOTING_PERIOD_LEDGERS
    }

    /// Whether the campaign failed: the target was missed and the deadline passed.
    pub open spec fn has_failed(self, now: u64) -> bool {
        self.total_funded < self.funding_target && now > self.funding_deadline
    }
}

/// Whether a project can be created at time `now` without its deadlines overflowing.
pub open spec fn deadlines_fit(now: u64) -> bool {
    now + FUNDING_PERIOD_LEDGERS + VOTING_PERIOD_LEDGERS <= u64::MAX
}

/// A fresh project record: nothing funded, decided, voted or released.
pub open spec fn new_project_view(
    project_id: Seq<char>,
    creator: Seq<char>,
    metadata_uri: Seq<char>,
    funding_target: u64,
    milestone_count: u32,
    now: u64,
) -> ProjectView {
    ProjectView {
        project_id,
        creator,
        metadata_uri,
        funding_target,
        milestone_count,
        current_milestone: 0,
        total_funded: 0,
        backers: Seq::empty(),
        votes: Seq::empty(),
        milestone_approvals: Seq::empty(),
        milestone_releases: Seq::empty(),
        validated: false,
        is_successful: false,
        is_closed: false,
        refund_processed: false,
        created_at: now,
        funding_deadline: (now + FUNDING_PERIOD_LEDGERS) as u64,
        voting_deadline: (now + FUNDING_PERIOD_LEDGERS + VOTING_PERIOD_LEDGERS) as u64,
    }
}

/// The creator-only edit guard: the caller must be the creator and the project open.
pub open spec fn creator_edit_check(p: ProjectView, caller: Seq<char>) -> Result<(), ProjectError> {
    if p.creator != caller {
        Err(ProjectError::Unauthorized)
    } else if p.is_closed {
        Err(ProjectError::ProjectClosed)
    } else {
        Ok(())
    }
}

/// Replacing the metadata reference.
pub open spec fn update_metadata_step(p: ProjectView, caller: Seq<char>, uri: Seq<char>) -> Result<
    ProjectView,
    ProjectError,
> {
    match creator_edit_check(p, caller) {
        Err(e) => Err(e),
        Ok(_) => Ok(ProjectView { metadata_uri: uri, ..p }),
    }
}

/// Replacing the number of milestones; a count below `current_milestone` is refused,
/// and a count that `current_milestone` reaches marks the project successful.
pub open spec fn milestone_count_step(p: ProjectView, caller: Seq<char>, count: u32) -> Result<
    ProjectView,
    ProjectError,
> {
    match creator_edit_check(p, caller) {
        Err(e) => Err(e),
        Ok(_) => if count < p.current_milestone {
            Err(ProjectError::InvalidMilestoneNumber)
        } else {
            Ok(
                ProjectView {
                    milestone_count: count,
                    is_successful: p.is_successful || (p.current_milestone > 0 && count
                        == p.current_milestone),
                    ..p
                },
            )
        },
    }
}

/// Closing the project.
pub open spec fn close_step(p: ProjectView, caller: Seq<char>) -> Result<ProjectView, ProjectError> {
    match creator_edit_check(p, caller) {
        Err(e) => Err(e),
        Ok(_) => Ok(ProjectView { is_closed: true, ..p }),
    }
}

/// What a contribution of `amount` actually moves: the request, capped at what is missing.
pub open spec fn capped_contribution(p: ProjectView, amount: u64) -> u64 {
    if amount <= p.funding_target - p.total_funded {
        amount
    } else {
        (p.funding_target - p.total_funded) as u64
    }
}

/// The checks on a contribution, in order; on success, the amount that moves.
pub open spec fn fund_check(p: ProjectView, amount: u64, now: u64) -> Result<u64, ProjectError> {
    if amount == 0 {
        Err(ProjectError::InvalidAmount)
    } else if p.is_closed {
        Err(ProjectError::ProjectClosed)
    } else if now > p.funding_deadline {
        Err(ProjectError::FundingDeadlinePassed)
    } else if p.total_funded >= p.funding_target {
        Err(ProjectError::FundingTargetReached)
    } else {
        Ok(capped_contribution(p, amount))
    }
}

/// Recording a contribution of `amount` by `funder` once its transfer has completed.
pub open spec fn fund_step(p: ProjectView, amount: u64, funder: Seq<char>, now: u64) -> Result<
    ProjectView,
    ProjectError,
> {
    match fund_check(p, amount, now) {
        Err(e) => Err(e),
        Ok(c) => Ok(
            ProjectView {
                total_funded: (p.total_funded + c) as u64,
                backers: p.backers.push((funder, c)),
                ..p
            },
        ),
    }
}

/// The checks on a refund, in order.
pub open spec fn refund_check(p: ProjectView, now: u64) -> Result<(), ProjectError> {
    if !p.has_failed(now) {
        Err(ProjectError::ProjectNotFailed)
    } else if p.refund_processed {
        Err(ProjectError::RefundAlreadyProcessed)
    } else if p.total_funded == 0 {
        Err(ProjectError::NoFundsToRefund)
    } else {
        Ok(())
    }
}

/// Recording a refund once every transfer back to the backers has completed.
pub open spec fn refund_step(p: ProjectView, now: u64) -> Result<ProjectView, ProjectError> {
    match refund_check(p, now) {
        Err(e) => Err(e),
        Ok(_) => Ok(ProjectView { refund_processed: true, is_closed: true, ..p }),
    }
}

/// Approving (`approved`) or rejecting a milestone, once and for all.
pub open spec fn decide_step(p: ProjectView, index: u32, approved: bool) -> Result<
    ProjectView,
    ProjectError,
> {
    if index >= p.milestone_count {
        Err(ProjectError::InvalidMilestoneNumber)
    } else if is_decided(p.milestone_approvals, index) {
        Err(ProjectError::MilestoneAlreadyCompleted)
    } else {
        Ok(ProjectView { milestone_approvals: p.milestone_approvals.push((index, approved)), ..p })
    }
}

/// The amount recorded for each released milestone; the remainder stays unallocated.
pub open spec fn milestone_amount(p: ProjectView) -> u64 {
    (p.funding_target / p.milestone_count as u64) as u64
}

/// Releasing an approved milestone.
pub open spec fn release_step(p: ProjectView, index: u32) -> Result<ProjectView, ProjectError> {
    if index >= p.milestone_count {
        Err(ProjectError::InvalidMilestoneNumber)
    } else if is_released(p.milestone_releases, index) {
        Err(ProjectError::MilestoneAlreadyCompleted)
    } else if !is_approved(p.milestone_approvals, index) {
        Err(ProjectError::MilestoneNotApproved)
    } else {
        Ok(
            ProjectView {
                milestone_releases: p.milestone_releases.push((index, milestone_amount(p))),
                current_milestone: (index + 1) as u32,
                is_successful: p.is_successful || index + 1 == p.milestone_count,
                ..p
            },
        )
    }
}

/// Casting a vote of +1 or -1.
pub open spec fn vote_step(p: ProjectView, voter: Seq<char>, value: i32) -> Result<
    ProjectView,
    ProjectError,
> {
    if value != 1 && value != -1 {
        Err(ProjectError::InvalidVote)
    } else if has_vote(p.votes, voter) {
        Err(ProjectError::AlreadyVoted)
    } else {
        Ok(ProjectView { votes: p.votes.push((voter, value)), ..p })
    }
}

/// Withdrawing the vote of `voter`.
pub open spec fn withdraw_step(p: ProjectView, voter: Seq<char>) -> Result<ProjectView, ProjectError> {
    if !has_vote(p.votes, voter) {
        Err(ProjectError::NotVoted)
    } else {
        Ok(ProjectView { votes: p.votes.remove(first_vote_index(p.votes, voter)), ..p })
    }
}

/// The vote of `voter`, if any.
pub open spec fn vote_of(p: ProjectView, voter: Seq<char>) -> Result<i32, ProjectError> {
    if !has_vote(p.votes, voter) {
        Err(ProjectError::NotVoted)
    } else {
        Ok(p.votes[first_vote_index(p.votes, voter)].1)
    }
}

/// A project record: one funding campaign.
#[derive(Debug)]
pub struct Project {
    pub project_id: String,
    pub creator: Address,
    pub metadata_uri: String,
    pub funding_target: u64,
    pub milestone_count: u32,
    pub current_milestone: u32,
    pub total_funded: u64,
    pub backers: Vec<(Address, u64)>,
    pub votes: Vec<(Address, i32)>,
    pub milestone_approvals: Vec<(u32, bool)>,
    pub milestone_releases: Vec<(u32, u64)>,
    pub validated: bool,
    pub is_successful: bool,
    pub is_closed: bool,
    pub refund_processed: bool,
    pub created_at: u64,
    pub funding_deadline: u64,
    pub voting_deadline: u64,
}

impl View for Project {
    type V = ProjectView;

    open spec fn view(&self) -> ProjectView {
        ProjectView {
            project_id: self.project_id@,
            creator: self.creator@,
            metadata_uri: self.metadata_uri@,
            funding_target: self.funding_target,
            milestone_count: self.milestone_count,
            current_milestone: self.current_milestone,
            total_funded: self.total_funded,
            backers: self.backers@.map_values(|e: (Address, u64)| (e.0@, e.1)),
            votes: self.votes@.map_values(|e: (Address, i32)| (e.0@, e.1)),
            milestone_approvals: self.milestone_approvals@,
            milestone_releases: self.milestone_releases@,
            validated: self.validated,
            is_successful: self.is_successful,
            is_closed: self.is_closed,
            refund_processed: self.refund_processed,
            created_at: self.created_at,
            funding_deadline: self.funding_deadline,
            voting_deadline: self.voting_deadline,
        }
    }
}

/// There is one first position of a principal's vote.
pub proof fn lemma_first_vote_unique(votes: Seq<(Seq<char>, i32)>, who: Seq<char>, i: int)
    requires
        is_first_vote(votes, who, i),
    ensures
        first_vote_index(votes, who) == i,
        has_vote(votes, who),
{
    let c = first_vote_index(votes, who);
    assert(is_first_vote(votes, who, c));
    if c < i {
        assert(votes[c].0 != who);
    } else if c > i {
        assert(votes[i].0 != who);
    }
}

/// Whatever one principal contributed is part of the total.
pub proof fn lemma_contribution_within_total(s: Seq<(Seq<char>, u64)>, who: Seq<char>)
    ensures
        0 <= contribution_of(s, who) <= amounts_total(s),
    decreases s.len(),
{
    if s.len() > 0 {
        lemma_contribution_within_total(s.drop_last(), who);
    }
}

/// The total of a prefix never exceeds the total of the whole list.
pub proof fn lemma_prefix_total(s: Seq<(Seq<char>, u64)>, n: int)
    requires
        0 <= n <= s.len(),
    ensures
        amounts_total(s.take(n)) <= amounts_total(s),
    decreases s.len(),
{
    if n < s.len() {
        lemma_prefix_total(s.drop_last(), n);
        assert(s.drop_last().take(n) =~= s.take(n));
    } else {
        assert(s.take(n) =~= s);
    }
}

/// Appending an entry adds its amount to the total.
pub proof fn lemma_total_push(s: Seq<(Seq<char>, u64)>, e: (Seq<char>, u64))
    ensures
        amounts_total(s.push(e)) == amounts_total(s) + e.1,
{
    assert(s.push(e).drop_last() =~= s);
}

/// Whether the first components of `v` are pairwise distinct.
pub fn keys_distinct<V>(v: &Vec<(u32, V)>) -> (r: bool)
    ensures
        r == keys_unique(v@),
{
    let mut i: usize = 0;
    while i < v.len()
        invariant
            i <= v@.len(),
            forall|a: int, b: int| 0 <= a < i && 0 <= b < i && a != b ==> v@[a].0 != v@[b].0,
        decreases v.len() - i,
    {
        let mut j: usize = 0;
        while j < i
            invariant
                i < v@.len(),
                j <= i,
                forall|a: int, b: int| 0 <= a < i && 0 <= b < i && a != b ==> v@[a].0 != v@[b].0,
                forall|b: int| 0 <= b < j ==> v@[b].0 != v@[i as int].0,
            decreases i - j,
        {
            if v[j].0 == v[i].0 {
                return false;
            }
            j = j + 1;
        }
        i = i + 1;
    }
    true
}

impl Project {
    /// A fresh project created at time `now`.
    pub fn new(
        project_id: String,
        creator: Address,
        metadata_uri: String,
        funding_target: u64,
        milestone_count: u32,
        now: u64,
    ) -> (r: Project)
        requires
            deadlines_fit(now),
        ensures
            r@ == new_project_view(
                project_id@,
                creator@,
                metadata_uri@,
                funding_target,
                milestone_count,
                now,
            ),
            funding_target > 0 ==> r@.wf(),
    {
        let funding_deadline: u64 = now + FUNDING_PERIOD_LEDGERS as u64;
        let voting_deadline: u64 = funding_deadline + VOTING_PERIOD_LEDGERS as u64;
        let r = Project {
            project_id,
            creator,
            metadata_uri,
            funding_target,
            milestone_count,
            current_milestone: 0,
            total_funded: 0,
            backers: Vec::new(),
            votes: Vec::new(),
            milestone_approvals: Vec::new(),
            milestone_releases: Vec::new(),
            validated: false,
            is_successful: false,
            is_closed: false,
            refund_processed: false,
            created_at: now,
            funding_deadline,
            voting_deadline,
        };
        assert(r@ =~= new_project_view(
            r.project_id@,
            r.creator@,
            r.metadata_uri@,
            funding_target,
            milestone_count,
            now,
        ));
        r
    }

    fn check_creator_edit(&self, caller: &Address) -> (r: Result<(), ProjectError>)
        ensures
            r == creator_edit_check(self@, caller@),
    {
        if !self.creator.same(caller) {
            Err(ProjectError::Unauthorized)
        } else if self.is_closed {
            Err(ProjectError::ProjectClosed)
        } else {
            Ok(())
        }
    }

    /// Replaces the metadata reference; only the creator may, while the project is open.
    pub fn update_metadata(&mut self, caller: &Address, uri: String) -> (r: Result<(), ProjectError>)
        requires
            old(self)@.wf(),
        ensures
            final(self)@.wf(),
            match update_metadata_step(old(self)@, caller@, uri@) {
                Ok(q) => r is Ok && final(self)@ == q,
                Err(e) => r == Err::<(), ProjectError>(e) && final(self)@ == old(self)@,
            },
    {
        match self.check_creator_edit(caller) {
            Err(e) => Err(e),
            Ok(()) => {
                self.metadata_uri = uri;
                assert(self@ =~= update_metadata_step(old(self)@, caller@, uri@).unwrap());
                Ok(())
            },
        }
    }

    /// Replaces the number of milestones; only the creator may, while the project is open,
    /// and never below `current_milestone` (`InvalidMilestoneNumber`); a count that a
    /// positive `current_milestone` reaches marks the project successful.
    pub fn set_milestone_count(&mut self, caller: &Address, count: u32) -> (r: Result<
        (),
        ProjectError,
    >)
        requires
            old(self)@.wf(),
        ensures
            final(self)@.wf(),
            match milestone_count_step(old(self)@, caller@, count) {
                Ok(q) => r is Ok && final(self)@ == q,
                Err(e) => r == Err::<(), ProjectError>(e) && final(self)@ == old(self)@,
            },
    {
        match self.check_creator_edit(caller) {
            Err(e) => Err(e),
            Ok(()) => {
                if count < self.current_milestone {
                    return Err(ProjectError::InvalidMilestoneNumber);
                }
                self.milestone_count = count;
                if self.current_milestone > 0 && count == self.current_milestone {
                    self.is_successful = true;
                }
                assert(self@ =~= milestone_count_step(old(self)@, caller@, count).unwrap());
                Ok(())
            },
        }
    }

    /// Marks the project closed; only the creator may, once.
    pub fn close(&mut self, caller: &Address) -> (r: Result<(), ProjectError>)
        requires
            old(self)@.wf(),
        ensures
            final(self)@.wf(),
            match close_step(old(self)@, caller@) {
                Ok(q) => r is Ok && final(self)@ == q,
                Err(e) => r == Err::<(), ProjectError>(e) && final(self)@ == old(self)@,
            },
    {
        match self.check_creator_edit(caller) {
            Err(e) => Err(e),
            Ok(()) => {
                self.is_closed = true;
                assert(self@ =~= close_step(old(self)@, caller@).unwrap());
                Ok(())
            },
        }
    }
    fn find_vote(&self, voter: &Address) -> (r: Option<usize>)
        ensures
            match r {
                Some(i) => is_first_vote(self@.votes, voter@, i as int),
                None => !has_vote(self@.votes, voter@),
            },
    {
        let mut i: usize = 0;
        while i < self.votes.len()
            invariant
                i <= self.votes.len(),
                self@.votes.len() == self.votes@.len(),
                forall|j: int| 0 <= j < i ==> self@.votes[j].0 != voter@,
            decreases self.votes.len() - i,
        {
            if self.votes[i].0.same(voter) {
                return Some(i);
            }
            i = i + 1;
        }
        None
    }

    /// Whether `voter` has a vote entry.
    pub fn has_voted(&self, voter: &Address) -> (r: bool)
        ensures
            r == has_vote(self@.votes, voter@),
    {
        match self.find_vote(voter) {
            Some(i) => {
                proof {
                    lemma_first_vote_unique(self@.votes, voter@, i as int);
                }
                true
            },
            None => false,
        }
    }

    /// The vote of `voter`; `NotVoted` if it has none.
    pub fn get_vote(&self, voter: &Address) -> (r: Result<i32, ProjectError>)
        ensures
            r == vote_of(self@, voter@),
    {
        match self.find_vote(voter) {
            Some(i) => {
                proof {
                    lemma_first_vote_unique(self@.votes, voter@, i as int);
                }
                Ok(self.votes[i].1)
            },
            None => Err(ProjectError::NotVoted),
        }
    }

    /// Records a vote of +1 or -1; a principal votes at most once.
    pub fn vote(&mut self, voter: Address, value: i32) -> (r: Result<(), ProjectError>)
        requires
            old(self)@.wf(),
        ensures
            final(self)@.wf(),
            match vote_step(old(self)@, voter@, value) {
                Ok(q) => r is Ok && final(self)@ == q,
                Err(e) => r == Err::<(), ProjectError>(e) && final(self)@ == old(self)@,
            },
    {
        if value != 1 && value != -1 {
            return Err(ProjectError::InvalidVote);
        }
        if self.has_voted(&voter) {
            return Err(ProjectError::AlreadyVoted);
        }
        let ghost voter_key = voter@;
        self.votes.push((voter, value));
        assert(self@ =~= vote_step(old(self)@, voter_key, value).unwrap());
        Ok(())
    }

    /// Removes the vote of `voter`; `NotVoted` if it has none.
    pub fn withdraw_vote(&mut self, voter: &Address) -> (r: Result<(), ProjectError>)
        requires
            old(self)@.wf(),
        ensures
            final(self)@.wf(),
            match withdraw_step(old(self)@, voter@) {
                Ok(q) => r is Ok && final(self)@ == q,
                Err(e) => r == Err::<(), ProjectError>(e) && final(self)@ == old(self)@,
            },
    {
        match self.find_vote(voter) {
            None => Err(ProjectError::NotVoted),
            Some(i) => {
                proof {
                    lemma_first_vote_unique(self@.votes, voter@, i as int);
                }
                self.votes.remove(i);
                assert(self@ =~= withdraw_step(old(self)@, voter@).unwrap());
                Ok(())
            },
        }
    }

    /// The checks on a contribution of `amount` at time `now`; on success, the amount
    /// that must move from the funder into escrow.
    pub fn check_funding(&self, amount: u64, now: u64) -> (r: Result<u64, ProjectError>)
        requires
            self@.wf(),
        ensures
            r == fund_check(self@, amount, now),
    {
        if amount == 0 {
            Err(ProjectError::InvalidAmount)
        } else if self.is_closed {
            Err(ProjectError::ProjectClosed)
        } else if now > self.funding_deadline {
            Err(ProjectError::FundingDeadlinePassed)
        } else if self.total_funded >= self.funding_target {
            Err(ProjectError::FundingTargetReached)
        } else {
            let missing = self.funding_target - self.total_funded;
            if amount <= missing {
                Ok(amount)
            } else {
                Ok(missing)
            }
        }
    }

    /// Records a contribution whose transfer into escrow has completed; returns the
    /// amount actually credited, capped at what the target still misses.
    pub fn fund(&mut self, amount: u64, funder: Address, now: u64) -> (r: Result<u64, ProjectError>)
        requires
            old(self)@.wf(),
        ensures
            final(self)@.wf(),
            match fund_step(old(self)@, amount, funder@, now) {
                Ok(q) => r == Ok::<u64, ProjectError>(capped_contribution(old(self)@, amount))
                    && final(self)@ == q,
                Err(e) => r == Err::<u64, ProjectError>(e) && final(self)@ == old(self)@,
            },
    {
        let contribution = match self.check_funding(amount, now) {
            Err(e) => return Err(e),
            Ok(c) => c,
        };
        let ghost funder_key = funder@;
        proof {
            lemma_total_push(self@.backers, (funder_key, contribution));
        }
        self.total_funded = self.total_funded + contribution;
        self.backers.push((funder, contribution));
        assert(self@ =~= fund_step(old(self)@, amount, funder_key, now).unwrap());
        Ok(contribution)
    }

    /// The sum of what `who` contributed, over all of its entries.
    pub fn backer_contribution(&self, who: &Address) -> (r: u64)
        requires
            self@.wf(),
        ensures
            r == contribution_of(self@.backers, who@),
    {
        let mut acc: u64 = 0;
        let mut i: usize = 0;
        while i < self.backers.len()
            invariant
                self@.wf(),
                i <= self.backers.len(),
                self@.backers.len() == self.backers@.len(),
                acc == contribution_of(self@.backers.take(i as int), who@),
            decreases self.backers.len() - i,
        {
            let ghost s = self@.backers;
            proof {
                assert(s.take(i + 1).drop_last() =~= s.take(i as int));
                lemma_contribution_within_total(s.take(i + 1), who@);
                lemma_prefix_total(s, i + 1);
            }
            if self.backers[i].0.same(who) {
                acc = acc + self.backers[i].1;
            }
            i = i + 1;
        }
        assert(self@.backers.take(i as int) =~= self@.backers);
        acc
    }

    /// The checks on a refund at time `now`.
    pub fn check_refund(&self, now: u64) -> (r: Result<(), ProjectError>)
        ensures
            r == refund_check(self@, now),
    {
        if !(self.total_funded < self.funding_target && now > self.funding_deadline) {
            Err(ProjectError::ProjectNotFailed)
        } else if self.refund_processed {
            Err(ProjectError::RefundAlreadyProcessed)
        } else if self.total_funded == 0 {
            Err(ProjectError::NoFundsToRefund)
        } else {
            Ok(())
        }
    }

    /// The transfers a refund makes: every backer entry, in order, duplicates included.
    pub fn refund_transfers(&self) -> (r: Vec<(Address, u64)>)
        ensures
            r@.map_values(|e: (Address, u64)| (e.0@, e.1)) == self@.backers,
    {
        let mut r: Vec<(Address, u64)> = Vec::new();
        let mut i: usize = 0;
        while i < self.backers.len()
            invariant
                i <= self.backers.len(),
                self@.backers.len() == self.backers@.len(),
                r@.len() == i,
                forall|j: int|
                    0 <= j < i ==> (r@[j].0@, r@[j].1) == #[trigger] self@.backers[j],
            decreases self.backers.len() - i,
        {
            let who = self.backers[i].0.clone();
            r.push((who, self.backers[i].1));
            i = i + 1;
        }
        assert(r@.map_values(|e: (Address, u64)| (e.0@, e.1)) =~= self@.backers);
        r
    }

    /// Records a refund whose transfers have all completed; returns the amount refunded.
    pub fn refund(&mut self, now: u64) -> (r: Result<u64, ProjectError>)
        requires
            old(self)@.wf(),
        ensures
            final(self)@.wf(),
            match refund_step(old(self)@, now) {
                Ok(q) => r == Ok::<u64, ProjectError>(old(self)@.total_funded)
                    && final(self)@ == q,
                Err(e) => r == Err::<u64, ProjectError>(e) && final(self)@ == old(self)@,
            },
    {
        match self.check_refund(now) {
            Err(e) => Err(e),
            Ok(()) => {
                self.refund_processed = true;
                self.is_closed = true;
                assert(self@ =~= refund_step(old(self)@, now).unwrap());
                Ok(self.total_funded)
            },
        }
    }

    fn has_decision(&self, index: u32) -> (r: bool)
        ensures
            r == is_decided(self@.milestone_approvals, index),
    {
        let mut i: usize = 0;
        while i < self.milestone_approvals.len()
            invariant
                i <= self.milestone_approvals.len(),
                forall|j: int| 0 <= j < i ==> self@.milestone_approvals[j].0 != index,
            decreases self.milestone_approvals.len() - i,
        {
            if self.milestone_approvals[i].0 == index {
                return true;
            }
            i = i + 1;
        }
        false
    }

    fn has_approval(&self, index: u32) -> (r: bool)
        ensures
            r == is_approved(self@.milestone_approvals, index),
    {
        let mut i: usize = 0;
        while i < self.milestone_approvals.len()
            invariant
                i <= self.milestone_approvals.len(),
                forall|j: int|
                    0 <= j < i ==> self@.milestone_approvals[j] != (index, true),
            decreases self.milestone_approvals.len() - i,
        {
            let (k, approved) = self.milestone_approvals[i];
            if k == index && approved {
                return true;
            }
            i = i + 1;
        }
        false
    }

    fn has_release(&self, index: u32) -> (r: bool)
        ensures
            r == is_released(self@.milestone_releases, index),
    {
        let mut i: usize = 0;
        while i < self.milestone_releases.len()
            invariant
                i <= self.milestone_releases.len(),
                forall|j: int| 0 <= j < i ==> self@.milestone_releases[j].0 != index,
            decreases self.milestone_releases.len() - i,
        {
            if self.milestone_releases[i].0 == index {
                return true;
            }
            i = i + 1;
        }
        false
    }

    /// Approves (`approved`) or rejects milestone `index`; each milestone is decided once.
    pub fn decide_milestone(&mut self, index: u32, approved: bool) -> (r: Result<(), ProjectError>)
        requires
            old(self)@.wf(),
        ensures
            final(self)@.wf(),
            match decide_step(old(self)@, index, approved) {
                Ok(q) => r is Ok && final(self)@ == q,
                Err(e) => r == Err::<(), ProjectError>(e) && final(self)@ == old(self)@,
            },
    {
        if index >= self.milestone_count {
            return Err(ProjectError::InvalidMilestoneNumber);
        }
        if self.has_decision(index) {
            return Err(ProjectError::MilestoneAlreadyCompleted);
        }
        self.milestone_approvals.push((index, approved));
        assert(self@ =~= decide_step(old(self)@, index, approved).unwrap());
        assert forall|i: int| 0 <= i < self@.milestone_releases.len() implies is_approved(
            self@.milestone_approvals,
            #[trigger] self@.milestone_releases[i].0,
        ) by {
            let k = self@.milestone_releases[i].0;
            assert(is_approved(old(self)@.milestone_approvals, k));
            let w = choose|w: int|
                0 <= w < old(self)@.milestone_approvals.len()
                    && old(self)@.milestone_approvals[w] == (k, true);
            assert(self@.milestone_approvals[w] == (k, true));
        }
        Ok(())
    }

    /// Releases approved milestone `index`; returns the amount recorded for it.
    pub fn release_milestone(&mut self, index: u32) -> (r: Result<u64, ProjectError>)
        requires
            old(self)@.wf(),
        ensures
            final(self)@.wf(),
            match release_step(old(self)@, index) {
                Ok(q) => r == Ok::<u64, ProjectError>(milestone_amount(old(self)@))
                    && final(self)@ == q,
                Err(e) => r == Err::<u64, ProjectError>(e) && final(self)@ == old(self)@,
            },
    {
        if index >= self.milestone_count {
            return Err(ProjectError::InvalidMilestoneNumber);
        }
        if self.has_release(index) {
            return Err(ProjectError::MilestoneAlreadyCompleted);
        }
        if !self.has_approval(index) {
            return Err(ProjectError::MilestoneNotApproved);
        }
        let amount = self.funding_target / self.milestone_count as u64;
        self.milestone_releases.push((index, amount));
        self.current_milestone = index + 1;
        if self.current_milestone == self.milestone_count {
            self.is_successful = true;
        }
        assert(self@ =~= release_step(old(self)@, index).unwrap());
        Ok(amount)
    }
    fn votes_well_formed(&self) -> (r: bool)
        ensures
            r == votes_wf(self@.votes),
    {
        let mut i: usize = 0;
        while i < self.votes.len()
            invariant
                i <= self.votes@.len(),
                self@.votes.len() == self.votes@.len(),
                forall|a: int, b: int|
                    0 <= a < i && 0 <= b < i && a != b ==> self@.votes[a].0 != self@.votes[b].0,
                forall|a: int| 0 <= a < i ==> (self@.votes[a].1 == 1 || self@.votes[a].1 == -1),
            decreases self.votes.len() - i,
        {
            let value = self.votes[i].1;
            if value != 1 && value != -1 {
                assert(self@.votes[i as int].1 == value);
                return false;
            }
            let mut j: usize = 0;
            while j < i
                invariant
                    i < self.votes@.len(),
                    j <= i,
                    self@.votes.len() == self.votes@.len(),
                    forall|a: int, b: int|
                        0 <= a < i && 0 <= b < i && a != b ==> self@.votes[a].0
                            != self@.votes[b].0,
                    forall|b: int| 0 <= b < j ==> self@.votes[b].0 != self@.votes[i as int].0,
                decreases i - j,
            {
                if self.votes[j].0.same(&self.votes[i].0) {
                    assert(self@.votes[j as int].0 == self@.votes[i as int].0);
                    return false;
                }
                j = j + 1;
            }
            i = i + 1;
        }
        true
    }

    fn backers_add_up(&self) -> (r: bool)
        ensures
            r == (amounts_total(self@.backers) == self.total_funded),
    {
        let ghost s = self@.backers;
        let mut acc: u64 = 0;
        let mut i: usize = 0;
        while i < self.backers.len()
            invariant
                s == self@.backers,
                i <= self.backers@.len(),
                s.len() == self.backers@.len(),
                acc == amounts_total(s.take(i as int)),
                acc <= self.total_funded,
            decreases self.backers.len() - i,
        {
            let amount = self.backers[i].1;
            proof {
                assert(s.take(i + 1).drop_last() =~= s.take(i as int));
            }
            if amount > self.total_funded - acc {
                proof {
                    lemma_prefix_total(s, i + 1);
                }
                return false;
            }
            acc = acc + amount;
            i = i + 1;
        }
        assert(s.take(i as int) =~= s);
        acc == self.total_funded
    }

    fn releases_approved(&self) -> (r: bool)
        ensures
            r == forall|i: int|
                0 <= i < self@.milestone_releases.len() ==> is_approved(
                    self@.milestone_approvals,
                    #[trigger] self@.milestone_releases[i].0,
                ),
    {
        let mut i: usize = 0;
        while i < self.milestone_releases.len()
            invariant
                i <= self.milestone_releases@.len(),
                forall|a: int|
                    0 <= a < i ==> is_approved(
                        self@.milestone_approvals,
                        #[trigger] self@.milestone_releases[a].0,
                    ),
            decreases self.milestone_releases.len() - i,
        {
            if !self.has_approval(self.milestone_releases[i].0) {
                assert(!is_approved(self@.milestone_approvals, self@.milestone_releases[i as int].0));
                return false;
            }
            i = i + 1;
        }
        true
    }

    /// Whether this record meets the structural invariants, as a record read back
    /// from storage must.
    pub fn is_well_formed(&self) -> (r: bool)
        ensures
            r == self@.wf(),
    {
        if self.funding_target == 0 || self.total_funded > self.funding_target {
            return false;
        }
        if self.current_milestone > self.milestone_count {
            return false;
        }
        if self.current_milestone > 0 && self.current_milestone == self.milestone_count
            && !self.is_successful {
            return false;
        }
        if self.refund_processed && !self.is_closed {
            return false;
        }
        if self.created_at > u64::MAX - FUNDING_PERIOD_LEDGERS as u64
            || self.funding_deadline != self.created_at + FUNDING_PERIOD_LEDGERS as u64 {
            return false;
        }
        if self.funding_deadline > u64::MAX - VOTING_PERIOD_LEDGERS as u64
            || self.voting_deadline != self.funding_deadline + VOTING_PERIOD_LEDGERS as u64 {
            return false;
        }
        self.backers_add_up() && self.votes_well_formed() && keys_distinct(
            &self.milestone_approvals,
        ) && keys_distinct(&self.milestone_releases) && self.releases_approved()
    }
}

} // verus!
