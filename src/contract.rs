use vstd::prelude::*;

use crate::address::Address;
use crate::error::ProjectError;
use crate::notification::{Notification, NotificationView};
use crate::project::{
    capped_contribution, close_step, decide_step, deadlines_fit, fund_check, fund_step,
    milestone_amount, milestone_count_step, new_project_view, refund_check, refund_step,
    release_step, update_metadata_step, vote_of, vote_step, withdraw_step, contribution_of,
    has_vote, Project, ProjectView, FUNDING_PERIOD_LEDGERS, VOTING_PERIOD_LEDGERS,
};

verus! {

/// Keys of the contract-wide record (administrator, version, initialization)
/// as the host persists it beside the project records.
#[derive(Copy, Clone, Debug, PartialEq, Eq, Structural)]
pub enum ContractDataKey {
    Version,
    Initialized,
    Admin,
}

/// The outcome of the value transfers an operation asked the payment channel for.
#[derive(Copy, Clone, Debug, PartialEq, Eq, Structural)]
pub enum TransferOutcome {
    Completed,
    Failed,
}

/// The model of the whole contract: the administrator record, the ledger time and
/// the project records keyed by their id.
#[verifier::ext_equal]
pub struct ContractView {
    pub admin: Option<Seq<char>>,
    pub version: u32,
    pub initialized: bool,
    pub now: u64,
    pub projects: Map<Seq<char>, ProjectView>,
}

impl ContractView {
    /// Every record is well formed and filed under its own id; the administrator is
    /// set exactly when the contract is initialized.
    pub open spec fn wf(self) -> bool {
        &&& forall|k: Seq<char>| #[trigger]
            self.projects.contains_key(k) ==> self.projects[k].wf() && self.projects[k].project_id
                == k
        &&& self.initialized == self.admin is Some
        &&& self.version >= 1
    }

    /// This state with `p` stored under its id.
    pub open spec fn with_project(self, p: ProjectView) -> ContractView {
        ContractView { projects: self.projects.insert(p.project_id, p), ..self }
    }

    /// The record filed under `id`, or `NotFound`.
    pub open spec fn lookup(self, id: Seq<char>) -> Result<ProjectView, ProjectError> {
        if self.projects.contains_key(id) {
            Ok(self.projects[id])
        } else {
            Err(ProjectError::NotFound)
        }
    }

    /// The state after `step` on the record under `id`: `NotFound` without one, the
    /// step's error if it fails, else the state with the new record.
    pub open spec fn on_project(
        self,
        id: Seq<char>,
        step: spec_fn(ProjectView) -> Result<ProjectView, ProjectError>,
    ) -> Result<ContractView, ProjectError> {
        match self.lookup(id) {
            Err(e) => Err(e),
            Ok(p) => match step(p) {
                Err(e) => Err(e),
                Ok(q) => Ok(self.with_project(q)),
            },
        }
    }

    /// Only the administrator passes; `NotInitialized` while there is none.
    pub open spec fn admin_check(self, caller: Seq<char>) -> Result<(), ProjectError> {
        match self.admin {
            None => Err(ProjectError::NotInitialized),
            Some(a) => if a == caller {
                Ok(())
            } else {
                Err(ProjectError::Unauthorized)
            },
        }
    }

    /// The state after a milestone decision or release by `caller`: the record is
    /// looked up first, then the administrator checked, then `step` applied.
    pub open spec fn on_project_as_admin(
        self,
        id: Seq<char>,
        caller: Seq<char>,
        step: spec_fn(ProjectView) -> Result<ProjectView, ProjectError>,
    ) -> Result<ContractView, ProjectError> {
        match self.lookup(id) {
            Err(e) => Err(e),
            Ok(p) => match self.admin_check(caller) {
                Err(e) => Err(e),
                Ok(_) => self.on_project(id, step),
            },
        }
    }
}

/// The checks on a creation, in order.
pub open spec fn create_check(
    s: ContractView,
    id: Seq<char>,
    funding_target: u64,
    milestone_count: u32,
) -> Result<
    (),
    ProjectError,
> {
    if funding_target == 0 {
        Err(ProjectError::InvalidFundingTarget)
    } else if s.projects.contains_key(id) {
        Err(ProjectError::AlreadyExists)
    } else if milestone_count == 0 {
        Err(ProjectError::InvalidMilestoneNumber)
    } else if !deadlines_fit(s.now) {
        Err(ProjectError::OverOrUnderFlow)
    } else {
        Ok(())
    }
}

/// Whether `r` succeeded with a notification whose model is `v`.
pub open spec fn notifies(r: Result<Notification, ProjectError>, v: NotificationView) -> bool {
    r matches Ok(n) && n@ == v
}

/// Whether persisted parts make a consistent contract: a version of at least 1, and
/// well-formed records with distinct ids.
pub open spec fn parts_valid(version: u32, projects: Seq<Project>) -> bool {
    &&& version >= 1
    &&& ids_unique(projects)
    &&& forall|i: int| 0 <= i < projects.len() ==> (#[trigger] projects[i])@.wf()
}

/// Whether no two records of a list share an id.
pub open spec fn ids_unique(s: Seq<Project>) -> bool {
    forall|i: int, j: int|
        0 <= i < s.len() && 0 <= j < s.len() && i != j ==> s[i].project_id@ != s[j].project_id@
}

/// The records of a list, keyed by id.
pub open spec fn project_map(s: Seq<Project>) -> Map<Seq<char>, ProjectView>
    decreases s.len(),
{
    if s.len() == 0 {
        Map::empty()
    } else {
        project_map(s.drop_last()).insert(s.last().project_id@, s.last()@)
    }
}

proof fn lemma_project_map_dom(s: Seq<Project>, k: Seq<char>)
    ensures
        project_map(s).contains_key(k) <==> exists|i: int|
            0 <= i < s.len() && s[i].project_id@ == k,
    decreases s.len(),
{
    if s.len() > 0 {
        lemma_project_map_dom(s.drop_last(), k);
        if project_map(s.drop_last()).contains_key(k) {
            let i = choose|i: int| 0 <= i < s.len() - 1 && s.drop_last()[i].project_id@ == k;
            assert(s[i].project_id@ == k);
        }
        if exists|i: int| 0 <= i < s.len() && s[i].project_id@ == k {
            let i = choose|i: int| 0 <= i < s.len() && s[i].project_id@ == k;
            if i < s.len() - 1 {
                assert(s.drop_last()[i].project_id@ == k);
            }
        }
    }
}

proof fn lemma_project_map_at(s: Seq<Project>, i: int)
    requires
        ids_unique(s),
        0 <= i < s.len(),
    ensures
        project_map(s).contains_key(s[i].project_id@),
        project_map(s)[s[i].project_id@] == s[i]@,
    decreases s.len(),
{
    if i < s.len() - 1 {
        assert(ids_unique(s.drop_last()));
        lemma_project_map_at(s.drop_last(), i);
        assert(s.drop_last()[i] == s[i]);
    }
}

proof fn lemma_project_map_update(s: Seq<Project>, i: int, p: Project)
    requires
        ids_unique(s),
        0 <= i < s.len(),
        p.project_id@ == s[i].project_id@,
    ensures
        project_map(s.update(i, p)) == project_map(s).insert(p.project_id@, p@),
    decreases s.len(),
{
    let t = s.update(i, p);
    if i == s.len() - 1 {
        assert(t.drop_last() =~= s.drop_last());
        assert(project_map(t) =~= project_map(s).insert(p.project_id@, p@));
    } else {
        assert(ids_unique(s.drop_last()));
        lemma_project_map_update(s.drop_last(), i, p);
        assert(t.drop_last() =~= s.drop_last().update(i, p));
        assert(s.last().project_id@ != p.project_id@);
        assert(project_map(t) =~= project_map(s).insert(p.project_id@, p@));
    }
}

proof fn lemma_project_map_remove(s: Seq<Project>, i: int)
    requires
        ids_unique(s),
        0 <= i < s.len(),
    ensures
        project_map(s.remove(i)) == project_map(s).remove(s[i].project_id@),
    decreases s.len(),
{
    let k = s[i].project_id@;
    let t = s.remove(i);
    if i == s.len() - 1 {
        assert(t =~= s.drop_last());
        lemma_project_map_dom(s.drop_last(), k);
        if project_map(s.drop_last()).contains_key(k) {
            let j = choose|j: int| 0 <= j < s.len() - 1 && s.drop_last()[j].project_id@ == k;
            assert(s[j].project_id@ == k);
        }
        assert(project_map(t) =~= project_map(s).remove(k));
    } else {
        assert(ids_unique(s.drop_last()));
        lemma_project_map_remove(s.drop_last(), i);
        assert(t.drop_last() =~= s.drop_last().remove(i));
        assert(t.last() == s.last());
        assert(s.last().project_id@ != k);
        assert(project_map(t) =~= project_map(s).remove(k));
    }
}

proof fn lemma_project_map_push(s: Seq<Project>, p: Project)
    ensures
        project_map(s.push(p)) == project_map(s).insert(p.project_id@, p@),
{
    assert(s.push(p).drop_last() =~= s);
}

/// Replacing record `i` by a well-formed record with the same id keeps the invariant
/// and files the new record under that id.
proof fn lemma_replace_record(pre: BoundlessContract, post: BoundlessContract, i: int)
    requires
        pre.inv(),
        0 <= i < pre.projects@.len(),
        post.projects@ == pre.projects@.update(i, post.projects@[i]),
        post.projects@[i].project_id@ == pre.projects@[i].project_id@,
        post.projects@[i]@.wf(),
        post.admin == pre.admin,
        post.version == pre.version,
        post.initialized == pre.initialized,
        post.ledger_timestamp == pre.ledger_timestamp,
    ensures
        post.inv(),
        post@ == pre@.with_project(post.projects@[i]@),
{
    lemma_project_map_update(pre.projects@, i, post.projects@[i]);
    assert(post.projects@.len() == pre.projects@.len());
    assert forall|j: int| 0 <= j < post.projects@.len() implies (#[trigger] post.projects@[j])@.wf() by {
        if j != i {
            assert(post.projects@[j] == pre.projects@[j]);
        }
    }
    assert forall|a: int, b: int|
        0 <= a < post.projects@.len() && 0 <= b < post.projects@.len() && a != b
    implies post.projects@[a].project_id@ != post.projects@[b].project_id@ by {
        assert(pre.projects@[a].project_id@ != pre.projects@[b].project_id@);
    }
    assert(post@ =~= pre@.with_project(post.projects@[i]@));
}

proof fn lemma_record_wf(c: BoundlessContract, i: int)
    requires
        c.inv(),
        0 <= i < c.projects@.len(),
    ensures
        c.projects@[i]@.wf(),
{
}

/// The escrow contract: the administrator record, the ledger time and every project.
#[derive(Debug)]
pub struct BoundlessContract {
    admin: Option<Address>,
    version: u32,
    initialized: bool,
    ledger_timestamp: u64,
    projects: Vec<Project>,
}

impl View for BoundlessContract {
    type V = ContractView;

    closed spec fn view(&self) -> ContractView {
        ContractView {
            admin: match self.admin {
                Some(a) => Some(a@),
                None => None,
            },
            version: self.version,
            initialized: self.initialized,
            now: self.ledger_timestamp,
            projects: project_map(self.projects@),
        }
    }
}

impl BoundlessContract {
    /// The internal invariant: ids are unique, every record is well formed, and the
    /// administrator record is consistent.
    pub closed spec fn inv(&self) -> bool {
        &&& ids_unique(self.projects@)
        &&& forall|i: int| 0 <= i < self.projects@.len() ==> (#[trigger] self.projects@[i])@.wf()
        &&& self.initialized == self.admin is Some
        &&& self.version >= 1
    }

    /// Every reachable state is well formed in the model.
    pub proof fn lemma_view_wf(&self)
        requires
            self.inv(),
        ensures
            self@.wf(),
    {
        assert forall|k: Seq<char>| #[trigger] self@.projects.contains_key(k) implies self@.projects[k].wf()
            && self@.projects[k].project_id == k by {
            lemma_project_map_dom(self.projects@, k);
            let i = choose|i: int| 0 <= i < self.projects@.len() && self.projects@[i].project_id@ == k;
            lemma_project_map_at(self.projects@, i);
        }
    }

    /// A contract with no project, not yet initialized, at version 1 and time 0.
    pub fn new() -> (r: BoundlessContract)
        ensures
            r.inv(),
            r@ == (ContractView {
                admin: None,
                version: 1,
                initialized: false,
                now: 0,
                projects: Map::empty(),
            }),
    {
        let r = BoundlessContract {
            admin: None,
            version: 1,
            initialized: false,
            ledger_timestamp: 0,
            projects: Vec::new(),
        };
        assert(r@.projects =~= Map::empty());
        r
    }

    /// The current ledger time.
    pub fn ledger_timestamp(&self) -> (r: u64)
        ensures
            r == self@.now,
    {
        self.ledger_timestamp
    }

    /// Moves the ledger time forward to `timestamp`; time never goes back.
    pub fn set_ledger_timestamp(&mut self, timestamp: u64)
        requires
            old(self).inv(),
        ensures
            final(self).inv(),
            final(self)@ == (ContractView {
                now: if timestamp > old(self)@.now {
                    timestamp
                } else {
                    old(self)@.now
                },
                ..old(self)@
            }),
    {
        if timestamp > self.ledger_timestamp {
            self.ledger_timestamp = timestamp;
        }
        assert(self@ =~= (ContractView {
            now: if timestamp > old(self)@.now {
                timestamp
            } else {
                old(self)@.now
            },
            ..old(self)@
        }));
    }

    fn find_project(&self, project_id: &String) -> (r: Option<usize>)
        requires
            self.inv(),
        ensures
            match r {
                Some(i) => {
                    &&& i < self.projects@.len()
                    &&& self.projects@[i as int].project_id@ == project_id@
                    &&& self@.projects.contains_key(project_id@)
                    &&& self@.projects[project_id@] == self.projects@[i as int]@
                },
                None => !self@.projects.contains_key(project_id@),
            },
    {
        let mut i: usize = 0;
        while i < self.projects.len()
            invariant
                self.inv(),
                i <= self.projects@.len(),
                forall|j: int| 0 <= j < i ==> self.projects@[j].project_id@ != project_id@,
            decreases self.projects.len() - i,
        {
            if self.projects[i].project_id == *project_id {
                proof {
                    lemma_project_map_at(self.projects@, i as int);
                }
                return Some(i);
            }
            i = i + 1;
        }
        proof {
            lemma_project_map_dom(self.projects@, project_id@);
        }
        None
    }

    /// The record filed under `project_id`; `NotFound` without one.
    pub fn get_project(&self, project_id: &String) -> (r: Result<&Project, ProjectError>)
        requires
            self.inv(),
        ensures
            match r {
                Ok(p) => self@.lookup(project_id@) == Ok::<ProjectView, ProjectError>(p@),
                Err(e) => self@.lookup(project_id@) == Err::<ProjectView, ProjectError>(e),
            },
    {
        self.read_project(project_id)
    }

    /// The stored record under `project_id`; `NotFound` without one.
    pub fn read_project(&self, project_id: &String) -> (r: Result<&Project, ProjectError>)
        requires
            self.inv(),
        ensures
            match r {
                Ok(p) => self@.lookup(project_id@) == Ok::<ProjectView, ProjectError>(p@),
                Err(e) => self@.lookup(project_id@) == Err::<ProjectView, ProjectError>(e),
            },
    {
        match self.find_project(project_id) {
            Some(i) => Ok(&self.projects[i]),
            None => Err(ProjectError::NotFound),
        }
    }

    /// Every stored record, in order of creation.
    pub fn list_projects(&self) -> (r: &Vec<Project>)
        requires
            self.inv(),
        ensures
            project_map(r@) == self@.projects,
            ids_unique(r@),
    {
        &self.projects
    }

    /// Whether the contract has been initialized.
    pub fn is_initialized(&self) -> (r: bool)
        ensures
            r == self@.initialized,
    {
        self.initialized
    }

    /// Stores a new well-formed record: `AlreadyExists` if its id is taken,
    /// `StorageError` if it is malformed.
    pub fn write_project(&mut self, project: Project) -> (r: Result<(), ProjectError>)
        requires
            old(self).inv(),
        ensures
            final(self).inv(),
            old(self)@.projects.contains_key(project.project_id@) ==> r == Err::<(), ProjectError>(
                ProjectError::AlreadyExists,
            ) && final(self)@ == old(self)@,
            !old(self)@.projects.contains_key(project.project_id@) && !project@.wf() ==> r == Err::<
                (),
                ProjectError,
            >(ProjectError::StorageError) && final(self)@ == old(self)@,
            !old(self)@.projects.contains_key(project.project_id@) && project@.wf() ==> r is Ok
                && final(self)@ == old(self)@.with_project(project@),
    {
        if self.project_exists(&project.project_id) {
            return Err(ProjectError::AlreadyExists);
        }
        if !project.is_well_formed() {
            return Err(ProjectError::StorageError);
        }
        proof {
            lemma_project_map_push(self.projects@, project);
            lemma_project_map_dom(self.projects@, project.project_id@);
        }
        self.projects.push(project);
        Ok(())
    }

    /// Replaces the stored record with the same id by a well-formed one: `NotFound`
    /// without one, `StorageError` if the new record is malformed.
    pub fn update_project(&mut self, project: Project) -> (r: Result<(), ProjectError>)
        requires
            old(self).inv(),
        ensures
            final(self).inv(),
            !old(self)@.projects.contains_key(project.project_id@) ==> r == Err::<(), ProjectError>(
                ProjectError::NotFound,
            ) && final(self)@ == old(self)@,
            old(self)@.projects.contains_key(project.project_id@) && !project@.wf() ==> r == Err::<
                (),
                ProjectError,
            >(ProjectError::StorageError) && final(self)@ == old(self)@,
            old(self)@.projects.contains_key(project.project_id@) && project@.wf() ==> r is Ok
                && final(self)@ == old(self)@.with_project(project@),
    {
        let i = match self.find_project(&project.project_id) {
            Some(i) => i,
            None => return Err(ProjectError::NotFound),
        };
        if !project.is_well_formed() {
            return Err(ProjectError::StorageError);
        }
        self.projects.set(i, project);
        proof {
            lemma_replace_record(*old(self), *self, i as int);
        }
        Ok(())
    }

    /// Removes the record under `project_id` (a maintenance operation); `NotFound`
    /// without one.
    pub fn delete_project(&mut self, project_id: &String) -> (r: Result<(), ProjectError>)
        requires
            old(self).inv(),
        ensures
            final(self).inv(),
            match old(self)@.lookup(project_id@) {
                Err(e) => r == Err::<(), ProjectError>(e) && final(self)@ == old(self)@,
                Ok(_) => r is Ok && final(self)@ == (ContractView {
                    projects: old(self)@.projects.remove(project_id@),
                    ..old(self)@
                }),
            },
    {
        let i = match self.find_project(project_id) {
            Some(i) => i,
            None => return Err(ProjectError::NotFound),
        };
        proof {
            lemma_project_map_remove(self.projects@, i as int);
        }
        self.projects.remove(i);
        proof {
            let pre = old(self).projects@;
            let post = self.projects@;
            assert forall|j: int| 0 <= j < post.len() implies (#[trigger] post[j])@.wf() by {
                if j < i {
                    assert(post[j] == pre[j]);
                } else {
                    assert(post[j] == pre[j + 1]);
                }
            }
            assert forall|a: int, b: int|
                0 <= a < post.len() && 0 <= b < post.len() && a != b
            implies post[a].project_id@ != post[b].project_id@ by {
                let a2 = if a < i { a } else { a + 1 };
                let b2 = if b < i { b } else { b + 1 };
                assert(post[a] == pre[a2]);
                assert(post[b] == pre[b2]);
            }
            assert(self@ =~= (ContractView {
                projects: old(self)@.projects.remove(project_id@),
                ..old(self)@
            }));
        }
        Ok(())
    }

    /// Whether a record is filed under `project_id`.
    pub fn project_exists(&self, project_id: &String) -> (r: bool)
        requires
            self.inv(),
        ensures
            r == self@.projects.contains_key(project_id@),
    {
        self.find_project(project_id).is_some()
    }

    /// Registers a new campaign created now by `creator`: the target and the number
    /// of milestones must be positive and the id free.
    pub fn create_project(
        &mut self,
        project_id: String,
        creator: Address,
        metadata_uri: String,
        funding_target: u64,
        milestone_count: u32,
    ) -> (r: Result<Notification, ProjectError>)
        requires
            old(self).inv(),
        ensures
            final(self).inv(),
            match create_check(old(self)@, project_id@, funding_target, milestone_count) {
                Err(e) => r == Err::<Notification, ProjectError>(e) && final(self)@ == old(self)@,
                Ok(_) => {
                    &&& final(self)@ == old(self)@.with_project(
                        new_project_view(
                            project_id@,
                            creator@,
                            metadata_uri@,
                            funding_target,
                            milestone_count,
                            old(self)@.now,
                        ),
                    )
                    &&& notifies(r, (NotificationView::ProjectCreated {
                        project_id: project_id@,
                        creator: creator@,
                    }))
                },
            },
    {
        if funding_target == 0 {
            return Err(ProjectError::InvalidFundingTarget);
        }
        if self.project_exists(&project_id) {
            return Err(ProjectError::AlreadyExists);
        }
        if milestone_count == 0 {
            return Err(ProjectError::InvalidMilestoneNumber);
        }
        if self.ledger_timestamp > u64::MAX - FUNDING_PERIOD_LEDGERS as u64
            - VOTING_PERIOD_LEDGERS as u64 {
            return Err(ProjectError::OverOrUnderFlow);
        }
        let n = Notification::ProjectCreated {
            project_id: project_id.clone(),
            creator: creator.clone(),
        };
        let p = Project::new(
            project_id,
            creator,
            metadata_uri,
            funding_target,
            milestone_count,
            self.ledger_timestamp,
        );
        proof {
            lemma_project_map_push(self.projects@, p);
            lemma_project_map_dom(self.projects@, p.project_id@);
        }
        self.projects.push(p);
        Ok(n)
    }

    /// Sets the administrator, once; the version starts at 1.
    pub fn initialize(&mut self, admin: Address) -> (r: Result<Notification, ProjectError>)
        requires
            old(self).inv(),
        ensures
            final(self).inv(),
            old(self)@.initialized ==> r == Err::<Notification, ProjectError>(
                ProjectError::AlreadyInitialized,
            ) && final(self)@ == old(self)@,
            !old(self)@.initialized ==> {
                &&& final(self)@ == (ContractView {
                    admin: Some(admin@),
                    version: 1,
                    initialized: true,
                    ..old(self)@
                })
                &&& notifies(r, (NotificationView::Initialized { admin: admin@ }))
            },
    {
        if self.initialized {
            return Err(ProjectError::AlreadyInitialized);
        }
        let n = Notification::Initialized { admin: admin.clone() };
        self.admin = Some(admin);
        self.version = 1;
        self.initialized = true;
        Ok(n)
    }

    /// The administrator; `NotInitialized` before initialization.
    pub fn get_admin(&self) -> (r: Result<Address, ProjectError>)
        ensures
            match self@.admin {
                Some(a) => r matches Ok(x) && x@ == a,
                None => r == Err::<Address, ProjectError>(ProjectError::NotInitialized),
            },
    {
        match &self.admin {
            Some(a) => Ok(a.clone()),
            None => Err(ProjectError::NotInitialized),
        }
    }

    /// The code version: 1 until the first upgrade.
    pub fn get_version(&self) -> (r: u32)
        ensures
            r == self@.version,
    {
        self.version
    }

    /// Accepts a code upgrade requested by `caller` and bumps the version; replacing
    /// the code itself is the host's work.
    pub fn upgrade(&mut self, caller: &Address) -> (r: Result<Notification, ProjectError>)
        requires
            old(self).inv(),
        ensures
            final(self).inv(),
            match old(self)@.admin_check(caller@) {
                Err(e) => r == Err::<Notification, ProjectError>(e) && final(self)@ == old(self)@,
                Ok(_) => if old(self)@.version == u32::MAX {
                    r == Err::<Notification, ProjectError>(ProjectError::OverOrUnderFlow)
                        && final(self)@ == old(self)@
                } else {
                    &&& final(self)@ == (ContractView {
                        version: (old(self)@.version + 1) as u32,
                        ..old(self)@
                    })
                    &&& notifies(r, (NotificationView::Upgraded {
                        version: (old(self)@.version + 1) as u32,
                    }))
                },
            },
    {
        self.check_admin(caller)?;
        if self.version == u32::MAX {
            return Err(ProjectError::OverOrUnderFlow);
        }
        self.version = self.version + 1;
        Ok(Notification::Upgraded { version: self.version })
    }

    fn check_admin(&self, caller: &Address) -> (r: Result<(), ProjectError>)
        ensures
            r == self@.admin_check(caller@),
    {
        match &self.admin {
            None => Err(ProjectError::NotInitialized),
            Some(a) => if a.same(caller) {
                Ok(())
            } else {
                Err(ProjectError::Unauthorized)
            },
        }
    }
    /// Replaces the metadata reference of a project; only its creator may, while it is open.
    pub fn update_project_metadata(
        &mut self,
        project_id: String,
        creator: Address,
        new_metadata_uri: String,
    ) -> (r: Result<Notification, ProjectError>)
        requires
            old(self).inv(),
        ensures
            final(self).inv(),
            match old(self)@.on_project(
                project_id@,
                |p: ProjectView| update_metadata_step(p, creator@, new_metadata_uri@),
            ) {
                Err(e) => r == Err::<Notification, ProjectError>(e) && final(self)@ == old(self)@,
                Ok(s) => final(self)@ == s && notifies(
                    r,
                    (NotificationView::MetadataUpdated { project_id: project_id@ })),
            },
    {
        let i = match self.find_project(&project_id) {
            Some(i) => i,
            None => return Err(ProjectError::NotFound),
        };
        let res = self.projects[i].update_metadata(&creator, new_metadata_uri);
        proof {
            lemma_replace_record(*old(self), *self, i as int);
        }
        match res {
            Err(e) => Err(e),
            Ok(()) => Ok(Notification::MetadataUpdated { project_id }),
        }
    }

    /// Replaces the number of milestones of a project; only its creator may, while it
    /// is open, and never below its `current_milestone` (`InvalidMilestoneNumber`). A
    /// count that a positive `current_milestone` reaches marks the project successful.
    pub fn modify_milestone(
        &mut self,
        project_id: String,
        caller: Address,
        new_milestone_count: u32,
    ) -> (r: Result<Notification, ProjectError>)
        requires
            old(self).inv(),
        ensures
            final(self).inv(),
            match old(self)@.on_project(
                project_id@,
                |p: ProjectView| milestone_count_step(p, caller@, new_milestone_count),
            ) {
                Err(e) => r == Err::<Notification, ProjectError>(e) && final(self)@ == old(self)@,
                Ok(s) => final(self)@ == s && notifies(
                    r,
                    (NotificationView::MilestoneCountChanged {
                    project_id: project_id@,
                    milestone_count: new_milestone_count,
                })),
            },
    {
        let i = match self.find_project(&project_id) {
            Some(i) => i,
            None => return Err(ProjectError::NotFound),
        };
        let res = self.projects[i].set_milestone_count(&caller, new_milestone_count);
        proof {
            lemma_replace_record(*old(self), *self, i as int);
        }
        match res {
            Err(e) => Err(e),
            Ok(()) => Ok(
                Notification::MilestoneCountChanged {
                    project_id,
                    milestone_count: new_milestone_count,
                },
            ),
        }
    }

    /// Another name for `modify_milestone`.
    pub fn update_project_mile(
        &mut self,
        project_id: String,
        creator: Address,
        new_milestone_count: u32,
    ) -> (r: Result<Notification, ProjectError>)
        requires
            old(self).inv(),
        ensures
            final(self).inv(),
            match old(self)@.on_project(
                project_id@,
                |p: ProjectView| milestone_count_step(p, creator@, new_milestone_count),
            ) {
                Err(e) => r == Err::<Notification, ProjectError>(e) && final(self)@ == old(self)@,
                Ok(s) => final(self)@ == s && notifies(
                    r,
                    (NotificationView::MilestoneCountChanged {
                    project_id: project_id@,
                    milestone_count: new_milestone_count,
                })),
            },
    {
        self.modify_milestone(project_id, creator, new_milestone_count)
    }

    /// Closes a project; only its creator may, once. Closing moves no funds.
    pub fn close_project(&mut self, project_id: String, creator: Address) -> (r: Result<
        Notification,
        ProjectError,
    >)
        requires
            old(self).inv(),
        ensures
            final(self).inv(),
            match old(self)@.on_project(project_id@, |p: ProjectView| close_step(p, creator@)) {
                Err(e) => r == Err::<Notification, ProjectError>(e) && final(self)@ == old(self)@,
                Ok(s) => final(self)@ == s && notifies(r, (NotificationView::Closed {
                    project_id: project_id@,
                })),
            },
    {
        let i = match self.find_project(&project_id) {
            Some(i) => i,
            None => return Err(ProjectError::NotFound),
        };
        let res = self.projects[i].close(&creator);
        proof {
            lemma_replace_record(*old(self), *self, i as int);
        }
        match res {
            Err(e) => Err(e),
            Ok(()) => Ok(Notification::Closed { project_id }),
        }
    }

    /// Records the vote (+1 or -1) of `voter` on a project; one vote per principal.
    pub fn vote_project(&mut self, project_id: String, voter: Address, vote_value: i32) -> (r:
        Result<Notification, ProjectError>)
        requires
            old(self).inv(),
        ensures
            final(self).inv(),
            match old(self)@.on_project(
                project_id@,
                |p: ProjectView| vote_step(p, voter@, vote_value),
            ) {
                Err(e) => r == Err::<Notification, ProjectError>(e) && final(self)@ == old(self)@,
                Ok(s) => final(self)@ == s && notifies(r, (NotificationView::Voted {
                    project_id: project_id@,
                    voter: voter@,
                    value: vote_value,
                })),
            },
    {
        let i = match self.find_project(&project_id) {
            Some(i) => i,
            None => return Err(ProjectError::NotFound),
        };
        let who = voter.clone();
        let res = self.projects[i].vote(voter, vote_value);
        proof {
            lemma_replace_record(*old(self), *self, i as int);
        }
        match res {
            Err(e) => Err(e),
            Ok(()) => Ok(Notification::Voted { project_id, voter: who, value: vote_value }),
        }
    }

    /// Removes the vote of `voter` on a project.
    pub fn withdraw_vote(&mut self, project_id: String, voter: Address) -> (r: Result<
        Notification,
        ProjectError,
    >)
        requires
            old(self).inv(),
        ensures
            final(self).inv(),
            match old(self)@.on_project(project_id@, |p: ProjectView| withdraw_step(p, voter@)) {
                Err(e) => r == Err::<Notification, ProjectError>(e) && final(self)@ == old(self)@,
                Ok(s) => final(self)@ == s && notifies(
                    r,
                    (NotificationView::VoteWithdrawn { project_id: project_id@, voter: voter@ })),
            },
    {
        let i = match self.find_project(&project_id) {
            Some(i) => i,
            None => return Err(ProjectError::NotFound),
        };
        let res = self.projects[i].withdraw_vote(&voter);
        proof {
            lemma_replace_record(*old(self), *self, i as int);
        }
        match res {
            Err(e) => Err(e),
            Ok(()) => Ok(Notification::VoteWithdrawn { project_id, voter }),
        }
    }

    /// Whether `voter` has a vote on a project.
    pub fn has_voted(&self, project_id: &String, voter: &Address) -> (r: Result<bool, ProjectError>)
        requires
            self.inv(),
        ensures
            match self@.lookup(project_id@) {
                Err(e) => r == Err::<bool, ProjectError>(e),
                Ok(p) => r == Ok::<bool, ProjectError>(has_vote(p.votes, voter@)),
            },
    {
        match self.find_project(project_id) {
            None => Err(ProjectError::NotFound),
            Some(i) => Ok(self.projects[i].has_voted(voter)),
        }
    }

    /// The vote of `voter` on a project; `NotVoted` if it has none.
    pub fn get_vote(&self, project_id: &String, voter: &Address) -> (r: Result<i32, ProjectError>)
        requires
            self.inv(),
        ensures
            match self@.lookup(project_id@) {
                Err(e) => r == Err::<i32, ProjectError>(e),
                Ok(p) => r == vote_of(p, voter@),
            },
    {
        match self.find_project(project_id) {
            None => Err(ProjectError::NotFound),
            Some(i) => self.projects[i].get_vote(voter),
        }
    }

    /// The checks on a contribution of `amount` to a project now; on success, the
    /// amount the payment channel must move from the funder into escrow.
    pub fn check_funding(&self, project_id: &String, amount: u64) -> (r: Result<u64, ProjectError>)
        requires
            self.inv(),
        ensures
            match self@.lookup(project_id@) {
                Err(e) => r == Err::<u64, ProjectError>(e),
                Ok(p) => r == fund_check(p, amount, self@.now),
            },
    {
        match self.find_project(project_id) {
            None => Err(ProjectError::NotFound),
            Some(i) => {
                proof {
                    lemma_record_wf(*self, i as int);
                }
                self.projects[i].check_funding(amount, self.ledger_timestamp)
            },
        }
    }

    /// Records a contribution by `funder` once the payment channel reports how the
    /// transfer of the amount `check_funding` gave went. Nothing changes unless it
    /// completed (`InsufficientFunds` when it failed); the notification carries the
    /// amount actually credited.
    pub fn fund_project(
        &mut self,
        project_id: String,
        amount: u64,
        funder: Address,
        transfer: TransferOutcome,
    ) -> (r: Result<Notification, ProjectError>)
        requires
            old(self).inv(),
        ensures
            final(self).inv(),
            match old(self)@.on_project(
                project_id@,
                |p: ProjectView| fund_step(p, amount, funder@, old(self)@.now),
            ) {
                Err(e) => r == Err::<Notification, ProjectError>(e) && final(self)@ == old(self)@,
                Ok(s) => if transfer == TransferOutcome::Completed {
                    &&& final(self)@ == s
                    &&& notifies(r, (NotificationView::Funded {
                        project_id: project_id@,
                        funder: funder@,
                        amount: capped_contribution(old(self)@.projects[project_id@], amount),
                    }))
                } else {
                    r == Err::<Notification, ProjectError>(ProjectError::InsufficientFunds)
                        && final(self)@ == old(self)@
                },
            },
    {
        let i = match self.find_project(&project_id) {
            Some(i) => i,
            None => return Err(ProjectError::NotFound),
        };
        proof {
            lemma_record_wf(*self, i as int);
        }
        if transfer == TransferOutcome::Failed {
            return match self.projects[i].check_funding(amount, self.ledger_timestamp) {
                Err(e) => Err(e),
                Ok(_) => Err(ProjectError::InsufficientFunds),
            };
        }
        let who = funder.clone();
        let now = self.ledger_timestamp;
        let res = self.projects[i].fund(amount, funder, now);
        proof {
            lemma_replace_record(*old(self), *self, i as int);
        }
        match res {
            Err(e) => Err(e),
            Ok(credited) => Ok(Notification::Funded { project_id, funder: who, amount: credited }),
        }
    }

    /// The transfers a refund of a project asks the payment channel for: each backer
    /// entry, in order, duplicates included. Fails as `refund` would.
    pub fn refund_transfers(&self, project_id: &String) -> (r: Result<
        Vec<(Address, u64)>,
        ProjectError,
    >)
        requires
            self.inv(),
        ensures
            match self@.lookup(project_id@) {
                Err(e) => r == Err::<Vec<(Address, u64)>, ProjectError>(e),
                Ok(p) => match refund_check(p, self@.now) {
                    Err(e) => r == Err::<Vec<(Address, u64)>, ProjectError>(e),
                    Ok(_) => r matches Ok(v) && v@.map_values(|e: (Address, u64)| (e.0@, e.1))
                        == p.backers,
                },
            },
    {
        match self.find_project(project_id) {
            None => Err(ProjectError::NotFound),
            Some(i) => match self.projects[i].check_refund(self.ledger_timestamp) {
                Err(e) => Err(e),
                Ok(()) => Ok(self.projects[i].refund_transfers()),
            },
        }
    }

    /// Records the refund of a failed project once the payment channel reports how
    /// the transfers of `refund_transfers` went. Nothing changes unless all of them
    /// completed (`InsufficientFunds` when one failed), so a failed refund can be
    /// retried; a refund that went through is never repeated.
    pub fn refund(&mut self, project_id: String, transfers: TransferOutcome) -> (r: Result<
        Notification,
        ProjectError,
    >)
        requires
            old(self).inv(),
        ensures
            final(self).inv(),
            match old(self)@.on_project(
                project_id@,
                |p: ProjectView| refund_step(p, old(self)@.now),
            ) {
                Err(e) => r == Err::<Notification, ProjectError>(e) && final(self)@ == old(self)@,
                Ok(s) => if transfers == TransferOutcome::Completed {
                    &&& final(self)@ == s
                    &&& notifies(r, (NotificationView::Refunded {
                        project_id: project_id@,
                        amount: old(self)@.projects[project_id@].total_funded,
                    }))
                } else {
                    r == Err::<Notification, ProjectError>(ProjectError::InsufficientFunds)
                        && final(self)@ == old(self)@
                },
            },
    {
        let i = match self.find_project(&project_id) {
            Some(i) => i,
            None => return Err(ProjectError::NotFound),
        };
        if transfers == TransferOutcome::Failed {
            return match self.projects[i].check_refund(self.ledger_timestamp) {
                Err(e) => Err(e),
                Ok(()) => Err(ProjectError::InsufficientFunds),
            };
        }
        let now = self.ledger_timestamp;
        let res = self.projects[i].refund(now);
        proof {
            lemma_replace_record(*old(self), *self, i as int);
        }
        match res {
            Err(e) => Err(e),
            Ok(amount) => Ok(Notification::Refunded { project_id, amount }),
        }
    }

    fn decide(&mut self, project_id: String, milestone_index: u32, admin: &Address, approved: bool) -> (r:
        Result<Notification, ProjectError>)
        requires
            old(self).inv(),
        ensures
            final(self).inv(),
            match old(self)@.on_project_as_admin(
                project_id@,
                admin@,
                |p: ProjectView| decide_step(p, milestone_index, approved),
            ) {
                Err(e) => r == Err::<Notification, ProjectError>(e) && final(self)@ == old(self)@,
                Ok(s) => final(self)@ == s && notifies(r, if approved {
                    NotificationView::MilestoneApproved {
                        project_id: project_id@,
                        index: milestone_index,
                    }
                } else {
                    NotificationView::MilestoneRejected {
                        project_id: project_id@,
                        index: milestone_index,
                    }
                }),
            },
    {
        let i = match self.find_project(&project_id) {
            Some(i) => i,
            None => return Err(ProjectError::NotFound),
        };
        self.check_admin(admin)?;
        let res = self.projects[i].decide_milestone(milestone_index, approved);
        proof {
            lemma_replace_record(*old(self), *self, i as int);
        }
        match res {
            Err(e) => Err(e),
            Ok(()) => if approved {
                Ok(Notification::MilestoneApproved { project_id, index: milestone_index })
            } else {
                Ok(Notification::MilestoneRejected { project_id, index: milestone_index })
            },
        }
    }

    /// Approves a milestone of a project; administrator only, each milestone decided once.
    pub fn approve_milestone(&mut self, project_id: String, milestone_index: u32, admin: Address) -> (r:
        Result<Notification, ProjectError>)
        requires
            old(self).inv(),
        ensures
            final(self).inv(),
            match old(self)@.on_project_as_admin(
                project_id@,
                admin@,
                |p: ProjectView| decide_step(p, milestone_index, true),
            ) {
                Err(e) => r == Err::<Notification, ProjectError>(e) && final(self)@ == old(self)@,
                Ok(s) => final(self)@ == s && notifies(
                    r,
                    (NotificationView::MilestoneApproved {
                    project_id: project_id@,
                    index: milestone_index,
                })),
            },
    {
        self.decide(project_id, milestone_index, &admin, true)
    }

    /// Rejects a milestone of a project; administrator only, each milestone decided
    /// once, and a rejection is final.
    pub fn reject_milestone(&mut self, project_id: String, milestone_index: u32, admin: Address) -> (r:
        Result<Notification, ProjectError>)
        requires
            old(self).inv(),
        ensures
            final(self).inv(),
            match old(self)@.on_project_as_admin(
                project_id@,
                admin@,
                |p: ProjectView| decide_step(p, milestone_index, false),
            ) {
                Err(e) => r == Err::<Notification, ProjectError>(e) && final(self)@ == old(self)@,
                Ok(s) => final(self)@ == s && notifies(
                    r,
                    (NotificationView::MilestoneRejected {
                    project_id: project_id@,
                    index: milestone_index,
                })),
            },
    {
        self.decide(project_id, milestone_index, &admin, false)
    }

    /// Releases an approved milestone of a project; administrator only, once per
    /// milestone. Records `funding_target / milestone_count` for it and moves
    /// `current_milestone` to the milestone after it, in whatever order milestones
    /// are released; no value is paid out here.
    pub fn release_milestone(&mut self, project_id: String, milestone_index: u32, admin: Address) -> (r:
        Result<Notification, ProjectError>)
        requires
            old(self).inv(),
        ensures
            final(self).inv(),
            match old(self)@.on_project_as_admin(
                project_id@,
                admin@,
                |p: ProjectView| release_step(p, milestone_index),
            ) {
                Err(e) => r == Err::<Notification, ProjectError>(e) && final(self)@ == old(self)@,
                Ok(s) => final(self)@ == s && notifies(
                    r,
                    (NotificationView::MilestoneReleased {
                    project_id: project_id@,
                    index: milestone_index,
                    amount: milestone_amount(old(self)@.projects[project_id@]),
                })),
            },
    {
        let i = match self.find_project(&project_id) {
            Some(i) => i,
            None => return Err(ProjectError::NotFound),
        };
        self.check_admin(&admin)?;
        let res = self.projects[i].release_milestone(milestone_index);
        proof {
            lemma_replace_record(*old(self), *self, i as int);
        }
        match res {
            Err(e) => Err(e),
            Ok(amount) => Ok(
                Notification::MilestoneReleased { project_id, index: milestone_index, amount },
            ),
        }
    }

    /// The amount funded so far and the funding target of a project.
    pub fn get_project_funding(&self, project_id: &String) -> (r: Result<(u64, u64), ProjectError>)
        requires
            self.inv(),
        ensures
            match self@.lookup(project_id@) {
                Err(e) => r == Err::<(u64, u64), ProjectError>(e),
                Ok(p) => r == Ok::<(u64, u64), ProjectError>((p.total_funded, p.funding_target)),
            },
    {
        match self.find_project(project_id) {
            None => Err(ProjectError::NotFound),
            Some(i) => Ok((self.projects[i].total_funded, self.projects[i].funding_target)),
        }
    }

    /// What `backer` contributed to a project, over all of its entries.
    pub fn get_backer_contribution(&self, project_id: &String, backer: &Address) -> (r: Result<
        u64,
        ProjectError,
    >)
        requires
            self.inv(),
        ensures
            match self@.lookup(project_id@) {
                Err(e) => r == Err::<u64, ProjectError>(e),
                Ok(p) => r matches Ok(x) && x == contribution_of(p.backers, backer@),
            },
    {
        match self.find_project(project_id) {
            None => Err(ProjectError::NotFound),
            Some(i) => {
                proof {
                    lemma_record_wf(*self, i as int);
                }
                Ok(self.projects[i].backer_contribution(backer))
            },
        }
    }
    fn records_valid(projects: &Vec<Project>) -> (r: bool)
        ensures
            r == (ids_unique(projects@) && forall|i: int|
                0 <= i < projects@.len() ==> (#[trigger] projects@[i])@.wf()),
    {
        let mut i: usize = 0;
        while i < projects.len()
            invariant
                i <= projects@.len(),
                forall|a: int, b: int|
                    0 <= a < i && 0 <= b < i && a != b ==> projects@[a].project_id@
                        != projects@[b].project_id@,
                forall|a: int| 0 <= a < i ==> (#[trigger] projects@[a])@.wf(),
            decreases projects.len() - i,
        {
            if !projects[i].is_well_formed() {
                return false;
            }
            let mut j: usize = 0;
            while j < i
                invariant
                    i < projects@.len(),
                    j <= i,
                    forall|a: int, b: int|
                        0 <= a < i && 0 <= b < i && a != b ==> projects@[a].project_id@
                            != projects@[b].project_id@,
                    forall|b: int|
                        0 <= b < j ==> projects@[b].project_id@ != projects@[i as int].project_id@,
                decreases i - j,
            {
                if projects[j].project_id == projects[i].project_id {
                    return false;
                }
                j = j + 1;
            }
            i = i + 1;
        }
        true
    }

    /// Rebuilds a contract from the parts the host persisted: the administrator (set
    /// once initialized), the version, the ledger time and the project records.
    /// `StorageError` unless the parts are consistent.
    pub fn from_parts(
        admin: Option<Address>,
        version: u32,
        ledger_timestamp: u64,
        projects: Vec<Project>,
    ) -> (r: Result<BoundlessContract, ProjectError>)
        ensures
            parts_valid(version, projects@) ==> (r matches Ok(c) && c.inv() && c@ == (
            ContractView {
                admin: match admin {
                    Some(a) => Some(a@),
                    None => None,
                },
                version,
                initialized: admin is Some,
                now: ledger_timestamp,
                projects: project_map(projects@),
            })),
            !parts_valid(version, projects@) ==> r == Err::<BoundlessContract, ProjectError>(
                ProjectError::StorageError,
            ),
    {
        if version == 0 || !Self::records_valid(&projects) {
            return Err(ProjectError::StorageError);
        }
        let initialized = admin.is_some();
        Ok(BoundlessContract { admin, version, initialized, ledger_timestamp, projects })
    }
}

} // verus!
