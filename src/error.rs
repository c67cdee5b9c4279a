use vstd::prelude::*;

verus! {

/// Every failure an operation of the contract can report.
#[derive(Copy, Clone, Debug, PartialEq, Eq, Structural, PartialOrd, Ord, Hash)]
pub enum ProjectError {
    NotFound,
    AlreadyExists,
    StorageError,
    OverOrUnderFlow,
    Unauthorized,
    ProjectClosed,
    InvalidFundingTarget,
    InvalidVote,
    AlreadyVoted,
    NotVoted,
    AlreadyInitialized,
    NotInitialized,
    UpgradeFailed,
    InvalidMilestoneNumber,
    MilestoneAlreadyCompleted,
    MilestoneNotApproved,
    NoFundsToRefund,
    ProjectNotFailed,
    RefundAlreadyProcessed,
    InvalidAmount,
    ProjectAlreadyFunded,
    FundingTargetReached,
    FundingDeadlinePassed,
    InsufficientFunds,
    InvalidFunder,
}

/// The numeric code under which the host reports each error.
pub open spec fn error_code(e: ProjectError) -> u32 {
    match e {
        ProjectError::NotFound => 1,
        ProjectError::AlreadyExists => 2,
        ProjectError::StorageError => 3,
        ProjectError::OverOrUnderFlow => 4,
        ProjectError::Unauthorized => 5,
        ProjectError::ProjectClosed => 6,
        ProjectError::InvalidFundingTarget => 7,
        ProjectError::InvalidVote => 8,
        ProjectError::AlreadyVoted => 9,
        ProjectError::NotVoted => 10,
        ProjectError::AlreadyInitialized => 100,
        ProjectError::NotInitialized => 101,
        ProjectError::UpgradeFailed => 400,
        ProjectError::InvalidMilestoneNumber => 11,
        ProjectError::MilestoneAlreadyCompleted => 12,
        ProjectError::MilestoneNotApproved => 13,
        ProjectError::NoFundsToRefund => 14,
        ProjectError::ProjectNotFailed => 15,
        ProjectError::RefundAlreadyProcessed => 16,
        ProjectError::InvalidAmount => 17,
        ProjectError::ProjectAlreadyFunded => 18,
        ProjectError::FundingTargetReached => 19,
        ProjectError::FundingDeadlinePassed => 20,
        ProjectError::InsufficientFunds => 21,
        ProjectError::InvalidFunder => 22,
    }
}

impl ProjectError {
    /// The numeric code of this error, as the host reports it.
    pub fn code(&self) -> (r: u32)
        ensures
            r == error_code(*self),
    {
        match self {
            ProjectError::NotFound => 1,
            ProjectError::AlreadyExists => 2,
            ProjectError::StorageError => 3,
            ProjectError::OverOrUnderFlow => 4,
            ProjectError::Unauthorized => 5,
            ProjectError::ProjectClosed => 6,
            ProjectError::InvalidFundingTarget => 7,
            ProjectError::InvalidVote => 8,
            ProjectError::AlreadyVoted => 9,
            ProjectError::NotVoted => 10,
            ProjectError::AlreadyInitialized => 100,
            ProjectError::NotInitialized => 101,
            ProjectError::UpgradeFailed => 400,
            ProjectError::InvalidMilestoneNumber => 11,
            ProjectError::MilestoneAlreadyCompleted => 12,
            ProjectError::MilestoneNotApproved => 13,
            ProjectError::NoFundsToRefund => 14,
            ProjectError::ProjectNotFailed => 15,
            ProjectError::RefundAlreadyProcessed => 16,
            ProjectError::InvalidAmount => 17,
            ProjectError::ProjectAlreadyFunded => 18,
            ProjectError::FundingTargetReached => 19,
            ProjectError::FundingDeadlinePassed => 20,
            ProjectError::InsufficientFunds => 21,
            ProjectError::InvalidFunder => 22,
        }
    }
}

} // verus!
