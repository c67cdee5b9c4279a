use vstd::prelude::*;

use crate::address::Address;

verus! {

/// The model of a notification: principals and strings as character sequences.
pub enum NotificationView {
    ProjectCreated { project_id: Seq<char>, creator: Seq<char> },
    MetadataUpdated { project_id: Seq<char> },
    MilestoneCountChanged { project_id: Seq<char>, milestone_count: u32 },
    Closed { project_id: Seq<char> },
    Funded { project_id: Seq<char>, funder: Seq<char>, amount: u64 },
    Refunded { project_id: Seq<char>, amount: u64 },
    MilestoneApproved { project_id: Seq<char>, index: u32 },
    MilestoneRejected { project_id: Seq<char>, index: u32 },
    MilestoneReleased { project_id: Seq<char>, index: u32, amount: u64 },
    Voted { project_id: Seq<char>, voter: Seq<char>, value: i32 },
    VoteWithdrawn { project_id: Seq<char>, voter: Seq<char> },
    Initialized { admin: Seq<char> },
    Upgraded { version: u32 },
}

/// The one notification that a successful mutating operation publishes.
#[derive(Debug)]
pub enum Notification {
    ProjectCreated { project_id: String, creator: Address },
    MetadataUpdated { project_id: String },
    MilestoneCountChanged { project_id: String, milestone_count: u32 },
    Closed { project_id: String },
    /// Carries the amount actually credited, not the amount requested.
    Funded { project_id: String, funder: Address, amount: u64 },
    Refunded { project_id: String, amount: u64 },
    MilestoneApproved { project_id: String, index: u32 },
    MilestoneRejected { project_id: String, index: u32 },
    MilestoneReleased { project_id: String, index: u32, amount: u64 },
    Voted { project_id: String, voter: Address, value: i32 },
    VoteWithdrawn { project_id: String, voter: Address },
    Initialized { admin: Address },
    Upgraded { version: u32 },
}

impl View for Notification {
    type V = NotificationView;

    open spec fn view(&self) -> NotificationView {
        match self {
            Notification::ProjectCreated { project_id, creator } => NotificationView::ProjectCreated {
                project_id: project_id@,
                creator: creator@,
            },
            Notification::MetadataUpdated { project_id } => NotificationView::MetadataUpdated {
                project_id: project_id@,
            },
            Notification::MilestoneCountChanged {
                project_id,
                milestone_count,
            } => NotificationView::MilestoneCountChanged {
                project_id: project_id@,
                milestone_count: *milestone_count,
            },
            Notification::Closed { project_id } => NotificationView::Closed {
                project_id: project_id@,
            },
            Notification::Funded { project_id, funder, amount } => NotificationView::Funded {
                project_id: project_id@,
                funder: funder@,
                amount: *amount,
            },
            Notification::Refunded { project_id, amount } => NotificationView::Refunded {
                project_id: project_id@,
                amount: *amount,
            },
            Notification::MilestoneApproved { project_id, index } => NotificationView::MilestoneApproved {
                project_id: project_id@,
                index: *index,
            },
            Notification::MilestoneRejected { project_id, index } => NotificationView::MilestoneRejected {
                project_id: project_id@,
                index: *index,
            },
            Notification::MilestoneReleased {
                project_id,
                index,
                amount,
            } => NotificationView::MilestoneReleased {
                project_id: project_id@,
                index: *index,
                amount: *amount,
            },
            Notification::Voted { project_id, voter, value } => NotificationView::Voted {
                project_id: project_id@,
                voter: voter@,
                value: *value,
            },
            Notification::VoteWithdrawn { project_id, voter } => NotificationView::VoteWithdrawn {
                project_id: project_id@,
                voter: voter@,
            },
            Notification::Initialized { admin } => NotificationView::Initialized { admin: admin@ },
            Notification::Upgraded { version } => NotificationView::Upgraded { version: *version },
        }
    }
}

} // verus!
