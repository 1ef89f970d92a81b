//! Friend links and their review status.

use vstd::prelude::*;
use crate::models::Timestamp;

verus! {

/// Where a friend link stands in review.
#[derive(Clone, Copy, Debug, PartialEq, Eq, Structural)]
pub enum FriendLinkStatus {
    Pending,
    Approved,
    Rejected,
}

/// The stored number of a status.
pub open spec fn status_number(s: FriendLinkStatus) -> i16 {
    match s {
        FriendLinkStatus::Pending => 0,
        FriendLinkStatus::Approved => 1,
        FriendLinkStatus::Rejected => 2,
    }
}

/// The status a stored number stands for: 1 approved, 2 rejected, any
/// other number pending.
pub open spec fn status_of(v: i16) -> FriendLinkStatus {
    if v == 1 {
        FriendLinkStatus::Approved
    } else if v == 2 {
        FriendLinkStatus::Rejected
    } else {
        FriendLinkStatus::Pending
    }
}

impl From<i16> for FriendLinkStatus {
    fn from(v: i16) -> (r: Self) {
        if v == 1 {
            FriendLinkStatus::Approved
        } else if v == 2 {
            FriendLinkStatus::Rejected
        } else {
            FriendLinkStatus::Pending
        }
    }
}

impl vstd::std_specs::convert::FromSpecImpl<i16> for FriendLinkStatus {
    open spec fn obeys_from_spec() -> bool {
        true
    }

    open spec fn from_spec(v: i16) -> Self {
        status_of(v)
    }
}

impl From<FriendLinkStatus> for i16 {
    fn from(s: FriendLinkStatus) -> (r: Self) {
        match s {
            FriendLinkStatus::Pending => 0,
            FriendLinkStatus::Approved => 1,
            FriendLinkStatus::Rejected => 2,
        }
    }
}

impl vstd::std_specs::convert::FromSpecImpl<FriendLinkStatus> for i16 {
    open spec fn obeys_from_spec() -> bool {
        true
    }

    open spec fn from_spec(s: FriendLinkStatus) -> Self {
        status_number(s)
    }
}

/// A status survives being stored as a number and read back, and a stored
/// number reads back as itself exactly when it is one of 0, 1 and 2.
pub proof fn lemma_status_round_trip(s: FriendLinkStatus, v: i16)
    ensures
        status_of(status_number(s)) == s,
        status_number(status_of(v)) == v <==> 0 <= v <= 2,
{
}

/// A friend link row.
pub struct FriendLink {
    pub id: i64,
    pub name: String,
    pub url: String,
    pub logo: Option<String>,
    pub intro: Option<String>,
    pub email: Option<String>,
    pub status: i16,
    pub created_at: Option<Timestamp>,
}

/// A request to add a friend link.
pub struct CreateFriendLinkRequest {
    pub name: String,
    pub url: String,
    pub logo: Option<String>,
    pub intro: Option<String>,
    pub email: Option<String>,
    pub status: Option<i16>,
}

/// A request to change a friend link; absent fields are left as they are.
pub struct UpdateFriendLinkRequest {
    pub name: Option<String>,
    pub url: Option<String>,
    pub logo: Option<String>,
    pub intro: Option<String>,
    pub email: Option<String>,
    pub status: Option<i16>,
}

/// A friend link as answered to clients.
pub struct FriendLinkResponse {
    pub id: i64,
    pub name: String,
    pub url: String,
    pub logo: Option<String>,
    pub intro: Option<String>,
    pub email: Option<String>,
    pub status: i16,
    pub created_at: Option<Timestamp>,
}

impl From<FriendLink> for FriendLinkResponse {
    fn from(l: FriendLink) -> (r: Self) {
        FriendLinkResponse {
            id: l.id,
            name: l.name,
            url: l.url,
            logo: l.logo,
            intro: l.intro,
            email: l.email,
            status: l.status,
            created_at: l.created_at,
        }
    }
}

impl vstd::std_specs::convert::FromSpecImpl<FriendLink> for FriendLinkResponse {
    open spec fn obeys_from_spec() -> bool {
        true
    }

    open spec fn from_spec(l: FriendLink) -> Self {
        FriendLinkResponse {
            id: l.id,
            name: l.name,
            url: l.url,
            logo: l.logo,
            intro: l.intro,
            email: l.email,
            status: l.status,
            created_at: l.created_at,
        }
    }
}

} // verus!
