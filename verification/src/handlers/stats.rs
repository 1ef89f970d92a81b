//! The dashboard counts.

use vstd::prelude::*;

verus! {

broadcast use vstd::string::group_string_axioms;

/// The counts shown on the dashboard.
pub struct DashboardStats {
    pub blog_count: i64,
    pub category_count: i64,
    pub tag_count: i64,
    pub total_views: i64,
    pub file_count: i64,
    pub friend_link_count: i64,
    pub project_count: i64,
}

impl DashboardStats {
    /// The dashboard from the counted rows; views count as 0 when there is
    /// no blog to sum over.
    pub fn from_counts(
        blog_count: i64,
        category_count: i64,
        tag_count: i64,
        total_views: Option<i64>,
        file_count: i64,
        friend_link_count: i64,
        project_count: i64,
    ) -> (r: Self)
        ensures
            r.blog_count == blog_count && r.category_count == category_count,
            r.tag_count == tag_count && r.file_count == file_count,
            r.friend_link_count == friend_link_count && r.project_count == project_count,
            r.total_views == match total_views {
                Some(v) => v,
                None => 0,
            },
    {
        DashboardStats {
            blog_count,
            category_count,
            tag_count,
            total_views: match total_views {
                Some(v) => v,
                None => 0,
            },
            file_count,
            friend_link_count,
            project_count,
        }
    }
}

} // verus!
