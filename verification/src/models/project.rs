//! Projects shown on the site.

use vstd::prelude::*;
use crate::models::Timestamp;

verus! {

/// A project row.
pub struct Project {
    pub id: i64,
    pub name: String,
    pub description: Option<String>,
    pub logo: Option<String>,
    pub github_url: Option<String>,
    pub preview_url: Option<String>,
    pub download_url: Option<String>,
    pub sort_order: Option<i32>,
    pub created_at: Option<Timestamp>,
}

/// A request to add a project.
pub struct CreateProjectRequest {
    pub name: String,
    pub description: Option<String>,
    pub logo: Option<String>,
    pub github_url: Option<String>,
    pub preview_url: Option<String>,
    pub download_url: Option<String>,
    pub sort_order: Option<i32>,
}

/// A request to change a project; absent fields are left as they are.
pub struct UpdateProjectRequest {
    pub name: Option<String>,
    pub description: Option<String>,
    pub logo: Option<String>,
    pub github_url: Option<String>,
    pub preview_url: Option<String>,
    pub download_url: Option<String>,
    pub sort_order: Option<i32>,
}

/// A project as answered to clients; a missing order reads as 0.
pub struct ProjectResponse {
    pub id: i64,
    pub name: String,
    pub description: Option<String>,
    pub logo: Option<String>,
    pub github_url: Option<String>,
    pub preview_url: Option<String>,
    pub download_url: Option<String>,
    pub sort_order: i32,
    pub created_at: Option<Timestamp>,
}

/// The order a project is shown with.
pub open spec fn shown_order(o: Option<i32>) -> i32 {
    match o {
        Some(v) => v,
        None => 0,
    }
}

impl From<Project> for ProjectResponse {
    fn from(p: Project) -> (r: Self) {
        let sort_order = match p.sort_order {
            Some(v) => v,
            None => 0,
        };
        ProjectResponse {
            id: p.id,
            name: p.name,
            description: p.description,
            logo: p.logo,
            github_url: p.github_url,
            preview_url: p.preview_url,
            download_url: p.download_url,
            sort_order,
            created_at: p.created_at,
        }
    }
}

impl vstd::std_specs::convert::FromSpecImpl<Project> for ProjectResponse {
    open spec fn obeys_from_spec() -> bool {
        true
    }

    open spec fn from_spec(p: Project) -> Self {
        ProjectResponse {
            id: p.id,
            name: p.name,
            description: p.description,
            logo: p.logo,
            github_url: p.github_url,
            preview_url: p.preview_url,
            download_url: p.download_url,
            sort_order: shown_order(p.sort_order),
            created_at: p.created_at,
        }
    }
}

} // verus!
