//! Site settings.

use vstd::prelude::*;
use crate::models::Timestamp;

verus! {

/// A stored setting.
pub struct SiteConfig {
    pub id: i64,
    pub config_key: String,
    pub config_value: Option<String>,
    pub config_type: Option<String>,
    pub description: Option<String>,
    pub created_at: Option<Timestamp>,
    pub updated_at: Option<Timestamp>,
}

/// A request to change several settings.
pub struct UpdateConfigRequest {
    pub configs: Vec<ConfigItem>,
}

/// One setting to change.
pub struct ConfigItem {
    pub key: String,
    pub value: String,
}

/// The public settings of the site.
pub struct SiteConfigResponse {
    pub site_title: String,
    pub site_subtitle: String,
    pub site_description: String,
    pub site_keywords: String,
    pub blog_global_summary: String,
    pub owner_name: String,
    pub owner_avatar: String,
    pub owner_bio: String,
    pub owner_email: String,
    pub social_github: String,
    pub social_twitter: String,
    pub social_weibo: String,
    pub social_zhihu: String,
    pub social_telegram: String,
    pub social_qq_qrcode: String,
    pub social_wechat_qrcode: String,
    pub icp_number: String,
    pub police_number: String,
    pub footer_text: String,
    pub analytics_code: String,
}

/// The object storage settings kept among the site settings.
pub struct S3Config {
    pub endpoint: String,
    pub region: String,
    pub bucket: String,
    pub access_key: String,
    pub secret_key: String,
    pub public_url: String,
}

} // verus!
