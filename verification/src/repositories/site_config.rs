//! Site settings read as a key–value table.

use vstd::prelude::*;
use crate::models::site_config::{S3Config, SiteConfig, SiteConfigResponse};
use crate::text::{chars_of, chars_eq};

verus! {

broadcast use vstd::string::group_string_axioms;

/// Site settings queries.
pub struct SiteConfigRepo;

/// The value stored under `key`: that of the last row with the key (an
/// absent value reads as empty), or `None` when no row has it.
pub open spec fn setting_value(rows: Seq<SiteConfig>, key: Seq<char>) -> Option<Seq<char>>
    decreases rows.len(),
{
    if rows.len() == 0 {
        None
    } else if rows.last().config_key@ == key {
        match rows.last().config_value {
            Some(v) => Some(v@),
            None => Some(Seq::empty()),
        }
    } else {
        setting_value(rows.drop_last(), key)
    }
}

/// The value under `key`, or `default` when no row has it.
pub open spec fn value_or(rows: Seq<SiteConfig>, key: Seq<char>, default: Seq<char>) -> Seq<char> {
    match setting_value(rows, key) {
        Some(v) => v,
        None => default,
    }
}

impl SiteConfigRepo {
    /// The value stored under `key`.
    pub fn value_of(rows: &Vec<SiteConfig>, key: &str) -> (r: Option<String>)
        ensures
            match r {
                Some(v) => setting_value(rows@, key@) == Some(v@),
                None => setting_value(rows@, key@) is None,
            },
    {
        let k = chars_of(key);
        let mut i: usize = rows.len();
        proof {
            assert(rows@.take(rows@.len() as int) =~= rows@);
        }
        while i > 0
            invariant
                i <= rows@.len(),
                k@ == key@,
                setting_value(rows@, key@) == setting_value(rows@.take(i as int), key@),
            decreases i,
        {
            let row = &rows[i - 1];
            proof {
                assert(rows@.take(i as int).drop_last() =~= rows@.take(i - 1));
                assert(rows@.take(i as int).last() == rows@[i - 1]);
            }
            let rk = chars_of(row.config_key.as_str());
            if chars_eq(rk.as_slice(), k.as_slice()) {
                return match &row.config_value {
                    Some(v) => Some(v.clone()),
                    None => Some(String::new()),
                };
            }
            i = i - 1;
        }
        None
    }

    /// The value under `key`, or an empty text.
    pub fn value_or_empty(rows: &Vec<SiteConfig>, key: &str) -> (r: String)
        ensures
            r@ == value_or(rows@, key@, Seq::empty()),
    {
        match Self::value_of(rows, key) {
            Some(v) => v,
            None => String::new(),
        }
    }

    /// The public settings of the site; each is empty when not stored.
    pub fn public_config(rows: &Vec<SiteConfig>) -> (r: SiteConfigResponse)
        ensures
            r.site_title@ == value_or(rows@, "site_title"@, Seq::empty()),
            r.site_subtitle@ == value_or(rows@, "site_subtitle"@, Seq::empty()),
            r.site_description@ == value_or(rows@, "site_description"@, Seq::empty()),
            r.site_keywords@ == value_or(rows@, "site_keywords"@, Seq::empty()),
            r.blog_global_summary@ == value_or(rows@, "blog_global_summary"@, Seq::empty()),
            r.owner_name@ == value_or(rows@, "owner_name"@, Seq::empty()),
            r.owner_avatar@ == value_or(rows@, "owner_avatar"@, Seq::empty()),
            r.owner_bio@ == value_or(rows@, "owner_bio"@, Seq::empty()),
            r.owner_email@ == value_or(rows@, "owner_email"@, Seq::empty()),
            r.social_github@ == value_or(rows@, "social_github"@, Seq::empty()),
            r.social_twitter@ == value_or(rows@, "social_twitter"@, Seq::empty()),
            r.social_weibo@ == value_or(rows@, "social_weibo"@, Seq::empty()),
            r.social_zhihu@ == value_or(rows@, "social_zhihu"@, Seq::empty()),
            r.social_telegram@ == value_or(rows@, "social_telegram"@, Seq::empty()),
            r.social_qq_qrcode@ == value_or(rows@, "social_qq_qrcode"@, Seq::empty()),
            r.social_wechat_qrcode@ == value_or(rows@, "social_wechat_qrcode"@, Seq::empty()),
            r.icp_number@ == value_or(rows@, "icp_number"@, Seq::empty()),
            r.police_number@ == value_or(rows@, "police_number"@, Seq::empty()),
            r.footer_text@ == value_or(rows@, "footer_text"@, Seq::empty()),
            r.analytics_code@ == value_or(rows@, "analytics_code"@, Seq::empty()),
    {
        SiteConfigResponse {
            site_title: Self::value_or_empty(rows, "site_title"),
            site_subtitle: Self::value_or_empty(rows, "site_subtitle"),
            site_description: Self::value_or_empty(rows, "site_description"),
            site_keywords: Self::value_or_empty(rows, "site_keywords"),
            blog_global_summary: Self::value_or_empty(rows, "blog_global_summary"),
            owner_name: Self::value_or_empty(rows, "owner_name"),
            owner_avatar: Self::value_or_empty(rows, "owner_avatar"),
            owner_bio: Self::value_or_empty(rows, "owner_bio"),
            owner_email: Self::value_or_empty(rows, "owner_email"),
            social_github: Self::value_or_empty(rows, "social_github"),
            social_twitter: Self::value_or_empty(rows, "social_twitter"),
            social_weibo: Self::value_or_empty(rows, "social_weibo"),
            social_zhihu: Self::value_or_empty(rows, "social_zhihu"),
            social_telegram: Self::value_or_empty(rows, "social_telegram"),
            social_qq_qrcode: Self::value_or_empty(rows, "social_qq_qrcode"),
            social_wechat_qrcode: Self::value_or_empty(rows, "social_wechat_qrcode"),
            icp_number: Self::value_or_empty(rows, "icp_number"),
            police_number: Self::value_or_empty(rows, "police_number"),
            footer_text: Self::value_or_empty(rows, "footer_text"),
            analytics_code: Self::value_or_empty(rows, "analytics_code"),
        }
    }

    /// The object storage settings; the region is `us-east-1` when not
    /// stored, the others empty.
    pub fn s3_config(rows: &Vec<SiteConfig>) -> (r: S3Config)
        ensures
            r.endpoint@ == value_or(rows@, "s3_endpoint"@, Seq::empty()),
            r.region@ == value_or(rows@, "s3_region"@, "us-east-1"@),
            r.bucket@ == value_or(rows@, "s3_bucket"@, Seq::empty()),
            r.access_key@ == value_or(rows@, "s3_access_key"@, Seq::empty()),
            r.secret_key@ == value_or(rows@, "s3_secret_key"@, Seq::empty()),
            r.public_url@ == value_or(rows@, "s3_public_url"@, Seq::empty()),
    {
        let region = match Self::value_of(rows, "s3_region") {
            Some(v) => v,
            None => String::from_str("us-east-1"),
        };
        S3Config {
            endpoint: Self::value_or_empty(rows, "s3_endpoint"),
            region,
            bucket: Self::value_or_empty(rows, "s3_bucket"),
            access_key: Self::value_or_empty(rows, "s3_access_key"),
            secret_key: Self::value_or_empty(rows, "s3_secret_key"),
            public_url: Self::value_or_empty(rows, "s3_public_url"),
        }
    }
}

} // verus!
