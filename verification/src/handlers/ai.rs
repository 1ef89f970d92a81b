//! The AI writing aids: when they are available, which prompt is used,
//! what a batch previews, and the tally of batch runs.

use vstd::prelude::*;
use crate::error::ApiError;
use crate::text::{chars_of, chars_eq, string_from_chars, decimal, i64_decimal};

verus! {

broadcast use vstd::string::group_string_axioms;

/// A request to process one text.
pub struct AiProcessRequest {
    pub content: String,
    pub custom_prompt: Option<String>,
}

/// The processed text.
pub struct AiProcessResponse {
    pub result: String,
}

/// A request to process several blogs with one action.
pub struct BatchAiRequest {
    pub blog_ids: Vec<i64>,
    pub action: String,
}

/// One previewed result of a batch.
pub struct BatchPreviewItem {
    pub blog_id: i64,
    pub title: String,
    pub original: String,
    pub result: String,
}

/// The previews of a batch.
pub struct BatchPreviewResponse {
    pub items: Vec<BatchPreviewItem>,
}

/// Results to save.
pub struct BatchConfirmRequest {
    pub items: Vec<BatchConfirmItem>,
}

/// One result to save.
pub struct BatchConfirmItem {
    pub blog_id: i64,
    pub action: String,
    pub result: String,
}

/// How saving a batch went.
pub struct BatchConfirmResponse {
    pub updated: i64,
    pub errors: Vec<String>,
}

/// Whether the AI aids can be used.
pub struct AiStatusResponse {
    pub enabled: bool,
}

/// A request to summarize many blogs.
pub struct BatchSummarizeAllRequest {
    /// Only blogs without a summary (by default).
    pub only_empty: bool,
    /// Requests at a time (1 by default, at most 10).
    pub concurrency: usize,
}

/// How a run over many blogs went.
pub struct BatchSummarizeAllResponse {
    pub total: i64,
    pub success: i64,
    pub skipped: i64,
    pub errors: Vec<String>,
}

/// The default of `only_empty`.
pub fn default_true() -> (b: bool)
    ensures
        b,
{
    true
}

/// The default of `concurrency`.
pub fn default_concurrency() -> (n: usize)
    ensures
        n == 1,
{
    1
}

impl BatchSummarizeAllRequest {
    /// The number of requests run at a time: the one asked for, within
    /// `1..=10`.
    pub fn effective_concurrency(&self) -> (n: usize)
        ensures
            n == if self.concurrency < 1 {
                1
            } else if self.concurrency > 10 {
                10
            } else {
                self.concurrency
            },
    {
        if self.concurrency < 1 {
            1
        } else if self.concurrency > 10 {
            10
        } else {
            self.concurrency
        }
    }
}

/// The value is present and equals `true`.
pub open spec fn is_true_setting(v: Option<Seq<char>>) -> bool {
    match v {
        Some(s) => s == "true"@,
        None => false,
    }
}

/// The value is present and not empty.
pub open spec fn is_filled_setting(v: Option<Seq<char>>) -> bool {
    match v {
        Some(s) => s.len() > 0,
        None => false,
    }
}

/// The text of an optional setting.
pub open spec fn setting_view(v: Option<String>) -> Option<Seq<char>> {
    match v {
        Some(s) => Some(s@),
        None => None,
    }
}

fn is_true(v: &Option<String>) -> (b: bool)
    ensures
        b == is_true_setting(setting_view(*v)),
{
    match v {
        Some(s) => {
            let a = chars_of(s.as_str());
            let t = chars_of("true");
            chars_eq(a.as_slice(), t.as_slice())
        },
        None => false,
    }
}

fn is_filled(v: &Option<String>) -> (b: bool)
    ensures
        b == is_filled_setting(setting_view(*v)),
{
    match v {
        Some(s) => !s.as_str().is_empty(),
        None => false,
    }
}

/// The status reported to the editor: the aids are on and a key is set.
pub fn ai_status(enabled: &Option<String>, api_key: &Option<String>) -> (r: AiStatusResponse)
    ensures
        r.enabled == (is_true_setting(setting_view(*enabled)) && is_filled_setting(
            setting_view(*api_key),
        )),
{
    AiStatusResponse { enabled: is_true(enabled) && is_filled(api_key) }
}

/// What the AI client is built from.
pub struct AiSettings {
    pub api_key: String,
    pub base_url: String,
    pub model: String,
}

/// The value of a setting, or `default` when it is absent.
pub open spec fn or_default(v: Option<Seq<char>>, default: Seq<char>) -> Seq<char> {
    match v {
        Some(s) => s,
        None => default,
    }
}

impl AiSettings {
    /// The settings of the AI client from the stored values, or why the
    /// aids cannot be used: `AI功能未启用` unless `ai_enabled` is `true`,
    /// `AI API密钥未配置` without a non-empty key. The base URL and model
    /// fall back to the OpenAI defaults.
    pub fn from_settings(
        enabled: Option<String>,
        api_key: Option<String>,
        base_url: Option<String>,
        model: Option<String>,
    ) -> (r: Result<AiSettings, String>)
        ensures
            match r {
                Ok(s) => {
                    &&& is_true_setting(setting_view(enabled))
                    &&& is_filled_setting(setting_view(api_key))
                    &&& Some(s.api_key@) == setting_view(api_key)
                    &&& s.base_url@ == or_default(setting_view(base_url), "https://api.openai.com/v1"@)
                    &&& s.model@ == or_default(setting_view(model), "gpt-3.5-turbo"@)
                },
                Err(m) => if !is_true_setting(setting_view(enabled)) {
                    m@ == "AI功能未启用"@
                } else {
                    !is_filled_setting(setting_view(api_key)) && m@ == "AI API密钥未配置"@
                },
            },
    {
        if !is_true(&enabled) {
            return Err(String::from_str("AI功能未启用"));
        }
        if !is_filled(&api_key) {
            return Err(String::from_str("AI API密钥未配置"));
        }
        let key = match api_key {
            Some(k) => k,
            None => {
                return Err(String::from_str("AI API密钥未配置"));
            },
        };
        let base_url = match base_url {
            Some(u) => u,
            None => String::from_str("https://api.openai.com/v1"),
        };
        let model = match model {
            Some(m) => m,
            None => String::from_str("gpt-3.5-turbo"),
        };
        Ok(AiSettings { api_key: key, base_url, model })
    }

    /// The same decision with the refusal as a validation error.
    pub fn load(
        enabled: Option<String>,
        api_key: Option<String>,
        base_url: Option<String>,
        model: Option<String>,
    ) -> (r: Result<AiSettings, ApiError>)
        ensures
            match r {
                Ok(s) => {
                    &&& is_true_setting(setting_view(enabled))
                    &&& is_filled_setting(setting_view(api_key))
                    &&& Some(s.api_key@) == setting_view(api_key)
                    &&& s.base_url@ == or_default(setting_view(base_url), "https://api.openai.com/v1"@)
                    &&& s.model@ == or_default(setting_view(model), "gpt-3.5-turbo"@)
                },
                Err(e) => e matches ApiError::ValidationError(m) && if !is_true_setting(
                    setting_view(enabled),
                ) {
                    m@ == "AI功能未启用"@
                } else {
                    !is_filled_setting(setting_view(api_key)) && m@ == "AI API密钥未配置"@
                },
            },
    {
        match Self::from_settings(enabled, api_key, base_url, model) {
            Ok(s) => Ok(s),
            Err(m) => Err(ApiError::ValidationError(m)),
        }
    }
}

/// The prompt used when none is given or configured for polishing.
pub open spec fn default_polish_prompt() -> Seq<char> {
    "请润色以下文章内容，保持Markdown格式。"@
}

/// The prompt used when none is given or configured for summaries.
pub open spec fn default_summary_prompt() -> Seq<char> {
    "请为以下文章生成简洁摘要，不超过200字。"@
}

/// The stored polish prompt, or the default one.
pub fn polish_prompt_or_default(configured: Option<String>) -> (r: String)
    ensures
        r@ == or_default(setting_view(configured), default_polish_prompt()),
{
    match configured {
        Some(p) => p,
        None => String::from_str("请润色以下文章内容，保持Markdown格式。"),
    }
}

/// The stored summary prompt, or the default one.
pub fn summary_prompt_or_default(configured: Option<String>) -> (r: String)
    ensures
        r@ == or_default(setting_view(configured), default_summary_prompt()),
{
    match configured {
        Some(p) => p,
        None => String::from_str("请为以下文章生成简洁摘要，不超过200字。"),
    }
}

/// The prompt given with a request, when it is not empty (otherwise the
/// stored or default prompt is used).
pub fn usable_custom_prompt(custom: Option<String>) -> (r: Option<String>)
    ensures
        match custom {
            Some(p) => if p@.len() > 0 {
                r == Some(p)
            } else {
                r is None
            },
            None => r is None,
        },
{
    match custom {
        Some(p) => if p.as_str().is_empty() {
            None
        } else {
            Some(p)
        },
        None => None,
    }
}

/// The action of a batch.
#[derive(Clone, Copy, PartialEq, Eq, Debug, Structural)]
pub enum BatchAction {
    Polish,
    Summarize,
    Unknown,
}

/// The action named by `a`.
pub open spec fn batch_action_spec(a: Seq<char>) -> BatchAction {
    if a == "polish"@ {
        BatchAction::Polish
    } else if a == "summarize"@ {
        BatchAction::Summarize
    } else {
        BatchAction::Unknown
    }
}

/// Reads the action of a batch.
pub fn parse_batch_action(action: &str) -> (r: BatchAction)
    ensures
        r == batch_action_spec(action@),
{
    let a = chars_of(action);
    let p = chars_of("polish");
    let s = chars_of("summarize");
    if chars_eq(a.as_slice(), p.as_slice()) {
        BatchAction::Polish
    } else if chars_eq(a.as_slice(), s.as_slice()) {
        BatchAction::Summarize
    } else {
        BatchAction::Unknown
    }
}

/// The original text shown beside a result: for a summary the first 200
/// characters followed by `...`, otherwise the whole content.
pub open spec fn preview_original_spec(action: BatchAction, content: Seq<char>) -> Seq<char> {
    if action == BatchAction::Summarize {
        content.take(if content.len() < 200 {
            content.len() as int
        } else {
            200
        }) + "..."@
    } else {
        content
    }
}

/// A summary preview shows the opening of the content: its first 200
/// characters (all of it when shorter), then `...`; any other action shows
/// the content whole.
pub proof fn lemma_preview_shows_opening(action: BatchAction, content: Seq<char>)
    ensures
        ({
            let r = preview_original_spec(action, content);
            let m = if content.len() < 200 {
                content.len() as int
            } else {
                200
            };
            &&& action == BatchAction::Summarize ==> {
                &&& r.len() == m + 3
                &&& forall|i: int| 0 <= i < m ==> #[trigger] r[i] == content[i]
                &&& r[m] == '.' && r[m + 1] == '.' && r[m + 2] == '.'
            }
            &&& action != BatchAction::Summarize ==> r == content
        }),
{
    reveal_strlit("...");
}

/// The original text of a preview.
pub fn preview_original(action: BatchAction, content: String) -> (r: String)
    ensures
        r@ == preview_original_spec(action, content@),
{
    if action == BatchAction::Summarize {
        let v = chars_of(content.as_str());
        let n: usize = if v.len() < 200 {
            v.len()
        } else {
            200
        };
        let head = string_from_chars(&v.as_slice()[0..n]);
        proof {
            assert(v@.subrange(0, n as int) =~= content@.take(n as int));
        }
        head.concat("...")
    } else {
        content
    }
}

/// `"Blog <id>: <detail>"`.
pub open spec fn blog_message(id: i64, detail: Seq<char>) -> Seq<char> {
    "Blog "@ + decimal(id as int) + ": "@ + detail
}

fn blog_message_exec(id: i64, detail: &str) -> (r: String)
    ensures
        r@ == blog_message(id, detail@),
{
    let d = string_from_chars(i64_decimal(id).as_slice());
    String::from_str("Blog ").concat(d.as_str()).concat(": ").concat(detail)
}

impl BatchConfirmResponse {
    /// Nothing saved yet.
    pub fn new() -> (r: Self)
        ensures
            r.updated == 0,
            r.errors@.len() == 0,
    {
        BatchConfirmResponse { updated: 0, errors: Vec::new() }
    }

    /// A result whose action is unknown is not saved and is reported.
    pub fn record_unknown_action(&mut self, blog_id: i64)
        ensures
            final(self).updated == old(self).updated,
            final(self).errors@.len() == old(self).errors@.len() + 1,
            final(self).errors@.take(old(self).errors@.len() as int) == old(self).errors@,
            final(self).errors@.last()@ == blog_message(blog_id, "无效的操作类型"@),
    {
        let m = blog_message_exec(blog_id, "无效的操作类型");
        let ghost before = self.errors@;
        self.errors.push(m);
        proof {
            assert(self.errors@.take(before.len() as int) =~= before);
        }
    }

    /// Counts a saved result, or reports why it was not saved.
    pub fn record_save(&mut self, blog_id: i64, outcome: Result<(), String>)
        requires
            old(self).updated < i64::MAX,
        ensures
            match outcome {
                Ok(()) => final(self).updated == old(self).updated + 1 && final(self).errors@
                    == old(self).errors@,
                Err(e) => {
                    &&& final(self).updated == old(self).updated
                    &&& final(self).errors@.len() == old(self).errors@.len() + 1
                    &&& final(self).errors@.take(old(self).errors@.len() as int) == old(
                        self,
                    ).errors@
                    &&& final(self).errors@.last()@ == blog_message(blog_id, e@)
                },
            },
    {
        match outcome {
            Ok(()) => {
                self.updated = self.updated + 1;
            },
            Err(e) => {
                let m = blog_message_exec(blog_id, e.as_str());
                let ghost before = self.errors@;
                self.errors.push(m);
                proof {
                    assert(self.errors@.take(before.len() as int) =~= before);
                }
            },
        }
    }
}

/// Why one blog of a run over many could not be summarized.
pub enum SummaryFailure {
    /// The AI request failed.
    Ai(String),
    /// Saving the summary failed.
    Save(String),
}

/// The report of a failure for the blog titled `title`.
pub open spec fn summary_failure_message(title: Seq<char>, f: SummaryFailure) -> Seq<char> {
    match f {
        SummaryFailure::Ai(e) => title + ": AI处理失败 - "@ + e@,
        SummaryFailure::Save(e) => title + ": 保存失败 - "@ + e@,
    }
}

impl BatchSummarizeAllResponse {
    /// A run over `total` blogs before any is done.
    pub fn start(total: usize) -> (r: Self)
        requires
            total <= i64::MAX,
        ensures
            r.total == total,
            r.success == 0,
            r.skipped == 0,
            r.errors@.len() == 0,
    {
        BatchSummarizeAllResponse { total: total as i64, success: 0, skipped: 0, errors: Vec::new() }
    }

    /// Counts a blog that was summarized and saved, or reports the failure.
    pub fn record(&mut self, title: &str, outcome: Result<(), SummaryFailure>)
        requires
            old(self).success < i64::MAX,
        ensures
            final(self).total == old(self).total,
            final(self).skipped == old(self).skipped,
            match outcome {
                Ok(()) => final(self).success == old(self).success + 1 && final(self).errors@
                    == old(self).errors@,
                Err(f) => {
                    &&& final(self).success == old(self).success
                    &&& final(self).errors@.len() == old(self).errors@.len() + 1
                    &&& final(self).errors@.take(old(self).errors@.len() as int) == old(
                        self,
                    ).errors@
                    &&& final(self).errors@.last()@ == summary_failure_message(title@, f)
                },
            },
    {
        match outcome {
            Ok(()) => {
                self.success = self.success + 1;
            },
            Err(f) => {
                let m = match f {
                    SummaryFailure::Ai(e) => title.to_owned().concat(": AI处理失败 - ").concat(
                        e.as_str(),
                    ),
                    SummaryFailure::Save(e) => title.to_owned().concat(": 保存失败 - ").concat(
                        e.as_str(),
                    ),
                };
                let ghost before = self.errors@;
                self.errors.push(m);
                proof {
                    assert(self.errors@.take(before.len() as int) =~= before);
                }
            },
        }
    }
}

} // verus!
