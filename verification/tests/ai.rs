use stellux::handlers::ai::{
    ai_status, default_concurrency, default_true, parse_batch_action, polish_prompt_or_default,
    preview_original, summary_prompt_or_default, usable_custom_prompt, AiSettings, BatchAction,
    BatchConfirmResponse, BatchSummarizeAllRequest, BatchSummarizeAllResponse, SummaryFailure,
};
use stellux::error::ApiError;

fn s(v: &str) -> Option<String> {
    Some(v.to_string())
}

#[test]
fn defaults_and_concurrency() {
    assert!(default_true());
    assert_eq!(default_concurrency(), 1);
    for (asked, used) in [(0usize, 1usize), (1, 1), (4, 4), (10, 10), (50, 10)] {
        let r = BatchSummarizeAllRequest { only_empty: true, concurrency: asked };
        assert_eq!(r.effective_concurrency(), used);
    }
}

#[test]
fn status_needs_switch_and_key() {
    assert!(ai_status(&s("true"), &s("k")).enabled);
    assert!(!ai_status(&s("true"), &s("")).enabled);
    assert!(!ai_status(&s("yes"), &s("k")).enabled);
    assert!(!ai_status(&None, &s("k")).enabled);
}

#[test]
fn settings_are_checked_and_defaulted() {
    let ok = AiSettings::from_settings(s("true"), s("key"), None, None).ok().unwrap();
    assert_eq!((ok.api_key.as_str(), ok.base_url.as_str(), ok.model.as_str()), ("key", "https://api.openai.com/v1", "gpt-3.5-turbo"));
    let custom = AiSettings::from_settings(s("true"), s("key"), s("http://local"), s("m")).ok().unwrap();
    assert_eq!((custom.base_url.as_str(), custom.model.as_str()), ("http://local", "m"));
    assert_eq!(AiSettings::from_settings(s("false"), s("key"), None, None).err(), Some("AI功能未启用".to_string()));
    assert_eq!(AiSettings::from_settings(s("true"), s(""), None, None).err(), Some("AI API密钥未配置".to_string()));
    assert_eq!(AiSettings::from_settings(s("true"), None, None, None).err(), Some("AI API密钥未配置".to_string()));
    match AiSettings::load(None, None, None, None) {
        Err(ApiError::ValidationError(m)) => assert_eq!(m, "AI功能未启用"),
        _ => panic!(),
    }
}

#[test]
fn prompts() {
    assert_eq!(usable_custom_prompt(s("mine")), s("mine"));
    assert_eq!(usable_custom_prompt(s("")), None);
    assert_eq!(usable_custom_prompt(None), None);
    assert_eq!(polish_prompt_or_default(None), "请润色以下文章内容，保持Markdown格式。");
    assert_eq!(summary_prompt_or_default(None), "请为以下文章生成简洁摘要，不超过200字。");
    assert_eq!(summary_prompt_or_default(s("p")), "p");
}

#[test]
fn actions_and_previews() {
    assert_eq!(parse_batch_action("polish"), BatchAction::Polish);
    assert_eq!(parse_batch_action("summarize"), BatchAction::Summarize);
    assert_eq!(parse_batch_action("Polish"), BatchAction::Unknown);
    let long: String = "字".repeat(250);
    let p = preview_original(BatchAction::Summarize, long.clone());
    assert_eq!(p.chars().count(), 203);
    assert!(p.ends_with("..."));
    assert_eq!(preview_original(BatchAction::Summarize, "short".into()), "short...");
    assert_eq!(preview_original(BatchAction::Polish, long.clone()), long);
}

#[test]
fn batch_tallies() {
    let mut c = BatchConfirmResponse::new();
    c.record_save(1, Ok(()));
    c.record_save(2, Err("db down".into()));
    c.record_unknown_action(3);
    assert_eq!(c.updated, 1);
    assert_eq!(c.errors, vec!["Blog 2: db down".to_string(), "Blog 3: 无效的操作类型".to_string()]);
    let mut a = BatchSummarizeAllResponse::start(3);
    a.record("A", Ok(()));
    a.record("B", Err(SummaryFailure::Ai("timeout".into())));
    a.record("C", Err(SummaryFailure::Save("locked".into())));
    assert_eq!((a.total, a.success, a.skipped), (3, 1, 0));
    assert_eq!(a.errors, vec!["B: AI处理失败 - timeout".to_string(), "C: 保存失败 - locked".to_string()]);
}
