use echotrans::mt::{
    api_error, assemble_translation, collect_translations, reply_action, target_lang,
    target_lang_with, translate_url, translation_plan, ReplyAction, TokenCache,
    BAD_REPLY_FORMAT, EMPTY_TOKEN, LINE_COUNT_MISMATCH, MT_ERROR_DETAIL_CHARS, NO_TRANSLATION,
    TOKEN_TTL_NANOS,
};

#[test]
fn chinese_goes_to_english_else_to_chinese() {
    assert_eq!(target_lang("你好世界"), "en");
    assert_eq!(target_lang("hello"), "zh-Hans");
    assert_eq!(target_lang("你好 ab"), "zh-Hans");
    assert_eq!(target_lang("你好吗 ab"), "en");
    assert_eq!(target_lang("12345 !?"), "zh-Hans");
    assert_eq!(target_lang("Grüße"), "zh-Hans");
    assert_eq!(target_lang(""), "zh-Hans");
}

#[test]
fn target_lang_from_flags() {
    let chars: Vec<char> = "中x".chars().collect();
    assert_eq!(target_lang_with(&chars, &[false, false]), "en");
    assert_eq!(target_lang_with(&chars, &[false, true]), "zh-Hans");
}

#[test]
fn multi_line_text_is_sent_line_by_line() {
    let (units, preserve) = translation_plan("first\n\n  second\n   \nthird");
    assert!(preserve);
    assert_eq!(units, vec!["first", "  second", "third"]);
    let (units, preserve) = translation_plan("only one\n\n");
    assert!(!preserve);
    assert_eq!(units, vec!["only one\n\n"]);
}

#[test]
fn too_many_lines_are_sent_whole() {
    let text: String = (0..101).map(|i| format!("l{i}")).collect::<Vec<_>>().join("\n");
    let (units, preserve) = translation_plan(&text);
    assert!(!preserve);
    assert_eq!(units.len(), 1);
    let text100: String = (0..100).map(|i| format!("l{i}")).collect::<Vec<_>>().join("\n");
    let (units, preserve) = translation_plan(&text100);
    assert!(preserve);
    assert_eq!(units.len(), 100);
}

#[test]
fn layout_is_restored() {
    let text = "first\n\n  second\n   \nthird";
    let tr = vec!["一".to_string(), "二".to_string(), "三".to_string()];
    assert_eq!(assemble_translation(text, true, &tr), Ok("一\n\n二\n\n三".to_string()));
    let short = vec!["一".to_string()];
    assert_eq!(assemble_translation(text, true, &short), Err(LINE_COUNT_MISMATCH.to_string()));
    let extra = vec!["一".to_string(), "二".to_string(), "三".to_string(), "四".to_string()];
    assert_eq!(assemble_translation(text, true, &extra), Ok("一\n\n二\n\n三".to_string()));
}

#[test]
fn whole_text_takes_first_translation() {
    assert_eq!(assemble_translation("x", false, &vec!["y".to_string(), "z".to_string()]), Ok("y".to_string()));
    assert_eq!(assemble_translation("x", false, &vec![]), Err(NO_TRANSLATION.to_string()));
}

#[test]
fn reply_items_must_all_carry_text() {
    assert_eq!(collect_translations(&None), Err(BAD_REPLY_FORMAT.to_string()));
    assert_eq!(
        collect_translations(&Some(vec![Some("a".to_string()), Some("b".to_string())])),
        Ok(vec!["a".to_string(), "b".to_string()])
    );
    assert_eq!(
        collect_translations(&Some(vec![Some("a".to_string()), None])),
        Err(NO_TRANSLATION.to_string())
    );
    assert_eq!(
        collect_translations(&Some(vec![Some(String::new())])),
        Err(NO_TRANSLATION.to_string())
    );
    assert_eq!(collect_translations(&Some(vec![])), Ok(vec![]));
}

#[test]
fn token_is_reused_while_young() {
    let mut cache = TokenCache::new();
    assert_eq!(cache.cached(false, 0), None);
    assert_eq!(cache.store("  tok\n", 100), Ok("tok".to_string()));
    assert_eq!(cache.cached(false, 100 + TOKEN_TTL_NANOS - 1), Some("tok".to_string()));
    assert_eq!(cache.cached(false, 100 + TOKEN_TTL_NANOS), None);
    assert_eq!(cache.cached(true, 101), None);
    assert_eq!(cache.cached(false, 50), Some("tok".to_string()));
    assert_eq!(cache.store(" \n", 200), Err(EMPTY_TOKEN.to_string()));
    assert_eq!(cache.cached(false, 200), Some("tok".to_string()));
}

#[test]
fn reply_status_decisions() {
    assert_eq!(reply_action(401, 0), ReplyAction::RetryWithFreshToken);
    assert_eq!(reply_action(401, 1), ReplyAction::Reject);
    assert_eq!(reply_action(500, 0), ReplyAction::Reject);
    assert_eq!(reply_action(200, 0), ReplyAction::Accept);
    assert_eq!(reply_action(204, 1), ReplyAction::Accept);
    assert_eq!(reply_action(302, 0), ReplyAction::Reject);
}

#[test]
fn urls_and_error_text() {
    assert_eq!(
        translate_url("en"),
        "https://api-edge.cognitive.microsofttranslator.com/translate?api-version=3.0&to=en"
    );
    assert_eq!(api_error("400 Bad Request", "oops", 200), "接口返回 400 Bad Request：oops");
    let body = "x".repeat(500);
    let msg = api_error("500 Internal Server Error", &body, MT_ERROR_DETAIL_CHARS);
    assert_eq!(msg, format!("接口返回 500 Internal Server Error：{}", "x".repeat(200)));
}

#[test]
fn unchanged_lines_come_back_in_place() {
    let text = "a\n \t\nb\n\nc";
    let (units, preserve) = translation_plan(text);
    assert!(preserve);
    assert_eq!(assemble_translation(text, true, &units), Ok("a\n\nb\n\nc".to_string()));
}

#[test]
fn reply_items_reads_each_translation() {
    let body = r#"[{"translations":[{"text":"Hello","to":"en"}]},{"translations":[]},{"other":1}]"#;
    assert_eq!(
        echotrans::mt::reply_items(body),
        Some(vec![Some("Hello".to_string()), None, None])
    );
    assert_eq!(echotrans::mt::reply_items("[]"), Some(vec![]));
}

#[test]
fn reply_items_refuses_what_is_not_a_list() {
    assert_eq!(echotrans::mt::reply_items(r#"{"error":{"code":401}}"#), None);
    assert_eq!(echotrans::mt::reply_items("not json"), None);
}

#[test]
fn reply_items_then_collect() {
    let items = echotrans::mt::reply_items(r#"[{"translations":[{"text":"你好"}]}]"#);
    assert_eq!(collect_translations(&items), Ok(vec!["你好".to_string()]));
    let bad = echotrans::mt::reply_items("{}");
    assert_eq!(collect_translations(&bad), Err(BAD_REPLY_FORMAT.to_string()));
}

#[test]
fn second_attempt_refreshes_token_then_gives_up() {
    assert!(!echotrans::mt::refresh_token_on(0));
    assert!(echotrans::mt::refresh_token_on(1));
    assert_eq!(echotrans::mt::next_attempt(0), Ok(1));
    assert_eq!(
        echotrans::mt::next_attempt(1),
        Err(echotrans::mt::AUTH_EXPIRED.to_string())
    );
}
