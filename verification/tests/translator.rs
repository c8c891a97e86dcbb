use echotrans::json::{json_array_len, json_str_at, key, JsonStep};
use echotrans::translator::{
    chat_completions_url, check_api_key, image_error_message, image_system_prompt,
    png_data_url, read_sse_line, sse_payload, SseDecoder, SseEvent, EMPTY_REPLY, IMAGE_INSTRUCTION,
    MISSING_API_KEY, VISION_HINT,
};

#[test]
fn api_key_must_be_set() {
    assert_eq!(check_api_key("  "), Err(MISSING_API_KEY.to_string()));
    assert_eq!(check_api_key("sk"), Ok(()));
}

#[test]
fn chat_url_accepts_base_or_full_address() {
    assert_eq!(chat_completions_url("https://api.openai.com/v1"), "https://api.openai.com/v1/chat/completions");
    assert_eq!(chat_completions_url(" https://api.deepseek.com/v1/// "), "https://api.deepseek.com/v1/chat/completions");
    assert_eq!(chat_completions_url("http://h/chat/completions/"), "http://h/chat/completions");
    assert_eq!(chat_completions_url(""), "/chat/completions");
}

#[test]
fn screenshot_prompt_and_url() {
    assert_eq!(image_system_prompt("P"), format!("P\n{}", IMAGE_INSTRUCTION));
    assert_eq!(png_data_url("QUJD"), "data:image/png;base64,QUJD");
}

#[test]
fn client_errors_get_the_vision_hint() {
    let m = image_error_message("接口返回 400 Bad Request：x".to_string());
    assert_eq!(m, format!("接口返回 400 Bad Request：x{}", VISION_HINT));
    assert_eq!(image_error_message("接口返回 500 x".to_string()), "接口返回 500 x");
    assert_eq!(image_error_message("请求失败：x".to_string()), "请求失败：x");
}

#[test]
fn reads_single_lines() {
    assert!(matches!(read_sse_line(b"data: [DONE]\n"), SseEvent::Done));
    assert!(matches!(read_sse_line(b": keep-alive\n"), SseEvent::Skip));
    assert!(matches!(read_sse_line(b"data: not json\n"), SseEvent::Skip));
    assert!(matches!(read_sse_line(b"data: {\"choices\":[{\"delta\":{\"content\":\"\"}}]}\n"), SseEvent::Skip));
    match read_sse_line(b"data:{\"choices\":[{\"delta\":{\"content\":\"Hi\"}}]}\r\n") {
        SseEvent::Text(t) => assert_eq!(t, "Hi"),
        other => panic!("unexpected {:?}", other),
    }
}

fn line(content: &str) -> String {
    format!("data: {{\"choices\":[{{\"delta\":{{\"content\":\"{}\"}}}}]}}\n", content)
}

#[test]
fn stream_decoding_ignores_chunk_boundaries() {
    let stream = format!("{}\n{}{}data: [DONE]\n{}", line("你好"), line("，"), line("世界"), line("after"));
    let bytes = stream.as_bytes();
    for cut in [1usize, 3, 7, 13, 64] {
        let mut d = SseDecoder::new();
        let mut pieces: Vec<String> = Vec::new();
        for chunk in bytes.chunks(cut) {
            pieces.extend(d.feed(chunk));
        }
        assert!(d.is_done());
        assert_eq!(pieces, vec!["你好", "，", "世界"]);
        assert_eq!(d.finish(), Ok("你好，世界".to_string()));
    }
}

#[test]
fn stream_without_done_or_text() {
    let mut d = SseDecoder::new();
    assert!(d.feed(line("ok").as_bytes()).len() == 1);
    assert!(!d.is_done());
    assert_eq!(d.finish(), Ok("ok".to_string()));
    let mut e = SseDecoder::new();
    e.feed(b"event: ping\n\n");
    assert_eq!(e.finish(), Err(EMPTY_REPLY.to_string()));
    let mut f = SseDecoder::new();
    f.feed(b"data: [DONE]\n");
    assert_eq!(f.finish(), Ok(String::new()));
    let mut g = SseDecoder::new();
    g.feed(line("unfinished").trim_end().as_bytes());
    assert_eq!(g.finish(), Err(EMPTY_REPLY.to_string()));
}

#[test]
fn payload_of_data_lines() {
    assert_eq!(sse_payload("  data:  x y \r\n"), Some("x y"));
    assert_eq!(sse_payload("data:"), Some(""));
    assert_eq!(sse_payload("event: data:"), None);
    assert_eq!(sse_payload("dat"), None);
}

#[test]
fn invalid_utf8_is_replaced_not_dropped() {
    let mut raw = b"data: {\"choices\":[{\"delta\":{\"content\":\"a".to_vec();
    raw.push(0xff);
    raw.extend_from_slice(b"b\"}}]}\n");
    match read_sse_line(&raw) {
        SseEvent::Text(t) => assert_eq!(t, "a\u{fffd}b"),
        other => panic!("unexpected {:?}", other),
    }
}

#[test]
fn unicode_white_space_counts_as_blank() {
    assert_eq!(check_api_key("\u{3000}\u{85}\u{2009}\u{feff}"), Ok(()));
    assert_eq!(check_api_key("\u{3000}\u{85}\u{2009}\u{a0}\u{1680}\u{205f}"), Err(MISSING_API_KEY.to_string()));
}

#[test]
fn json_path_reads_strings_and_arrays() {
    let data = r#"{"a":[{"b":"x"},{"b":7}]}"#;
    let path = vec![key("a"), JsonStep::Index(0), key("b")];
    assert_eq!(json_str_at(data, &path), Some("x".to_string()));
    let path = vec![key("a"), JsonStep::Index(1), key("b")];
    assert_eq!(json_str_at(data, &path), None);
    let path = vec![key("a"), JsonStep::Index(5), key("b")];
    assert_eq!(json_str_at(data, &path), None);
    assert_eq!(json_array_len(data, &[key("a")]), Some(2));
    assert_eq!(json_array_len(data, &[]), None);
    assert_eq!(json_str_at("oops", &[]), None);
}

#[test]
fn content_at_other_place_is_skipped() {
    assert!(matches!(read_sse_line(b"data: {\"content\":\"Hi\"}\n"), SseEvent::Skip));
    assert!(matches!(read_sse_line(b"data: {\"choices\":[{\"message\":{\"content\":\"Hi\"}}]}\n"), SseEvent::Skip));
}
