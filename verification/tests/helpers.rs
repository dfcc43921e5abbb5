use tts_relay::helpers::{
    build_transcriptions_url, guess_mime_from_path_rs, parse_mcp_fn_call_name,
    ps_escape_single_quoted, quick_prompt_template, sanitize_fn_name,
};

#[test]
fn single_quotes_are_doubled() {
    assert_eq!(ps_escape_single_quoted(""), "");
    assert_eq!(ps_escape_single_quoted("Microsoft David"), "Microsoft David");
    assert_eq!(ps_escape_single_quoted("it's"), "it''s");
    assert_eq!(ps_escape_single_quoted("'"), "''");
    assert_eq!(ps_escape_single_quoted("''a'"), "''''a''");
    assert_eq!(ps_escape_single_quoted("d\u{e9}j\u{e0} 'vu'"), "d\u{e9}j\u{e0} ''vu''");
    assert_eq!(ps_escape_single_quoted("\"double\""), "\"double\"");
}

#[test]
fn function_names_keep_only_safe_characters() {
    assert_eq!(sanitize_fn_name("mcp__files__read-file_2"), "mcp__files__read-file_2");
    assert_eq!(sanitize_fn_name("my server/tool.name"), "my_server_tool_name");
    assert_eq!(sanitize_fn_name("a b\tc"), "a_b_c");
    assert_eq!(sanitize_fn_name("caf\u{e9}"), "caf_");
    assert_eq!(sanitize_fn_name("AZaz09-_"), "AZaz09-_");
    assert_eq!(sanitize_fn_name("@[`{"), "____");
    assert_eq!(sanitize_fn_name(""), "");
}

#[test]
fn tool_call_names_split_at_the_first_separator() {
    assert_eq!(
        parse_mcp_fn_call_name("mcp__files__read"),
        Some(("files".to_string(), "read".to_string()))
    );
    assert_eq!(
        parse_mcp_fn_call_name("mcp__srv__tool__with__more"),
        Some(("srv".to_string(), "tool__with__more".to_string()))
    );
    assert_eq!(
        parse_mcp_fn_call_name("mcp__a_b__c"),
        Some(("a_b".to_string(), "c".to_string()))
    );
    assert_eq!(
        parse_mcp_fn_call_name("mcp__a___b"),
        Some(("a".to_string(), "_b".to_string()))
    );
}

#[test]
fn malformed_tool_call_names_are_refused() {
    assert_eq!(parse_mcp_fn_call_name(""), None);
    assert_eq!(parse_mcp_fn_call_name("mcp__"), None);
    assert_eq!(parse_mcp_fn_call_name("mcp__files"), None);
    assert_eq!(parse_mcp_fn_call_name("mcp__files__"), None);
    assert_eq!(parse_mcp_fn_call_name("mcp____read"), None);
    assert_eq!(parse_mcp_fn_call_name("mcp____a__b"), None);
    assert_eq!(parse_mcp_fn_call_name("mcp_files__read"), None);
    assert_eq!(parse_mcp_fn_call_name("MCP__files__read"), None);
    assert_eq!(parse_mcp_fn_call_name("xmcp__files__read"), None);
    assert_eq!(parse_mcp_fn_call_name("mcp__a_b"), None);
}

#[test]
fn image_types_by_extension() {
    assert_eq!(guess_mime_from_path_rs("a.png"), Some("image/png"));
    assert_eq!(guess_mime_from_path_rs("C:\\Pics\\Photo.JPG"), Some("image/jpeg"));
    assert_eq!(guess_mime_from_path_rs("x.jpeg"), Some("image/jpeg"));
    assert_eq!(guess_mime_from_path_rs("x.WebP"), Some("image/webp"));
    assert_eq!(guess_mime_from_path_rs("x.gif"), Some("image/gif"));
    assert_eq!(guess_mime_from_path_rs("x.bmp"), Some("image/bmp"));
    assert_eq!(guess_mime_from_path_rs("x.tif"), Some("image/tiff"));
    assert_eq!(guess_mime_from_path_rs("x.TIFF"), Some("image/tiff"));
    assert_eq!(guess_mime_from_path_rs(".png"), Some("image/png"));
}

#[test]
fn unknown_extensions_have_no_image_type() {
    assert_eq!(guess_mime_from_path_rs(""), None);
    assert_eq!(guess_mime_from_path_rs("png"), None);
    assert_eq!(guess_mime_from_path_rs("x.png "), None);
    assert_eq!(guess_mime_from_path_rs("x.svg"), None);
    assert_eq!(guess_mime_from_path_rs("x.png.txt"), None);
    assert_eq!(guess_mime_from_path_rs("x.pn\u{212a}"), None);
}

#[test]
fn built_in_prompts() {
    assert_eq!(quick_prompt_template(1), "Summarize the following text in 3-5 bullet points.");
    assert_eq!(
        quick_prompt_template(2),
        "Rewrite the following text to be clearer and more concise."
    );
    assert_eq!(quick_prompt_template(3), "Translate the following text to English.");
    assert_eq!(
        quick_prompt_template(4),
        "Explain the following text step-by-step for a beginner."
    );
    assert_eq!(quick_prompt_template(5), "Extract key action items from the following text.");
    assert_eq!(
        quick_prompt_template(6),
        "Generate a short email reply based on the following text."
    );
    assert_eq!(quick_prompt_template(7), "List pros and cons of the following text.");
    assert_eq!(quick_prompt_template(8), "Create a one-paragraph summary of the following text.");
    assert_eq!(quick_prompt_template(9), "Convert the following text into a checklist.");
    let shared = "Summarize the following text in a few bullet points.";
    assert_eq!(quick_prompt_template(0), shared);
    assert_eq!(quick_prompt_template(10), shared);
    assert_eq!(quick_prompt_template(255), shared);
}

#[test]
fn transcription_address_is_built_from_the_base() {
    assert_eq!(
        build_transcriptions_url("https://api.openai.com"),
        "https://api.openai.com/v1/audio/transcriptions"
    );
    assert_eq!(
        build_transcriptions_url("https://api.openai.com/v1"),
        "https://api.openai.com/v1/audio/transcriptions"
    );
    assert_eq!(
        build_transcriptions_url("  http://localhost:8080/v1///  "),
        "http://localhost:8080/v1/audio/transcriptions"
    );
    assert_eq!(
        build_transcriptions_url("http://localhost:8080/api/"),
        "http://localhost:8080/api/v1/audio/transcriptions"
    );
    assert_eq!(build_transcriptions_url("http://h/V1"), "http://h/V1/v1/audio/transcriptions");
    assert_eq!(build_transcriptions_url("http://h/v1 /"), "http://h/v1 /v1/audio/transcriptions");
    assert_eq!(build_transcriptions_url(""), "/v1/audio/transcriptions");
    assert_eq!(build_transcriptions_url(" / "), "/v1/audio/transcriptions");
    assert_eq!(build_transcriptions_url("/v1"), "/v1/audio/transcriptions");
    assert_eq!(build_transcriptions_url("v1"), "v1/v1/audio/transcriptions");
}
