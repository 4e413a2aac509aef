use proton_drive::claude::{
    chat_answer, check_status, claude_chat, claude_clear_api_key, claude_get_key_configured,
    claude_set_api_key, key_path, ApiContent, Assistant, ChatMessage, API_ENDPOINT, API_VERSION,
    MAX_TOKENS,
};

fn helper() -> Assistant {
    Assistant {
        name: "Helper".to_string(),
        model: "helper-5".to_string(),
        key_file: "helper-api-key".to_string(),
    }
}

fn dir() -> Vec<u8> {
    b"/data".to_vec()
}

fn question() -> Vec<ChatMessage> {
    vec![ChatMessage { role: "user".to_string(), content: "hello".to_string() }]
}

fn part(kind: &str, text: Option<&str>) -> ApiContent {
    ApiContent { kind: kind.to_string(), text: text.map(|t| t.to_string()) }
}

#[test]
fn the_key_is_stored_without_white_space() {
    assert_eq!(key_path(&helper(), &dir()), b"/data/helper-api-key".to_vec());
    let file = claude_set_api_key(&helper(), &dir(), " \tkey 1\u{a0}\n");
    assert_eq!(file.path, b"/data/helper-api-key".to_vec());
    assert_eq!(file.text, "key 1");
    assert!(claude_get_key_configured(Some(file.text)));
}

#[test]
fn a_blank_key_is_none() {
    assert!(!claude_get_key_configured(None));
    assert!(!claude_get_key_configured(Some(" \n".to_string())));
    assert!(!claude_get_key_configured(Some(String::new())));
    assert_eq!(claude_set_api_key(&helper(), &dir(), "  ").text, "");
}

#[test]
fn the_key_file_is_removed_if_it_exists() {
    assert_eq!(
        claude_clear_api_key(&helper(), &dir(), true),
        Some(b"/data/helper-api-key".to_vec())
    );
    assert_eq!(claude_clear_api_key(&helper(), &dir(), false), None);
}

#[test]
fn a_request_carries_the_key() {
    let request = claude_chat(&helper(), Some("secret\n".to_string()), question()).unwrap();
    assert_eq!(request.endpoint, API_ENDPOINT);
    assert_eq!(API_ENDPOINT, "https://api.anthropic.com/v1/messages");
    assert_eq!(
        request.headers,
        vec![
            ("x-api-key", "secret".to_string()),
            ("anthropic-version", "2023-06-01".to_string()),
            ("content-type", "application/json".to_string()),
        ]
    );
    assert_eq!(API_VERSION, "2023-06-01");
    assert_eq!(request.body.model, "helper-5");
    assert_eq!(request.body.max_tokens, MAX_TOKENS);
    assert_eq!(MAX_TOKENS, 4096);
    assert_eq!(request.body.messages.len(), 1);
    assert_eq!(request.body.messages[0].role, "user");
    assert_eq!(request.body.messages[0].content, "hello");
}

#[test]
fn a_request_needs_a_key() {
    match claude_chat(&helper(), None, question()) {
        Ok(_) => panic!("accepted"),
        Err(e) => assert_eq!(e, "API key not configured — set it via the Helper panel"),
    }
    match claude_chat(&helper(), Some(" \n".to_string()), question()) {
        Ok(_) => panic!("accepted"),
        Err(e) => assert_eq!(e, "API key not configured"),
    }
}

#[test]
fn statuses_are_checked() {
    for status in [200, 201, 299] {
        assert_eq!(check_status(status, None), Ok(()));
    }
    for status in [100, 199, 300, 404, 529] {
        assert_eq!(
            check_status(status, Some("why".to_string())),
            Err(format!("API error {}: why", status))
        );
    }
    assert_eq!(check_status(500, None), Err("API error 500: ".to_string()));
}

#[test]
fn the_first_text_is_the_answer() {
    let parts = vec![
        part("thinking", Some("hm")),
        part("text", None),
        part("text", Some("yes")),
        part("text", Some("no")),
    ];
    assert_eq!(chat_answer(&parts), Ok("yes".to_string()));
    assert_eq!(chat_answer(&vec![part("text", Some(""))]), Ok(String::new()));
    assert_eq!(chat_answer(&vec![]), Err("empty response from API".to_string()));
    assert_eq!(
        chat_answer(&vec![part("tool_use", Some("x")), part("text", None)]),
        Err("empty response from API".to_string())
    );
}
