use chat_stream::config::{Config, Exchange, Prompts, API, DEFAULT_TIMEOUT_MS};
use chat_stream::error::ConfigError;
use chat_stream::json::{Json, JsonField};
use chat_stream::request::{endpoint_url, ChatCompletionRequest, Header, Message};
use chat_stream::template::Prompt;

fn prompt(description: &str, prefix: Option<&str>, suffix: Option<&str>) -> Prompt {
    Prompt {
        description: description.to_string(),
        prefix: prefix.map(|p| p.to_string()),
        suffix: suffix.map(|s| s.to_string()),
    }
}

fn config(api_key: Option<&str>, base_url: Option<&str>) -> Config {
    let mut prompts = Prompts::new();
    prompts.insert("fix".to_string(), prompt("Fix the grammar", Some("Fix: "), None));
    prompts.insert("wrap".to_string(), prompt("Wrap it", Some("["), Some("]")));
    prompts.insert("plain".to_string(), prompt("As it is", None, None));
    Config {
        prompts,
        api: API {
            model: "gpt-3.5-turbo".to_string(),
            api_key: api_key.map(|k| k.to_string()),
            base_url: base_url.map(|u| u.to_string()),
        },
    }
}

#[test]
fn render_with_prefix_only() {
    assert_eq!(prompt("", Some("A:"), None).render("hi"), "A:hi");
}

#[test]
fn render_with_prefix_and_suffix() {
    assert_eq!(prompt("", Some("["), Some("]")).render("hi"), "[hi]");
}

#[test]
fn render_with_suffix_only_or_nothing() {
    assert_eq!(prompt("", None, Some("!")).render("hi"), "hi!");
    assert_eq!(prompt("", None, None).render("hi"), "hi");
    assert_eq!(prompt("", Some(""), Some("")).render(""), "");
    assert_eq!(prompt("", Some("a "), Some(" c")).render(" b\n"), "a  b\n c");
}

#[test]
fn message_keeps_role_and_content() {
    let message = Message::new("system", "hello");
    assert_eq!(message, Message { role: "system".to_string(), content: "hello".to_string() });
}

#[test]
fn request_always_streams() {
    let request = ChatCompletionRequest::build("m", vec![Message::new("user", "a"), Message::new("user", "b")]);
    assert_eq!(request.model, "m");
    assert_eq!(request.messages, vec![Message::new("user", "a"), Message::new("user", "b")]);
    assert!(request.stream);
}

#[test]
fn headers_and_url() {
    assert_eq!(
        Header::authorization("sk-123"),
        Header { name: "Authorization".to_string(), value: "Bearer sk-123".to_string() }
    );
    assert_eq!(
        Header::json_content_type(),
        Header { name: "Content-Type".to_string(), value: "application/json".to_string() }
    );
    assert_eq!(Header::new("X-A", "b"), Header { name: "X-A".to_string(), value: "b".to_string() });
    assert_eq!(endpoint_url("https://api.example.com/v1"), "https://api.example.com/v1/chat/completions");
    assert_eq!(endpoint_url("http://localhost:8080/"), "http://localhost:8080//chat/completions");
    assert_eq!(endpoint_url(""), "/chat/completions");
}

#[test]
fn prompt_is_found_by_name() {
    let config = config(Some("k"), Some("u"));
    assert_eq!(config.get_prompt("fix"), Some(&prompt("Fix the grammar", Some("Fix: "), None)));
    assert_eq!(config.get_prompt("plain"), Some(&prompt("As it is", None, None)));
    assert_eq!(config.get_prompt("Fix"), None);
    assert_eq!(config.get_prompt(""), None);
    assert_eq!(config.get_prompt("list"), None);
}

#[test]
fn later_template_replaces_an_earlier_of_its_name() {
    let mut prompts = Prompts::new();
    prompts.insert("a".to_string(), prompt("first", None, None));
    prompts.insert("a".to_string(), prompt("second", Some("2"), None));
    let config = Config { prompts, api: API { model: String::new(), api_key: None, base_url: None } };
    assert_eq!(config.get_prompt("a"), Some(&prompt("second", Some("2"), None)));
}

#[test]
fn exchange_is_prepared_from_the_configuration() {
    let config = config(Some("sk-123"), Some("https://api.example.com/v1"));
    let prepared = config.prepare("wrap", "hi");
    assert_eq!(
        prepared,
        Ok(Exchange {
            url: "https://api.example.com/v1/chat/completions".to_string(),
            headers: vec![
                Header { name: "Authorization".to_string(), value: "Bearer sk-123".to_string() },
                Header { name: "Content-Type".to_string(), value: "application/json".to_string() },
            ],
            request: ChatCompletionRequest {
                model: "gpt-3.5-turbo".to_string(),
                messages: vec![Message { role: "system".to_string(), content: "[hi]".to_string() }],
                stream: true,
            },
            timeout_ms: 60_000,
        })
    );
    assert_eq!(DEFAULT_TIMEOUT_MS, 60_000);
}

#[test]
fn unknown_prompt_is_reported_first() {
    assert_eq!(config(Some("k"), Some("u")).prepare("nope", "hi"), Err(ConfigError::PromptNotFound));
    assert_eq!(config(None, None).prepare("nope", "hi"), Err(ConfigError::PromptNotFound));
}

#[test]
fn missing_credential_is_reported() {
    assert_eq!(config(None, Some("u")).prepare("fix", "hi"), Err(ConfigError::MissingCredential));
    assert_eq!(config(None, None).prepare("fix", "hi"), Err(ConfigError::MissingCredential));
}

#[test]
fn missing_base_url_is_reported() {
    assert_eq!(config(Some("k"), None).prepare("fix", "hi"), Err(ConfigError::MissingBaseUrl));
}

fn member(name: &str, value: Json) -> JsonField {
    JsonField { name: name.to_string(), value }
}

#[test]
fn request_body_document() {
    let request = ChatCompletionRequest::build(
        "gpt-3.5-turbo",
        vec![Message::new("system", "[hi]"), Message::new("user", "\"quoted\"\n")],
    );
    assert_eq!(
        request.to_json(),
        Json::Object(vec![
            member("model", Json::Text("gpt-3.5-turbo".to_string())),
            member(
                "messages",
                Json::Array(vec![
                    Json::Object(vec![
                        member("role", Json::Text("system".to_string())),
                        member("content", Json::Text("[hi]".to_string())),
                    ]),
                    Json::Object(vec![
                        member("role", Json::Text("user".to_string())),
                        member("content", Json::Text("\"quoted\"\n".to_string())),
                    ]),
                ])
            ),
            member("stream", Json::Bool(true)),
        ])
    );
    assert_eq!(
        Message::new("a", "b").to_json(),
        Json::Object(vec![
            member("role", Json::Text("a".to_string())),
            member("content", Json::Text("b".to_string())),
        ])
    );
}
