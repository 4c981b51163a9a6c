//! The transport selection, the model catalogue parser, and the log
//! filter.

use chatgpt_rs::{parse_models, Level, Logger, MultiClient};

#[test]
fn proxy_configuration_selects_the_proxied_path() {
    let direct = MultiClient::new(None);
    assert!(!direct.is_proxied());
    assert!(direct.proxy_uri().is_none());

    let proxied = MultiClient::new(Some(String::from("http://127.0.0.1:7890")));
    assert!(proxied.is_proxied());
    assert_eq!(
        proxied.proxy_uri().map(|s| s.as_str()),
        Some("http://127.0.0.1:7890")
    );
}

#[test]
fn models_response_parses() {
    let body = "{\"object\":\"list\",\"data\":[\
                {\"id\":\"gpt-3.5-turbo\",\"object\":\"model\",\"created\":1677610602,\"owned_by\":\"openai\"},\
                {\"id\":\"gpt-4\",\"object\":\"model\",\"created\":1687882411,\"owned_by\":\"openai\",\"permission\":[{\"allow\":true}]}\
                ]}";
    let models = parse_models(body).expect("the listing parses");
    assert_eq!(models.object, "list");
    assert_eq!(models.data.len(), 2);
    assert_eq!(models.data[0].id, "gpt-3.5-turbo");
    assert_eq!(models.data[0].created, 1677610602);
    assert_eq!(models.data[1].id, "gpt-4");
    assert_eq!(models.data[1].owned_by, "openai");
}

#[test]
fn models_response_requires_its_fields() {
    assert!(parse_models("{\"object\":\"list\"}").is_none());
    assert!(parse_models("{\"data\":[]}").is_none());
    assert!(parse_models("{\"object\":\"list\",\"data\":[{\"id\":\"x\"}]}").is_none());
    assert!(parse_models("not json").is_none());
    let empty = parse_models("{\"object\":\"list\",\"data\":[]}").expect("empty listing parses");
    assert_eq!(empty.data.len(), 0);
}

#[test]
fn log_filter_keeps_events_at_least_as_severe_as_the_floor() {
    let logger = Logger::new(Level::Info);
    assert!(!logger.enabled(Level::Trace));
    assert!(!logger.enabled(Level::Debug));
    assert!(logger.enabled(Level::Info));
    assert!(logger.enabled(Level::Warn));
    assert!(logger.enabled(Level::Error));
    let all = Logger::new(Level::Trace);
    assert!(all.enabled(Level::Trace));
}
