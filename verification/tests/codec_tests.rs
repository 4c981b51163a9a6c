//! The session codec: round trips, the decimal forms, and a cross-check
//! of the emitted JSON against an independent reader.

use chatgpt_rs::{chat_from_json, chat_to_json, Chat, ChatMessage, Role};

fn sample_chat() -> Chat {
    let mut c = Chat::new(String::from("gpt-3.5-turbo"));
    c.append(ChatMessage {
        role: Role::System,
        content: String::from("be terse"),
    });
    c.append(ChatMessage {
        role: Role::User,
        content: String::from("2+2?"),
    });
    c.append(ChatMessage {
        role: Role::Assistant,
        content: String::from("4"),
    });
    c
}

fn assert_round_trip(c: &Chat) {
    let text = chat_to_json(c);
    let back = chat_from_json(&text).expect("the printed record parses");
    assert_eq!(back.model, c.model);
    assert_eq!(back.messages.len(), c.messages.len());
    for (a, b) in back.messages.iter().zip(c.messages.iter()) {
        assert_eq!(a.content, b.content);
        assert_eq!(a.role, b.role);
    }
    assert_eq!(back.temperature, c.temperature);
    assert_eq!(back.top_p, c.top_p);
    assert_eq!(back.n, c.n);
    assert_eq!(back.stream, c.stream);
    assert_eq!(back.stop, c.stop);
    assert_eq!(back.max_tokens, c.max_tokens);
    assert_eq!(back.presence_penalty, c.presence_penalty);
    assert_eq!(back.frequency_penalty, c.frequency_penalty);
}

#[test]
fn default_record_prints_expected_json() {
    let c = Chat::new(String::from("gpt-3.5-turbo"));
    let text = chat_to_json(&c);
    assert_eq!(
        text,
        "{\"model\":\"gpt-3.5-turbo\",\"messages\":[],\"temperature\":1,\"top_p\":1,\
         \"n\":1,\"stream\":true,\"stop\":null,\"max_tokens\":null,\
         \"presence_penalty\":0,\"frequency_penalty\":0}"
    );
}

#[test]
fn round_trip_plain_conversation() {
    assert_round_trip(&sample_chat());
}

#[test]
fn round_trip_all_parameters_set() {
    let mut c = sample_chat();
    c.temperature = Some(300);
    c.top_p = Some(1500);
    c.n = Some(2);
    c.stream = Some(false);
    c.stop = Some(vec![String::from("\n"), String::from("END")]);
    c.max_tokens = Some(2048);
    c.presence_penalty = Some(-50);
    c.frequency_penalty = Some(2000);
    assert_round_trip(&c);
}

#[test]
fn round_trip_unset_parameters() {
    let mut c = sample_chat();
    c.temperature = None;
    c.top_p = None;
    c.n = None;
    c.stream = None;
    c.stop = None;
    c.max_tokens = None;
    c.presence_penalty = None;
    c.frequency_penalty = None;
    assert_round_trip(&c);
}

#[test]
fn round_trip_awkward_content() {
    let mut c = Chat::new(String::from("m"));
    c.append(ChatMessage {
        role: Role::User,
        content: String::from("line\nbreak \"quoted\" back\\slash\ttab\r"),
    });
    c.append(ChatMessage {
        role: Role::Assistant,
        content: String::from("unicode: héllo wörld 你好 🦀"),
    });
    c.append(ChatMessage {
        role: Role::User,
        content: String::from("control \u{1} \u{8} \u{c} \u{1f} chars"),
    });
    c.append(ChatMessage {
        role: Role::User,
        content: String::new(),
    });
    assert_round_trip(&c);
}

#[test]
fn round_trip_empty_stop_list() {
    let mut c = Chat::new(String::from("m"));
    c.stop = Some(vec![]);
    assert_round_trip(&c);
}

#[test]
fn milli_values_print_as_trimmed_decimals() {
    let mut c = Chat::new(String::from("m"));
    c.temperature = Some(300);
    c.top_p = Some(1250);
    c.presence_penalty = Some(-50);
    c.frequency_penalty = Some(1001);
    let text = chat_to_json(&c);
    assert!(text.contains("\"temperature\":0.3,"));
    assert!(text.contains("\"top_p\":1.25,"));
    assert!(text.contains("\"presence_penalty\":-0.05,"));
    assert!(text.contains("\"frequency_penalty\":1.001}"));
}

#[test]
fn emitted_json_is_valid_for_an_independent_reader() {
    let mut c = sample_chat();
    c.temperature = Some(300);
    c.presence_penalty = Some(-50);
    c.stop = Some(vec![String::from("a\"b\\c\n")]);
    let text = chat_to_json(&c);
    let v: serde_json::Value = serde_json::from_str(&text).expect("well-formed JSON");
    assert_eq!(v["model"], "gpt-3.5-turbo");
    assert_eq!(v["messages"][0]["role"], "system");
    assert_eq!(v["messages"][1]["content"], "2+2?");
    assert_eq!(v["temperature"], 0.3);
    assert_eq!(v["presence_penalty"], -0.05);
    assert_eq!(v["stream"], true);
    assert_eq!(v["stop"][0], "a\"b\\c\n");
    assert!(v["max_tokens"].is_null());
}

#[test]
fn round_trip_extreme_parameter_values() {
    let mut c = Chat::new(String::from("m"));
    c.temperature = Some(i64::MIN);
    c.top_p = Some(i64::MAX);
    c.presence_penalty = Some(-1);
    c.frequency_penalty = Some(999);
    c.max_tokens = Some(u32::MAX);
    c.n = Some(u32::MAX);
    assert_round_trip(&c);
}

#[test]
fn malformed_records_are_refused() {
    assert!(chat_from_json("").is_none());
    assert!(chat_from_json("{}").is_none());
    assert!(chat_from_json("{\"model\":\"m\"}").is_none());
    let good = chat_to_json(&sample_chat());
    let mut trailing = good.clone();
    trailing.push('x');
    assert!(chat_from_json(&trailing).is_none());
    assert!(chat_from_json(&good[..good.len() - 1]).is_none());
}
