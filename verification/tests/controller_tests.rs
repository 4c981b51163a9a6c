//! The generation controller: the documented scenarios, the fold, the
//! single-flight rule and cancellation.

use chatgpt_rs::{
    decode_chunk, ChatAPI, ChatAPIBuilder, GenerateError, ProtocolEvent, ResponseChatMessage,
    Role, ServerError,
};

fn fresh_controller() -> ChatAPI {
    ChatAPIBuilder::new(String::from("SECRET-REDACTED")).build()
}

fn delta(role: Option<Role>, content: Option<&str>) -> ProtocolEvent {
    ProtocolEvent::Delta(ResponseChatMessage {
        role,
        content: content.map(String::from),
    })
}

#[test]
fn question_appends_user_message_then_streams() {
    let mut api = fresh_controller();
    api.set_system_message(Some(String::from("be terse")));
    let req = api.question(String::from("2+2?")).expect("request handed out");
    assert_eq!(req.url, "https://api.openai.com/v1/chat/completions");
    assert_eq!(req.api_key, "SECRET-REDACTED");
    assert!(req.body.contains("\"2+2?\""));
    assert_eq!(api.data.messages.len(), 2);
    assert_eq!(api.data.messages[0].role, Role::System);
    assert_eq!(api.data.messages[0].content, "be terse");
    assert_eq!(api.data.messages[1].role, Role::User);
    assert_eq!(api.data.messages[1].content, "2+2?");
    assert!(api.is_streaming());
}

#[test]
fn committed_reply_is_appended_and_slot_cleared() {
    let mut api = fresh_controller();
    api.set_system_message(Some(String::from("be terse")));
    api.question(String::from("2+2?")).expect("request handed out");
    for ev in decode_chunk(
        "data: {\"choices\":[{\"delta\":{\"role\":\"assistant\",\"content\":\"4\"},\"index\":0}]}\n\ndata: [DONE]\n\n",
    ) {
        api.apply_event(&ev);
    }
    assert_eq!(api.data.messages.len(), 3);
    assert_eq!(api.data.messages[2].role, Role::Assistant);
    assert_eq!(api.data.messages[2].content, "4");
    assert!(api.get_generate().is_none());
    assert!(!api.is_streaming());
}

#[test]
fn server_error_is_recorded_and_retry_is_possible() {
    let mut api = fresh_controller();
    api.question(String::from("2+2?")).expect("request handed out");
    api.apply_event(&ProtocolEvent::ServerError(ServerError {
        message: String::from("invalid_api_key"),
        error_type: String::from("auth"),
        param: None,
        code: None,
    }));
    assert_eq!(api.get_generate(), Some(Err(String::from("invalid_api_key"))));
    assert_eq!(api.data.messages.len(), 1);
    assert_eq!(api.data.messages[0].content, "2+2?");
    // the last message is still the user's question, so a retry works
    assert!(!api.is_streaming());
    let again = api.generate();
    assert!(again.is_some());
    assert!(api.is_streaming());
}

#[test]
fn empty_stream_fails_with_empty_result_and_appends_nothing() {
    let mut api = fresh_controller();
    api.question(String::from("2+2?")).expect("request handed out");
    api.end_of_stream();
    assert_eq!(api.data.messages.len(), 1);
    match api.get_generate() {
        Some(Err(text)) => assert_eq!(text, GenerateError::EmptyResultError.message()),
        other => panic!("expected the empty-result error, got {:?}", other),
    }
}

#[test]
fn fold_concatenates_content_in_order() {
    let mut api = fresh_controller();
    api.generate().expect("request handed out");
    api.apply_event(&delta(Some(Role::Assistant), None));
    api.apply_event(&delta(None, Some("Hel")));
    api.apply_event(&delta(None, Some("lo ")));
    api.apply_event(&delta(None, Some("world")));
    assert_eq!(api.get_generate(), Some(Ok(String::from("Hello world"))));
    api.apply_event(&ProtocolEvent::Done);
    assert_eq!(api.data.messages.last().unwrap().content, "Hello world");
}

#[test]
fn once_set_role_survives_later_absent_roles() {
    let mut api = fresh_controller();
    api.generate().expect("request handed out");
    api.apply_event(&delta(Some(Role::Assistant), Some("a")));
    api.apply_event(&delta(None, Some("b")));
    match &api.pending_generate {
        chatgpt_rs::PendingGenerate::Streaming(acc) => {
            assert_eq!(acc.role, Some(Role::Assistant));
            assert_eq!(acc.content, Some(String::from("ab")));
        }
        other => panic!("expected a streaming slot, got {:?}", other),
    }
}

#[test]
fn blank_fragments_are_dropped_only_under_the_policy() {
    let mut api = fresh_controller();
    api.drop_blank_fragments = true;
    api.generate().expect("request handed out");
    api.apply_event(&delta(None, Some("a")));
    api.apply_event(&delta(None, Some("\n\n")));
    api.apply_event(&delta(None, Some("\n\n\n")));
    api.apply_event(&delta(None, Some("b")));
    api.apply_event(&ProtocolEvent::Done);
    assert_eq!(api.data.messages.last().unwrap().content, "ab");

    let mut plain = fresh_controller();
    plain.generate().expect("request handed out");
    plain.apply_event(&delta(None, Some("a")));
    plain.apply_event(&delta(None, Some("\n\n")));
    plain.apply_event(&delta(None, Some("b")));
    plain.apply_event(&ProtocolEvent::Done);
    assert_eq!(plain.data.messages.last().unwrap().content, "a\n\nb");
}

#[test]
fn second_generate_while_streaming_is_refused() {
    let mut api = fresh_controller();
    let first = api.generate();
    assert!(first.is_some());
    let second = api.generate();
    assert!(second.is_none());
    assert!(api.is_streaming());
}

#[test]
fn abort_clears_the_slot_and_leaves_the_session() {
    let mut api = fresh_controller();
    api.question(String::from("2+2?")).expect("request handed out");
    api.apply_event(&delta(Some(Role::Assistant), Some("partial")));
    api.abort();
    assert!(api.get_generate().is_none());
    assert!(!api.is_streaming());
    assert_eq!(api.data.messages.len(), 1);
    assert_eq!(api.data.messages[0].content, "2+2?");
    // a stale event from the aborted attempt mutates nothing
    api.apply_event(&delta(None, Some("late")));
    assert!(api.get_generate().is_none());
    assert_eq!(api.data.messages.len(), 1);
}

#[test]
fn empty_content_is_never_committed() {
    let mut api = fresh_controller();
    api.generate().expect("request handed out");
    api.apply_event(&delta(Some(Role::Assistant), Some("")));
    api.apply_event(&ProtocolEvent::Done);
    assert_eq!(api.data.messages.len(), 0);
    assert!(matches!(api.get_generate(), Some(Err(_))));
}

#[test]
fn transport_failure_is_visible_for_retry() {
    let mut api = fresh_controller();
    api.generate().expect("request handed out");
    api.apply_event(&ProtocolEvent::Failure(GenerateError::TransportFailure(
        String::from("connection refused"),
    )));
    assert_eq!(
        api.get_generate(),
        Some(Err(String::from("connection refused")))
    );
    assert_eq!(api.data.messages.len(), 0);
}

#[test]
fn request_body_is_the_serialized_session() {
    let mut api = fresh_controller();
    api.set_temperature(300);
    api.set_max_tokens(Some(256));
    let req = api.question(String::from("hi")).expect("request handed out");
    let reread = chatgpt_rs::chat_from_json(&req.body).expect("body is a session record");
    assert_eq!(reread.model, "gpt-3.5-turbo");
    assert_eq!(reread.temperature, Some(300));
    assert_eq!(reread.max_tokens, Some(256));
    assert_eq!(reread.stream, Some(true));
    assert_eq!(reread.messages.len(), 1);
    assert_eq!(reread.messages[0].content, "hi");
}

#[test]
fn retry_is_the_same_operation_as_generate() {
    let mut api = fresh_controller();
    api.question(String::from("2+2?")).expect("request handed out");
    api.apply_event(&ProtocolEvent::Failure(GenerateError::TransportFailure(
        String::from("broken pipe"),
    )));
    let req = api.retry().expect("retry hands a request out");
    assert!(req.body.contains("\"2+2?\""));
    assert!(api.is_streaming());
    assert!(api.retry().is_none());
}

#[test]
fn snapshot_reads_a_consistent_copy() {
    let mut api = fresh_controller();
    api.question(String::from("hi")).expect("request handed out");
    let snap = api.snapshot();
    assert_eq!(snap.messages.len(), 1);
    assert_eq!(snap.messages[0].content, "hi");
    assert_eq!(snap.model, api.data.model);
}

#[test]
fn events_are_ignored_outside_streaming() {
    let mut api = fresh_controller();
    api.apply_event(&delta(Some(Role::Assistant), Some("ghost")));
    api.end_of_stream();
    assert_eq!(api.data.messages.len(), 0);
    assert!(api.get_generate().is_none());
}
