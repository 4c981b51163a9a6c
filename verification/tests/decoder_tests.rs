//! The chunked event decoder: frame splitting, the sentinel, delta and
//! error payloads, malformed frames.

use chatgpt_rs::{decode_chunk, ProtocolEvent, Role};

fn delta_contents(events: &[ProtocolEvent]) -> Vec<Option<String>> {
    events
        .iter()
        .map(|e| match e {
            ProtocolEvent::Delta(d) => d.content.clone(),
            _ => panic!("expected a delta"),
        })
        .collect()
}

#[test]
fn one_chunk_may_hold_several_frames() {
    let chunk = "data: {\"choices\":[{\"delta\":{\"role\":\"assistant\"},\"index\":0}]}\n\n\
                 data: {\"choices\":[{\"delta\":{\"content\":\"Hel\"},\"index\":0}]}\n\n\
                 data: {\"choices\":[{\"delta\":{\"content\":\"lo\"},\"index\":0}]}\n\n";
    let events = decode_chunk(chunk);
    assert_eq!(events.len(), 3);
    match &events[0] {
        ProtocolEvent::Delta(d) => {
            assert_eq!(d.role, Some(Role::Assistant));
            assert_eq!(d.content, None);
        }
        _ => panic!("expected a delta"),
    }
    assert_eq!(
        delta_contents(&events[1..]),
        vec![Some(String::from("Hel")), Some(String::from("lo"))]
    );
}

#[test]
fn sentinel_ends_the_stream() {
    let chunk = "data: {\"choices\":[{\"delta\":{\"content\":\"x\"},\"index\":0}]}\n\n\
                 data: [DONE]\n\n\
                 data: {\"choices\":[{\"delta\":{\"content\":\"dropped\"},\"index\":0}]}\n\n";
    let events = decode_chunk(chunk);
    assert_eq!(events.len(), 2);
    assert!(matches!(events[0], ProtocolEvent::Delta(_)));
    assert!(matches!(events[1], ProtocolEvent::Done));
}

#[test]
fn blank_fragments_between_frames_are_dropped() {
    let events = decode_chunk("data: \n\ndata: [DONE]\n\n");
    assert_eq!(events.len(), 1);
    assert!(matches!(events[0], ProtocolEvent::Done));
}

#[test]
fn empty_chunk_yields_no_events() {
    assert!(decode_chunk("").is_empty());
    assert!(decode_chunk("\n\n").is_empty());
}

#[test]
fn server_error_payload_becomes_a_typed_event() {
    let chunk = "data: {\"error\":{\"message\":\"invalid_api_key\",\"type\":\"auth\",\
                 \"param\":null,\"code\":\"401\"}}\n\n";
    let events = decode_chunk(chunk);
    assert_eq!(events.len(), 1);
    match &events[0] {
        ProtocolEvent::ServerError(e) => {
            assert_eq!(e.message, "invalid_api_key");
            assert_eq!(e.error_type, "auth");
            assert_eq!(e.param, None);
            assert_eq!(e.code, Some(String::from("401")));
        }
        _ => panic!("expected a server error"),
    }
}

#[test]
fn malformed_frame_is_a_terminal_decode_failure() {
    let chunk = "data: {not json}\n\ndata: {\"choices\":[]}\n\n";
    let events = decode_chunk(chunk);
    assert_eq!(events.len(), 1);
    match &events[0] {
        ProtocolEvent::Failure(e) => assert_eq!(e.message(), "invalid frame"),
        _ => panic!("expected a decode failure"),
    }
}

#[test]
fn unknown_members_and_free_field_order_are_tolerated() {
    let chunk = "data: {\"id\":\"x-1\",\"object\":\"chat.completion.chunk\",\"created\":123,\
                 \"model\":\"gpt-3.5-turbo\",\"usage\":{\"total_tokens\":5},\
                 \"choices\":[{\"index\":0,\"finish_reason\":null,\
                 \"delta\":{\"content\":\"4\",\"role\":\"assistant\"}}]}\n\n";
    let events = decode_chunk(chunk);
    assert_eq!(events.len(), 1);
    match &events[0] {
        ProtocolEvent::Delta(d) => {
            assert_eq!(d.role, Some(Role::Assistant));
            assert_eq!(d.content, Some(String::from("4")));
        }
        _ => panic!("expected a delta"),
    }
}

#[test]
fn escaped_content_is_unescaped() {
    let chunk = "data: {\"choices\":[{\"delta\":{\"content\":\"a\\nb\\\"c\\\\d\\u00e9\\ud83e\\udd80\"},\"index\":0}]}\n\n";
    let events = decode_chunk(chunk);
    assert_eq!(events.len(), 1);
    match &events[0] {
        ProtocolEvent::Delta(d) => {
            assert_eq!(d.content, Some(String::from("a\nb\"c\\d\u{e9}\u{1f980}")));
        }
        _ => panic!("expected a delta"),
    }
}

#[test]
fn frame_without_choices_is_an_empty_delta() {
    let events = decode_chunk("data: {\"id\":\"x\"}\n\n");
    assert_eq!(events.len(), 1);
    match &events[0] {
        ProtocolEvent::Delta(d) => {
            assert_eq!(d.role, None);
            assert_eq!(d.content, None);
        }
        _ => panic!("expected a delta"),
    }
}

#[test]
fn whitespace_inside_frames_is_tolerated() {
    let chunk = "data: { \"choices\" : [ { \"delta\" : { \"content\" : \"ok\" } , \"index\" : 0 } ] }\n\n";
    let events = decode_chunk(chunk);
    assert_eq!(events.len(), 1);
    match &events[0] {
        ProtocolEvent::Delta(d) => assert_eq!(d.content, Some(String::from("ok"))),
        _ => panic!("expected a delta"),
    }
}
