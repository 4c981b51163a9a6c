//! The conversation store: system-message handling, removal, snapshots.

use chatgpt_rs::{Chat, ChatMessage, Role};

fn chat_with(messages: Vec<(Role, &str)>) -> Chat {
    let mut c = Chat::new(String::from("gpt-3.5-turbo"));
    for (role, content) in messages {
        c.append(ChatMessage {
            role,
            content: String::from(content),
        });
    }
    c
}

#[test]
fn set_system_message_inserts_at_front() {
    let mut c = chat_with(vec![(Role::User, "hi")]);
    c.set_system_message(Some(String::from("be terse")));
    assert_eq!(c.messages.len(), 2);
    assert!(matches!(c.messages[0].role, Role::System));
    assert_eq!(c.messages[0].content, "be terse");
    assert!(matches!(c.messages[1].role, Role::User));
}

#[test]
fn set_system_message_replaces_existing() {
    let mut c = chat_with(vec![(Role::System, "old"), (Role::User, "hi")]);
    c.set_system_message(Some(String::from("new")));
    assert_eq!(c.messages.len(), 2);
    assert_eq!(c.messages[0].content, "new");
}

#[test]
fn clearing_system_message_keeps_leading_user_message() {
    let mut c = chat_with(vec![(Role::User, "hi")]);
    c.set_system_message(None);
    assert_eq!(c.messages.len(), 1);
    assert!(matches!(c.messages[0].role, Role::User));
}

#[test]
fn clearing_system_message_removes_it() {
    let mut c = chat_with(vec![(Role::System, "be terse"), (Role::User, "hi")]);
    c.set_system_message(None);
    assert_eq!(c.messages.len(), 1);
    assert!(matches!(c.messages[0].role, Role::User));
}

#[test]
fn get_system_message_reads_only_a_leading_system_message() {
    let mut c = chat_with(vec![(Role::System, "be terse")]);
    assert_eq!(c.get_system_message(), Some(String::from("be terse")));
    c = chat_with(vec![(Role::User, "hi")]);
    assert_eq!(c.get_system_message(), None);
}

#[test]
fn remove_last_on_empty_returns_none_and_changes_nothing() {
    let mut c = chat_with(vec![]);
    let r = c.remove_last();
    assert!(r.is_none());
    assert_eq!(c.messages.len(), 0);
    assert_eq!(c.model, "gpt-3.5-turbo");
}

#[test]
fn remove_last_pops_the_back() {
    let mut c = chat_with(vec![(Role::User, "a"), (Role::Assistant, "b")]);
    let r = c.remove_last().expect("one message removed");
    assert!(matches!(r.role, Role::Assistant));
    assert_eq!(r.content, "b");
    assert_eq!(c.messages.len(), 1);
    assert_eq!(c.messages[0].content, "a");
}

#[test]
fn snapshot_copies_the_whole_record() {
    let mut c = chat_with(vec![(Role::User, "hi")]);
    c.temperature = Some(300);
    c.stop = Some(vec![String::from("\n")]);
    let s = c.snapshot();
    assert_eq!(s.model, c.model);
    assert_eq!(s.messages.len(), 1);
    assert_eq!(s.messages[0].content, "hi");
    assert_eq!(s.temperature, Some(300));
    assert_eq!(s.stop.as_ref().unwrap()[0], "\n");
}

#[test]
fn split_by_char_counts_characters_not_bytes() {
    let (a, b) = chatgpt_rs::split_by_char("héllo", 2);
    assert_eq!(a, "hé");
    assert_eq!(b, "llo");
    let (a, b) = chatgpt_rs::split_by_char("ab", 5);
    assert_eq!(a, "ab");
    assert_eq!(b, "");
}
