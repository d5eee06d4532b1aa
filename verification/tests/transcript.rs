use picopilot::chat::{ChatState, ChatUpdate};
use picopilot::transcript::{
    append_streamed, reconcile_user_message, replace_streamed, StreamKind, TranscriptEntry,
};

fn assistant(id: &str, content: &str, agent: Option<&str>) -> TranscriptEntry {
    TranscriptEntry::Streamed {
        kind: StreamKind::Assistant,
        id: id.to_string(),
        content: content.to_string(),
        agent_id: agent.map(str::to_string),
    }
}

fn describe(entries: &[TranscriptEntry]) -> Vec<String> {
    entries
        .iter()
        .map(|entry| match entry {
            TranscriptEntry::User(text) => format!("user:{text}"),
            TranscriptEntry::Streamed {
                kind,
                id,
                content,
                agent_id,
            } => format!("{kind:?}:{id}:{content}:{agent_id:?}"),
            _ => "other".to_string(),
        })
        .collect()
}

#[test]
fn accumulates_streamed_assistant_deltas_into_one_entry() {
    let mut app: ChatState<String> = ChatState::new(None, false);
    app.apply(
        ChatUpdate::AssistantDelta {
            message_id: "message-1".to_string(),
            content: "The patch".to_string(),
            agent_id: None,
        },
        0,
    );
    app.apply(
        ChatUpdate::AssistantDelta {
            message_id: "message-1".to_string(),
            content: " is ready.".to_string(),
            agent_id: None,
        },
        10,
    );
    assert_eq!(
        describe(&app.entries),
        describe(&[assistant("message-1", "The patch is ready.", None)])
    );
}

#[test]
fn streams_of_different_kinds_or_ids_stay_apart() {
    let mut entries = vec![TranscriptEntry::Other];
    let first = append_streamed(
        &mut entries,
        StreamKind::Assistant,
        "m".to_string(),
        "a".to_string(),
        None,
    );
    let second = append_streamed(
        &mut entries,
        StreamKind::Reasoning,
        "m".to_string(),
        "r".to_string(),
        Some("agent".to_string()),
    );
    let third = append_streamed(
        &mut entries,
        StreamKind::Assistant,
        "m".to_string(),
        "b".to_string(),
        None,
    );
    assert_eq!((first, second, third), (1, 2, 1));
    assert_eq!(
        describe(&entries),
        vec![
            "other".to_string(),
            "Assistant:m:ab:None".to_string(),
            "Reasoning:m:r:Some(\"agent\")".to_string()
        ]
    );
}

#[test]
fn a_finished_message_replaces_the_streamed_text_and_keeps_its_agent() {
    let mut entries = vec![
        assistant("m", "old", Some("first")),
        TranscriptEntry::Other,
        assistant("m", "partial", None),
    ];
    let index = replace_streamed(
        &mut entries,
        StreamKind::Assistant,
        "m".to_string(),
        "final".to_string(),
        Some("late".to_string()),
    );
    assert_eq!(index, 2);
    assert_eq!(
        describe(&entries),
        vec![
            "Assistant:m:old:Some(\"first\")".to_string(),
            "other".to_string(),
            "Assistant:m:final:Some(\"late\")".to_string()
        ]
    );
    replace_streamed(
        &mut entries,
        StreamKind::Assistant,
        "m".to_string(),
        "again".to_string(),
        Some("ignored".to_string()),
    );
    assert_eq!(describe(&entries)[2], "Assistant:m:again:Some(\"late\")");

    let added = replace_streamed(
        &mut entries,
        StreamKind::Reasoning,
        "r".to_string(),
        "thought".to_string(),
        None,
    );
    assert_eq!(added, 3);
}

#[test]
fn live_user_event_reconciles_the_optimistic_message() {
    let mut entries = vec![TranscriptEntry::User("Hi".to_string())];
    let mut awaiting = vec!["Hi".to_string()];
    let index = reconcile_user_message(&mut entries, &mut awaiting, "Hi".to_string());
    assert_eq!(index, 0);
    assert_eq!(describe(&entries), vec!["user:Hi".to_string()]);
    assert!(awaiting.is_empty());
}

#[test]
fn an_unexpected_user_echo_is_added_at_the_end() {
    let mut entries = vec![TranscriptEntry::User("Hi".to_string())];
    let mut awaiting = Vec::new();
    reconcile_user_message(&mut entries, &mut awaiting, "From elsewhere".to_string());
    assert_eq!(
        describe(&entries),
        vec!["user:Hi".to_string(), "user:From elsewhere".to_string()]
    );

    let mut awaiting = vec!["Missing".to_string(), "Next".to_string()];
    reconcile_user_message(&mut entries, &mut awaiting, "Echo".to_string());
    assert_eq!(entries.len(), 3);
    assert_eq!(awaiting, vec!["Next".to_string()]);
}

#[test]
fn the_echo_replaces_the_latest_copy_of_the_awaited_message() {
    let mut entries = vec![
        TranscriptEntry::User("same".to_string()),
        TranscriptEntry::Other,
        TranscriptEntry::User("same".to_string()),
    ];
    let mut awaiting = vec!["same".to_string()];
    let index = reconcile_user_message(&mut entries, &mut awaiting, "same, cleaned".to_string());
    assert_eq!(index, 2);
    assert_eq!(
        describe(&entries),
        vec![
            "user:same".to_string(),
            "other".to_string(),
            "user:same, cleaned".to_string()
        ]
    );
}
