use session_config::artesia::{
    response_item_to_message, ArtesiaCall, ArtesiaContextManager, Message,
};
use session_config::models::{ContentItem, FunctionCallOutputPayload, ImageDetail, ResponseItem};

fn text(text: &str) -> ContentItem {
    ContentItem::InputText {
        text: text.to_string(),
    }
}

fn message(role: &str, content: Vec<ContentItem>) -> ResponseItem {
    ResponseItem::Message {
        id: None,
        role: role.to_string(),
        content,
        phase: None,
    }
}

fn said(role: &str, content: &str) -> Message {
    Message {
        role: role.to_string(),
        content: content.to_string(),
    }
}

fn history() -> Vec<ResponseItem> {
    vec![
        message("user", vec![text("one")]),
        ResponseItem::FunctionCall {
            name: "ls".to_string(),
            arguments: "{}".to_string(),
        },
        message("user", vec![text("two")]),
    ]
}

fn manager() -> ArtesiaContextManager {
    ArtesiaContextManager::new("ctx".to_string()).0
}

#[test]
fn items_become_messages() {
    assert_eq!(
        response_item_to_message(&message(
            "user",
            vec![
                text("a"),
                ContentItem::InputImage {
                    image_url: "data:".to_string(),
                    detail: Some(ImageDetail::Low),
                },
                text(""),
                ContentItem::OutputText {
                    text: "skipped".to_string(),
                },
                text("b"),
            ]
        )),
        said("user", "a\n\nb")
    );
    assert_eq!(
        response_item_to_message(&message("assistant", vec![])),
        said("assistant", "")
    );
    assert_eq!(
        response_item_to_message(&ResponseItem::FunctionCall {
            name: "run".to_string(),
            arguments: "x=1".to_string(),
        }),
        said("tool_call", "run(x=1)")
    );
    for (output, expected) in [(Some("out".to_string()), "out"), (None, "")] {
        assert_eq!(
            response_item_to_message(&ResponseItem::FunctionCallOutput {
                call_id: "c".to_string(),
                output: FunctionCallOutputPayload {
                    text: output,
                    content_items: None,
                },
            }),
            said("tool_output", expected)
        );
    }
    for (encrypted_content, expected) in [(Some("enc".to_string()), "enc"), (None, "")] {
        assert_eq!(
            response_item_to_message(&ResponseItem::Reasoning { encrypted_content }),
            said("reasoning", expected)
        );
    }
    assert_eq!(
        response_item_to_message(&ResponseItem::CustomToolCallOutput {
            call_id: "c".to_string(),
            output: FunctionCallOutputPayload {
                text: Some("unseen".to_string()),
                content_items: None,
            },
        }),
        said("other", "")
    );
    assert_eq!(
        response_item_to_message(&ResponseItem::Compaction),
        said("other", "")
    );
}

#[test]
fn a_new_manager_creates_its_context() {
    let (manager, call) = ArtesiaContextManager::new("ctx".to_string());
    assert_eq!(
        call,
        ArtesiaCall::CreateContext {
            context_id: "ctx".to_string()
        }
    );
    assert_eq!(manager.context_id(), Some("ctx".to_string()));
}

#[test]
fn recorded_items_are_appended_in_order() {
    let calls = manager().record_items(1, &history());
    let expected: Vec<ArtesiaCall> = vec![said("tool_call", "ls({})"), said("user", "two")]
        .into_iter()
        .map(|message| ArtesiaCall::AppendMessage {
            context_id: "ctx".to_string(),
            message,
        })
        .collect();
    assert_eq!(calls, expected);
    assert_eq!(manager().record_items(3, &history()), vec![]);
    assert_eq!(manager().record_items(9, &history()), vec![]);
}

#[test]
fn the_oldest_message_is_removed() {
    assert_eq!(
        manager().remove_first_item(),
        Some(ArtesiaCall::RemoveMessage {
            context_id: "ctx".to_string(),
            index: 0
        })
    );
}

#[test]
fn replacements_send_the_whole_history() {
    let expected = Some(ArtesiaCall::ReplaceAllMessages {
        context_id: "ctx".to_string(),
        messages: vec![
            said("user", "one"),
            said("tool_call", "ls({})"),
            said("user", "two"),
        ],
    });
    assert_eq!(manager().replace(&history()), expected);
    assert_eq!(manager().drop_last_n_user_turns(&history()), expected);
}

#[test]
fn forks_name_their_parent() {
    assert_eq!(
        manager().mark_fork_from("parent"),
        Some(ArtesiaCall::ForkContext {
            parent_context_id: "parent".to_string(),
            context_id: "ctx".to_string()
        })
    );
}

#[test]
fn the_virtual_prefix_is_synced_once() {
    let mut manager = manager();
    assert_eq!(
        manager.sync_virtual_prefix("be kind", "tools"),
        Some(ArtesiaCall::SetVirtualPrefix {
            context_id: "ctx".to_string(),
            instructions: "be kind".to_string(),
            tools_description: "tools".to_string(),
            output_schema: String::new(),
        })
    );
    assert_eq!(manager.sync_virtual_prefix("be kind", "tools"), None);
    let (mut unnamed, _) = ArtesiaContextManager::new(String::new());
    assert_eq!(unnamed.sync_virtual_prefix("be kind", "tools"), None);
}

#[test]
fn one_off_marks_count_the_virtual_prefix() {
    let mut manager = manager();
    assert_eq!(
        manager.mark_one_off(3),
        Some(ArtesiaCall::MarkAllOneOff {
            context_id: "ctx:compact".to_string(),
            message_count: 4
        })
    );
    assert_eq!(manager.mark_current_one_off(3), None);
    manager.set_one_off();
    assert_eq!(
        manager.mark_current_one_off(3),
        Some(ArtesiaCall::MarkAllOneOff {
            context_id: "ctx".to_string(),
            message_count: 4
        })
    );
}

#[test]
fn copies_only_mark_compactions() {
    let mut manager = manager();
    manager.set_one_off();
    let mut copy = manager.clone();
    assert_eq!(copy.context_id(), None);
    assert_eq!(copy.record_items(0, &history()), vec![]);
    assert_eq!(copy.remove_first_item(), None);
    assert_eq!(copy.replace(&history()), None);
    assert_eq!(copy.drop_last_n_user_turns(&history()), None);
    assert_eq!(copy.mark_fork_from("parent"), None);
    assert_eq!(copy.sync_virtual_prefix("a", "b"), None);
    assert_eq!(copy.mark_current_one_off(1), None);
    assert_eq!(copy.suspend(), None);
    assert_eq!(
        copy.mark_one_off(0),
        Some(ArtesiaCall::MarkAllOneOff {
            context_id: "ctx:compact".to_string(),
            message_count: 1
        })
    );
}

#[test]
fn a_passthrough_manager_never_calls() {
    let mut manager = ArtesiaContextManager::passthrough();
    assert_eq!(manager.context_id(), None);
    assert_eq!(manager.record_items(0, &history()), vec![]);
    assert_eq!(manager.mark_one_off(2), None);
    assert_eq!(manager.suspend(), None);
}

#[test]
fn suspending_gives_the_context_up_once() {
    let mut manager = manager();
    assert_eq!(
        manager.suspend(),
        Some(ArtesiaCall::DeleteContext {
            context_id: "ctx".to_string()
        })
    );
    assert_eq!(manager.suspend(), None);
    assert_eq!(manager.replace(&history()), None);
}

#[test]
fn replayed_calls_keep_a_mirror_in_step() {
    fn replay(mirror: &mut Vec<Message>, call: ArtesiaCall) {
        match call {
            ArtesiaCall::AppendMessage { message, .. } => mirror.push(message),
            ArtesiaCall::RemoveMessage { index, .. } => {
                mirror.remove(index);
            }
            ArtesiaCall::ReplaceAllMessages { messages, .. } => *mirror = messages,
            _ => {}
        }
    }
    fn shown(items: &[ResponseItem]) -> Vec<Message> {
        items.iter().map(response_item_to_message).collect()
    }
    let manager = manager();
    let mut mirror = Vec::new();
    let mut items = history();
    for call in manager.record_items(0, &items) {
        replay(&mut mirror, call);
    }
    assert_eq!(mirror, shown(&items));
    items.remove(0);
    replay(&mut mirror, manager.remove_first_item().expect("enabled"));
    assert_eq!(mirror, shown(&items));
    items.truncate(1);
    replay(&mut mirror, manager.drop_last_n_user_turns(&items).expect("enabled"));
    assert_eq!(mirror, shown(&items));
}
