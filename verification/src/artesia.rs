//! A conversation mirrored on the Artesia service.
//!
//! The manager decides, after each change of the local history, which calls bring the service up
//! to date. Whoever owns the history makes the calls; none of their outcomes changes what comes
//! next.
use vstd::prelude::*;

use crate::models::{ContentItem, ResponseItem};

verus! {

/// A message as the service keeps it.
#[derive(Debug, PartialEq, Eq)]
pub struct Message {
    /// Who speaks.
    pub role: String,
    /// What is said.
    pub content: String,
}

/// What a `Message` says.
pub struct MessageView {
    pub role: Seq<char>,
    pub content: Seq<char>,
}

impl View for Message {
    type V = MessageView;

    open spec fn view(&self) -> MessageView {
        MessageView { role: self.role@, content: self.content@ }
    }
}

impl Message {
    /// A message in which `role` says `content`.
    pub fn new(role: &str, content: String) -> (message: Self)
        ensures
            message@ == (MessageView { role: role@, content: content@ }),
    {
        Message { role: role.to_owned(), content }
    }
}

/// The texts among the parts of a message that go to the model, in order.
pub open spec fn input_texts(content: Seq<ContentItem>) -> Seq<Seq<char>>
    decreases content.len(),
{
    if content.len() == 0 {
        Seq::empty()
    } else {
        let earlier = input_texts(content.drop_last());
        match content.last() {
            ContentItem::InputText { text } => earlier.push(text@),
            _ => earlier,
        }
    }
}

/// Texts put together with a line break between each two.
pub open spec fn lines(texts: Seq<Seq<char>>) -> Seq<char>
    decreases texts.len(),
{
    if texts.len() == 0 {
        Seq::empty()
    } else if texts.len() == 1 {
        texts[0]
    } else {
        lines(texts.drop_last()) + "\n"@ + texts.last()
    }
}

/// The text where there is one, and the empty text where there is none.
pub open spec fn text_or_empty(text: Option<String>) -> Seq<char> {
    match text {
        Some(text) => text@,
        None => Seq::empty(),
    }
}

/// The message that stands on the service for an item of the history.
pub open spec fn message_of(item: ResponseItem) -> MessageView {
    match item {
        ResponseItem::Message { role, content, .. } => MessageView {
            role: role@,
            content: lines(input_texts(content@)),
        },
        ResponseItem::FunctionCall { name, arguments } => MessageView {
            role: "tool_call"@,
            content: name@ + "("@ + arguments@ + ")"@,
        },
        ResponseItem::FunctionCallOutput { output, .. } => MessageView {
            role: "tool_output"@,
            content: text_or_empty(output.text),
        },
        ResponseItem::Reasoning { encrypted_content } => MessageView {
            role: "reasoning"@,
            content: text_or_empty(encrypted_content),
        },
        _ => MessageView { role: "other"@, content: ""@ },
    }
}

/// The messages that stand on the service for a history.
pub open spec fn messages_of(items: Seq<ResponseItem>) -> Seq<MessageView> {
    items.map_values(|item: ResponseItem| message_of(item))
}

/// Puts the texts that go to the model together, with a line break between each two.
fn join_input_texts(content: &[ContentItem]) -> (joined: String)
    ensures
        joined@ == lines(input_texts(content@)),
{
    let mut joined = String::new();
    let mut any: bool = false;
    let mut i: usize = 0;
    assert(content@.take(0) =~= Seq::empty());
    while i < content.len()
        invariant
            i <= content@.len(),
            any == (input_texts(content@.take(i as int)).len() > 0),
            joined@ == lines(input_texts(content@.take(i as int))),
        decreases content@.len() - i,
    {
        let ghost earlier = input_texts(content@.take(i as int));
        assert(content@.take(i + 1).drop_last() =~= content@.take(i as int));
        if let ContentItem::InputText { text } = &content[i] {
            if any {
                joined.append("\n");
            }
            joined.append(text.as_str());
            any = true;
            assert(earlier.push(text@).drop_last() =~= earlier);
        }
        i += 1;
    }
    assert(content@.take(content@.len() as int) =~= content@);
    joined
}

/// Copies the text where there is one.
fn copy_or_empty(text: &Option<String>) -> (copy: String)
    ensures
        copy@ == text_or_empty(*text),
{
    match text {
        Some(text) => text.clone(),
        None => String::new(),
    }
}

/// The message that stands on the service for an item of the history.
pub fn response_item_to_message(item: &ResponseItem) -> (message: Message)
    ensures
        message@ == message_of(*item),
{
    match item {
        ResponseItem::Message { role, content, .. } => {
            let text = join_input_texts(content.as_slice());
            Message::new(role.as_str(), text)
        },
        ResponseItem::FunctionCall { name, arguments } => {
            let mut call = name.clone();
            call.append("(");
            call.append(arguments.as_str());
            call.append(")");
            Message::new("tool_call", call)
        },
        ResponseItem::FunctionCallOutput { output, .. } => Message::new(
            "tool_output",
            copy_or_empty(&output.text),
        ),
        ResponseItem::Reasoning { encrypted_content } => Message::new(
            "reasoning",
            copy_or_empty(encrypted_content),
        ),
        _ => Message::new("other", "".to_owned()),
    }
}

/// A call of the service.
#[derive(Debug, PartialEq, Eq)]
pub enum ArtesiaCall {
    /// Create a context.
    CreateContext { context_id: String },
    /// Append a message to a context.
    AppendMessage { context_id: String, message: Message },
    /// Remove the message at an index of a context.
    RemoveMessage { context_id: String, index: usize },
    /// Replace all messages of a context.
    ReplaceAllMessages { context_id: String, messages: Vec<Message> },
    /// Make a context a fork of another.
    ForkContext { parent_context_id: String, context_id: String },
    /// Set what stands before the messages of a context.
    SetVirtualPrefix {
        context_id: String,
        instructions: String,
        tools_description: String,
        output_schema: String,
    },
    /// Mark a number of messages of a context as used once.
    MarkAllOneOff { context_id: String, message_count: usize },
    /// Delete a context.
    DeleteContext { context_id: String },
}

/// What an `ArtesiaCall` asks for.
pub enum CallView {
    CreateContext { context_id: Seq<char> },
    AppendMessage { context_id: Seq<char>, message: MessageView },
    RemoveMessage { context_id: Seq<char>, index: int },
    ReplaceAllMessages { context_id: Seq<char>, messages: Seq<MessageView> },
    ForkContext { parent_context_id: Seq<char>, context_id: Seq<char> },
    SetVirtualPrefix {
        context_id: Seq<char>,
        instructions: Seq<char>,
        tools_description: Seq<char>,
        output_schema: Seq<char>,
    },
    MarkAllOneOff { context_id: Seq<char>, message_count: int },
    DeleteContext { context_id: Seq<char> },
}

impl View for ArtesiaCall {
    type V = CallView;

    open spec fn view(&self) -> CallView {
        match *self {
            ArtesiaCall::CreateContext { context_id } => CallView::CreateContext {
                context_id: context_id@,
            },
            ArtesiaCall::AppendMessage { context_id, message } => CallView::AppendMessage {
                context_id: context_id@,
                message: message@,
            },
            ArtesiaCall::RemoveMessage { context_id, index } => CallView::RemoveMessage {
                context_id: context_id@,
                index: index as int,
            },
            ArtesiaCall::ReplaceAllMessages { context_id, messages } =>
                CallView::ReplaceAllMessages {
                    context_id: context_id@,
                    messages: messages@.map_values(|message: Message| message@),
                },
            ArtesiaCall::ForkContext { parent_context_id, context_id } => CallView::ForkContext {
                parent_context_id: parent_context_id@,
                context_id: context_id@,
            },
            ArtesiaCall::SetVirtualPrefix {
                context_id,
                instructions,
                tools_description,
                output_schema,
            } => CallView::SetVirtualPrefix {
                context_id: context_id@,
                instructions: instructions@,
                tools_description: tools_description@,
                output_schema: output_schema@,
            },
            ArtesiaCall::MarkAllOneOff { context_id, message_count } => CallView::MarkAllOneOff {
                context_id: context_id@,
                message_count: message_count as int,
            },
            ArtesiaCall::DeleteContext { context_id } => CallView::DeleteContext {
                context_id: context_id@,
            },
        }
    }
}

/// Keeps the mirror of one conversation on the service.
#[derive(Debug)]
pub struct ArtesiaContextManager {
    context_id: String,
    enabled: bool,
    virtual_prefix_synced: bool,
    one_off: bool,
}

/// The state of an `ArtesiaContextManager`.
#[verifier::ext_equal]
pub struct ManagerView {
    /// The id of the context on the service.
    pub context_id: Seq<char>,
    /// Whether the service is kept up to date.
    pub enabled: bool,
    /// Whether the virtual prefix has been handed over.
    pub virtual_prefix_synced: bool,
    /// Whether every inference in this context is used once.
    pub one_off: bool,
}

impl View for ArtesiaContextManager {
    type V = ManagerView;

    closed spec fn view(&self) -> ManagerView {
        ManagerView {
            context_id: self.context_id@,
            enabled: self.enabled,
            virtual_prefix_synced: self.virtual_prefix_synced,
            one_off: self.one_off,
        }
    }
}

/// The calls behind a list.
pub open spec fn asked(calls: Seq<ArtesiaCall>) -> Seq<CallView> {
    calls.map_values(|call: ArtesiaCall| call@)
}

/// The call behind an option.
pub open spec fn asked_if_any(call: Option<ArtesiaCall>) -> Option<CallView> {
    match call {
        Some(call) => Some(call@),
        None => None,
    }
}

/// The calls that follow when the history has grown from `count_before` items to `items`: one for
/// each new item, in order.
pub open spec fn record_calls(
    manager: ManagerView,
    count_before: int,
    items: Seq<ResponseItem>,
) -> Seq<CallView> {
    if manager.enabled && count_before < items.len() {
        items.skip(count_before).map_values(
            |item: ResponseItem|
                CallView::AppendMessage {
                    context_id: manager.context_id,
                    message: message_of(item),
                },
        )
    } else {
        Seq::empty()
    }
}

/// The call that follows when the oldest item has been removed.
pub open spec fn remove_first_call(manager: ManagerView) -> Option<CallView> {
    if manager.enabled {
        Some(CallView::RemoveMessage { context_id: manager.context_id, index: 0 })
    } else {
        None
    }
}

/// The call that follows when the history has become `items` in some other way.
pub open spec fn replace_call(manager: ManagerView, items: Seq<ResponseItem>) -> Option<CallView> {
    if manager.enabled {
        Some(
            CallView::ReplaceAllMessages {
                context_id: manager.context_id,
                messages: messages_of(items),
            },
        )
    } else {
        None
    }
}

/// The call that makes this context a fork of another.
pub open spec fn fork_call(manager: ManagerView, parent_context_id: Seq<char>) -> Option<CallView> {
    if manager.enabled {
        Some(CallView::ForkContext { parent_context_id, context_id: manager.context_id })
    } else {
        None
    }
}

/// Whether the virtual prefix is still to be handed over.
pub open spec fn prefix_is_due(manager: ManagerView) -> bool {
    manager.enabled && !manager.virtual_prefix_synced && manager.context_id.len() > 0
}

/// The call that hands the virtual prefix over.
pub open spec fn prefix_call(
    manager: ManagerView,
    instructions: Seq<char>,
    tools_description: Seq<char>,
) -> Option<CallView> {
    if prefix_is_due(manager) {
        Some(
            CallView::SetVirtualPrefix {
                context_id: manager.context_id,
                instructions,
                tools_description,
                output_schema: ""@,
            },
        )
    } else {
        None
    }
}

/// The manager once the virtual prefix was to be handed over.
pub open spec fn after_prefix(manager: ManagerView) -> ManagerView {
    ManagerView {
        virtual_prefix_synced: manager.virtual_prefix_synced || prefix_is_due(manager),
        ..manager
    }
}

/// The id of the context in which a compaction runs.
pub open spec fn compact_id(context_id: Seq<char>) -> Seq<char> {
    context_id + ":compact"@
}

/// The call that marks what a compaction leaves behind as used once: the virtual prefix and every
/// item.
pub open spec fn compact_one_off_call(manager: ManagerView, count: int) -> Option<CallView> {
    if manager.context_id.len() > 0 {
        Some(
            CallView::MarkAllOneOff {
                context_id: compact_id(manager.context_id),
                message_count: 1 + count,
            },
        )
    } else {
        None
    }
}

/// The call that marks what an inference leaves behind as used once: the virtual prefix and every
/// item.
pub open spec fn current_one_off_call(manager: ManagerView, count: int) -> Option<CallView> {
    if manager.enabled && manager.one_off {
        Some(
            CallView::MarkAllOneOff { context_id: manager.context_id, message_count: 1 + count },
        )
    } else {
        None
    }
}

/// Whether the manager has a context to give up.
pub open spec fn can_suspend(manager: ManagerView) -> bool {
    manager.enabled && manager.context_id.len() > 0
}

/// The call that gives the context up.
pub open spec fn suspend_call(manager: ManagerView) -> Option<CallView> {
    if can_suspend(manager) {
        Some(CallView::DeleteContext { context_id: manager.context_id })
    } else {
        None
    }
}

/// The manager once the context was to be given up.
pub open spec fn after_suspend(manager: ManagerView) -> ManagerView {
    ManagerView { enabled: manager.enabled && !can_suspend(manager), ..manager }
}

/// The state of a copy: it never keeps the service up to date.
pub open spec fn copy_of(manager: ManagerView) -> ManagerView {
    ManagerView { enabled: false, virtual_prefix_synced: true, ..manager }
}

impl Clone for ArtesiaContextManager {
    fn clone(&self) -> (copy: Self)
        ensures
            copy@ == copy_of(self@),
            copy@.context_id == self@.context_id,
            copy@.one_off == self@.one_off,
            !copy@.enabled,
    {
        ArtesiaContextManager {
            context_id: self.context_id.clone(),
            enabled: false,
            virtual_prefix_synced: true,
            one_off: self.one_off,
        }
    }
}

/// The messages for a history.
fn to_messages(items: &[ResponseItem]) -> (messages: Vec<Message>)
    ensures
        messages@.map_values(|message: Message| message@) == messages_of(items@),
{
    let mut messages: Vec<Message> = Vec::new();
    let mut i: usize = 0;
    while i < items.len()
        invariant
            i <= items@.len(),
            messages@.len() == i,
            forall|j: int| 0 <= j < i ==> (#[trigger] messages@[j])@ == message_of(items@[j]),
        decreases items@.len() - i,
    {
        messages.push(response_item_to_message(&items[i]));
        i += 1;
    }
    assert(messages@.map_values(|message: Message| message@) =~= messages_of(items@));
    messages
}

impl ArtesiaContextManager {
    /// A manager for a new context, and the call that creates the context.
    pub fn new(context_id: String) -> (made: (Self, ArtesiaCall))
        ensures
            made.0@ == (ManagerView {
                context_id: context_id@,
                enabled: true,
                virtual_prefix_synced: false,
                one_off: false,
            }),
            made.1@ == (CallView::CreateContext { context_id: context_id@ }),
    {
        let call = ArtesiaCall::CreateContext { context_id: context_id.clone() };
        let manager = ArtesiaContextManager {
            context_id,
            enabled: true,
            virtual_prefix_synced: false,
            one_off: false,
        };
        (manager, call)
    }

    /// A manager that never calls the service.
    pub fn passthrough() -> (manager: Self)
        ensures
            manager@ == (ManagerView {
                context_id: ""@,
                enabled: false,
                virtual_prefix_synced: true,
                one_off: false,
            }),
    {
        proof {
            reveal_strlit("");
        }
        let manager = ArtesiaContextManager {
            context_id: String::new(),
            enabled: false,
            virtual_prefix_synced: true,
            one_off: false,
        };
        assert(manager@.context_id =~= ""@);
        manager
    }

    /// The calls to make when items have been recorded: the history had `count_before` items and
    /// now is `raw_items`.
    pub fn record_items(&self, count_before: usize, raw_items: &[ResponseItem]) -> (calls: Vec<
        ArtesiaCall,
    >)
        ensures
            asked(calls@) == record_calls(self@, count_before as int, raw_items@),
            calls@.len() == if self@.enabled && count_before < raw_items@.len() {
                raw_items@.len() - count_before
            } else {
                0
            },
            forall|j: int|
                0 <= j < calls@.len() ==> (#[trigger] calls@[j] matches ArtesiaCall::AppendMessage {
                    context_id,
                    message,
                } && context_id@ == self@.context_id && message@ == message_of(
                    raw_items@[count_before + j],
                )),
    {
        let mut calls: Vec<ArtesiaCall> = Vec::new();
        if self.enabled && count_before < raw_items.len() {
            let mut i: usize = count_before;
            while i < raw_items.len()
                invariant
                    self.enabled,
                    count_before <= i <= raw_items@.len(),
                    calls@.len() == i - count_before,
                    forall|j: int|
                        0 <= j < calls@.len() ==> (#[trigger] calls@[j])@ == (
                        CallView::AppendMessage {
                            context_id: self@.context_id,
                            message: message_of(raw_items@[count_before + j]),
                        }),
                decreases raw_items@.len() - i,
            {
                calls.push(
                    ArtesiaCall::AppendMessage {
                        context_id: self.context_id.clone(),
                        message: response_item_to_message(&raw_items[i]),
                    },
                );
                i += 1;
            }
        }
        assert(asked(calls@) =~= record_calls(self@, count_before as int, raw_items@));
        calls
    }

    /// The call to make when the oldest item has been removed.
    pub fn remove_first_item(&self) -> (call: Option<ArtesiaCall>)
        ensures
            asked_if_any(call) == remove_first_call(self@),
    {
        if self.enabled {
            Some(ArtesiaCall::RemoveMessage { context_id: self.context_id.clone(), index: 0 })
        } else {
            None
        }
    }

    /// The call to make when the history has been replaced by `raw_items`.
    pub fn replace(&self, raw_items: &[ResponseItem]) -> (call: Option<ArtesiaCall>)
        ensures
            asked_if_any(call) == replace_call(self@, raw_items@),
    {
        if self.enabled {
            Some(
                ArtesiaCall::ReplaceAllMessages {
                    context_id: self.context_id.clone(),
                    messages: to_messages(raw_items),
                },
            )
        } else {
            None
        }
    }

    /// The call to make when the last user turns have been dropped and `raw_items` are left.
    pub fn drop_last_n_user_turns(&self, raw_items: &[ResponseItem]) -> (call: Option<ArtesiaCall>)
        ensures
            asked_if_any(call) == replace_call(self@, raw_items@),
    {
        self.replace(raw_items)
    }

    /// The id of the context, where the service is kept up to date.
    pub fn context_id(&self) -> (context_id: Option<String>)
        ensures
            match context_id {
                Some(id) => self@.enabled && id@ == self@.context_id,
                None => !self@.enabled,
            },
    {
        if self.enabled {
            Some(self.context_id.clone())
        } else {
            None
        }
    }

    /// The call that makes this context a fork of another.
    pub fn mark_fork_from(&self, parent_context_id: &str) -> (call: Option<ArtesiaCall>)
        ensures
            asked_if_any(call) == fork_call(self@, parent_context_id@),
    {
        if self.enabled {
            Some(
                ArtesiaCall::ForkContext {
                    parent_context_id: parent_context_id.to_owned(),
                    context_id: self.context_id.clone(),
                },
            )
        } else {
            None
        }
    }

    /// The call that tells the service what stands before the messages: the base instructions and
    /// the descriptions of the tools. It is made once.
    pub fn sync_virtual_prefix(&mut self, instructions: &str, tools_description: &str) -> (call:
        Option<ArtesiaCall>)
        ensures
            asked_if_any(call) == prefix_call(old(self)@, instructions@, tools_description@),
            final(self)@ == after_prefix(old(self)@),
    {
        if !self.enabled || self.virtual_prefix_synced || self.context_id.as_str().is_empty() {
            return None;
        }
        self.virtual_prefix_synced = true;
        Some(
            ArtesiaCall::SetVirtualPrefix {
                context_id: self.context_id.clone(),
                instructions: instructions.to_owned(),
                tools_description: tools_description.to_owned(),
                output_schema: "".to_owned(),
            },
        )
    }

    /// The call to make before a compaction of a history of `count` items, so that the service
    /// keeps nothing of it. The compaction runs in a context of its own.
    pub fn mark_one_off(&self, count: usize) -> (call: Option<ArtesiaCall>)
        requires
            count < usize::MAX,
        ensures
            asked_if_any(call) == compact_one_off_call(self@, count as int),
            match call {
                Some(ArtesiaCall::MarkAllOneOff { context_id, message_count }) => {
                    &&& self@.context_id.len() > 0
                    &&& context_id@ == self@.context_id + ":compact"@
                    &&& message_count == count + 1
                },
                Some(_) => false,
                None => self@.context_id.len() == 0,
            },
    {
        if self.context_id.as_str().is_empty() {
            return None;
        }
        let mut context_id = self.context_id.clone();
        context_id.append(":compact");
        Some(ArtesiaCall::MarkAllOneOff { context_id, message_count: 1 + count })
    }

    /// From now on every inference in this context is used once.
    pub fn set_one_off(&mut self)
        ensures
            final(self)@ == (ManagerView { one_off: true, ..old(self)@ }),
    {
        self.one_off = true;
    }

    /// The call to make before an inference on a history of `count` items, where every inference
    /// in this context is used once.
    pub fn mark_current_one_off(&self, count: usize) -> (call: Option<ArtesiaCall>)
        requires
            count < usize::MAX,
        ensures
            asked_if_any(call) == current_one_off_call(self@, count as int),
            match call {
                Some(ArtesiaCall::MarkAllOneOff { context_id, message_count }) => {
                    &&& self@.enabled && self@.one_off
                    &&& context_id@ == self@.context_id
                    &&& message_count == count + 1
                },
                Some(_) => false,
                None => !(self@.enabled && self@.one_off),
            },
    {
        if !self.enabled || !self.one_off {
            return None;
        }
        Some(
            ArtesiaCall::MarkAllOneOff {
                context_id: self.context_id.clone(),
                message_count: 1 + count,
            },
        )
    }

    /// The call that gives the context up, when no more requests follow. The service is not kept
    /// up to date any more.
    pub fn suspend(&mut self) -> (call: Option<ArtesiaCall>)
        ensures
            asked_if_any(call) == suspend_call(old(self)@),
            final(self)@ == after_suspend(old(self)@),
    {
        if self.enabled && !self.context_id.as_str().is_empty() {
            self.enabled = false;
            Some(ArtesiaCall::DeleteContext { context_id: self.context_id.clone() })
        } else {
            None
        }
    }
}

} // verus!
