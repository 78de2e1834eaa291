//! What holds of every mirrored conversation.
use vstd::prelude::*;

use crate::artesia::{
    after_prefix, after_suspend, asked, asked_if_any, can_suspend, compact_id,
    compact_one_off_call, copy_of, current_one_off_call, fork_call, input_texts, lines, message_of,
    messages_of, prefix_call, prefix_is_due, record_calls, remove_first_call, replace_call,
    suspend_call, ArtesiaCall, CallView, ManagerView, Message, MessageView,
};
use crate::models::{ContentItem, ResponseItem};

verus! {

/// The context that a call is about.
pub open spec fn context_of(call: CallView) -> Seq<char> {
    match call {
        CallView::CreateContext { context_id } => context_id,
        CallView::AppendMessage { context_id, .. } => context_id,
        CallView::RemoveMessage { context_id, .. } => context_id,
        CallView::ReplaceAllMessages { context_id, .. } => context_id,
        CallView::ForkContext { context_id, .. } => context_id,
        CallView::SetVirtualPrefix { context_id, .. } => context_id,
        CallView::MarkAllOneOff { context_id, .. } => context_id,
        CallView::DeleteContext { context_id } => context_id,
    }
}

/// The messages of a context once a call about it has taken effect. A removal at an index where
/// there is no message has none, nor has a call about something other than the messages.
pub open spec fn replay(mirror: Seq<MessageView>, call: CallView) -> Seq<MessageView> {
    match call {
        CallView::CreateContext { .. } => Seq::empty(),
        CallView::AppendMessage { message, .. } => mirror.push(message),
        CallView::RemoveMessage { index, .. } => if 0 <= index < mirror.len() {
            mirror.remove(index)
        } else {
            mirror
        },
        CallView::ReplaceAllMessages { messages, .. } => messages,
        _ => mirror,
    }
}

/// The messages of a context once calls about it have taken effect, in order.
pub open spec fn replay_all(mirror: Seq<MessageView>, calls: Seq<CallView>) -> Seq<MessageView>
    decreases calls.len(),
{
    if calls.len() == 0 {
        mirror
    } else {
        replay(replay_all(mirror, calls.drop_last()), calls.last())
    }
}

/// A mirror that shows the history shows it again once recorded items have been appended.
pub proof fn mirror_follows_recording(
    manager: ManagerView,
    before: Seq<ResponseItem>,
    added: Seq<ResponseItem>,
)
    requires
        manager.enabled,
    ensures
        replay_all(
            messages_of(before),
            record_calls(manager, before.len() as int, before + added),
        ) == messages_of(before + added),
    decreases added.len(),
{
    let count = before.len() as int;
    let calls = record_calls(manager, count, before + added);
    if added.len() == 0 {
        assert(before + added =~= before);
    } else {
        let fewer = added.drop_last();
        mirror_follows_recording(manager, before, fewer);
        assert((before + added).skip(count) =~= added);
        assert((before + fewer).skip(count) =~= fewer);
        assert(calls.drop_last() =~= record_calls(manager, count, before + fewer));
        assert(calls.last() == (CallView::AppendMessage {
            context_id: manager.context_id,
            message: message_of(added.last()),
        }));
        assert(messages_of(before + added) =~= messages_of(before + fewer).push(
            message_of(added.last()),
        ));
    }
}

/// A mirror that shows the history shows it again once the oldest item has been removed. Where
/// there is none the removal is sent all the same, and the mirror stays as it is.
pub proof fn mirror_follows_removal(manager: ManagerView, before: Seq<ResponseItem>)
    requires
        manager.enabled,
    ensures
        remove_first_call(manager) is Some,
        before.len() > 0 ==> replay(messages_of(before), remove_first_call(manager)->Some_0)
            == messages_of(before.drop_first()),
        before.len() == 0 ==> replay(messages_of(before), remove_first_call(manager)->Some_0)
            == messages_of(before),
{
    if before.len() > 0 {
        assert(messages_of(before).remove(0) =~= messages_of(before.drop_first()));
    }
}

/// Whatever a mirror showed, it shows the history once that has been replaced.
pub proof fn mirror_follows_replacement(
    manager: ManagerView,
    mirror: Seq<MessageView>,
    after: Seq<ResponseItem>,
)
    requires
        manager.enabled,
    ensures
        replace_call(manager, after) is Some,
        replay(mirror, replace_call(manager, after)->Some_0) == messages_of(after),
{
}

/// The mirror of a new context shows an empty history.
pub proof fn new_mirror_is_empty(mirror: Seq<MessageView>, context_id: Seq<char>)
    ensures
        replay(mirror, CallView::CreateContext { context_id }) == messages_of(Seq::empty()),
{
    assert(messages_of(Seq::empty()) =~= Seq::empty());
}

/// Only changes of the history change the mirror: no other call touches the messages.
pub proof fn other_calls_keep_the_mirror(
    manager: ManagerView,
    mirror: Seq<MessageView>,
    parent: Seq<char>,
    instructions: Seq<char>,
    tools: Seq<char>,
    count: int,
)
    ensures
        fork_call(manager, parent) is Some ==> replay(
            mirror,
            fork_call(manager, parent)->Some_0,
        ) == mirror,
        prefix_call(manager, instructions, tools) is Some ==> replay(
            mirror,
            prefix_call(manager, instructions, tools)->Some_0,
        ) == mirror,
        current_one_off_call(manager, count) is Some ==> replay(
            mirror,
            current_one_off_call(manager, count)->Some_0,
        ) == mirror,
{
}

/// A manager that is not enabled makes no call about its context, and none at all where it has no
/// context.
pub proof fn disabled_manager_is_silent(
    manager: ManagerView,
    count_before: int,
    items: Seq<ResponseItem>,
    parent: Seq<char>,
    instructions: Seq<char>,
    tools: Seq<char>,
    count: int,
)
    requires
        !manager.enabled,
    ensures
        record_calls(manager, count_before, items).len() == 0,
        remove_first_call(manager) is None,
        replace_call(manager, items) is None,
        fork_call(manager, parent) is None,
        prefix_call(manager, instructions, tools) is None,
        current_one_off_call(manager, count) is None,
        suspend_call(manager) is None,
        manager.context_id.len() == 0 ==> compact_one_off_call(manager, count) is None,
{
}

/// A copy is not enabled, and neither is what comes of suspending a manager that has a context.
pub proof fn copies_and_suspended_managers_are_disabled(manager: ManagerView)
    ensures
        !copy_of(manager).enabled,
        can_suspend(manager) ==> !after_suspend(manager).enabled,
{
}

/// A context is given up at most once.
pub proof fn suspending_twice_calls_once(manager: ManagerView)
    ensures
        suspend_call(after_suspend(manager)) is None,
        after_suspend(after_suspend(manager)) == after_suspend(manager),
{
}

/// The virtual prefix is handed over at most once.
pub proof fn prefix_is_handed_over_once(
    manager: ManagerView,
    instructions: Seq<char>,
    tools: Seq<char>,
)
    ensures
        prefix_call(after_prefix(manager), instructions, tools) is None,
        after_prefix(after_prefix(manager)) == after_prefix(manager),
{
}

/// An operation that can change a manager.
pub enum ManagerOp {
    SyncVirtualPrefix,
    SetOneOff,
    Suspend,
}

/// The manager after one operation.
pub open spec fn after_op(manager: ManagerView, op: ManagerOp) -> ManagerView {
    match op {
        ManagerOp::SyncVirtualPrefix => after_prefix(manager),
        ManagerOp::SetOneOff => ManagerView { one_off: true, ..manager },
        ManagerOp::Suspend => after_suspend(manager),
    }
}

/// The manager after operations, in order.
pub open spec fn after_ops(manager: ManagerView, ops: Seq<ManagerOp>) -> ManagerView
    decreases ops.len(),
{
    if ops.len() == 0 {
        manager
    } else {
        after_op(after_ops(manager, ops.drop_last()), ops.last())
    }
}

/// Whatever is done with a manager, it keeps its context, and neither is a disabled one enabled
/// again nor the virtual prefix due again once it is not.
pub proof fn no_operation_goes_back(manager: ManagerView, ops: Seq<ManagerOp>)
    ensures
        after_ops(manager, ops).context_id == manager.context_id,
        !manager.enabled ==> !after_ops(manager, ops).enabled,
        !prefix_is_due(manager) ==> !prefix_is_due(after_ops(manager, ops)),
        manager.one_off ==> after_ops(manager, ops).one_off,
    decreases ops.len(),
{
    if ops.len() > 0 {
        no_operation_goes_back(manager, ops.drop_last());
    }
}

/// Every call but the mark of a compaction is about the manager's own context.
pub proof fn calls_are_about_the_own_context(
    manager: ManagerView,
    count_before: int,
    items: Seq<ResponseItem>,
    parent: Seq<char>,
    instructions: Seq<char>,
    tools: Seq<char>,
    count: int,
)
    requires
        0 <= count_before,
    ensures
        forall|i: int|
            0 <= i < record_calls(manager, count_before, items).len() ==> context_of(
                #[trigger] record_calls(manager, count_before, items)[i],
            ) == manager.context_id,
        forall|call: CallView|
            remove_first_call(manager) == Some(call) || replace_call(manager, items) == Some(call)
                || fork_call(manager, parent) == Some(call) || prefix_call(
                manager,
                instructions,
                tools,
            ) == Some(call) || current_one_off_call(manager, count) == Some(call) || suspend_call(
                manager,
            ) == Some(call) ==> #[trigger] context_of(call) == manager.context_id,
{
}

/// What a compaction marks is never in the manager's own context.
pub proof fn compaction_marks_another_context(manager: ManagerView, count: int)
    requires
        manager.context_id.len() > 0,
    ensures
        compact_one_off_call(manager, count) is Some,
        context_of(compact_one_off_call(manager, count)->Some_0) != manager.context_id,
{
    reveal_strlit(":compact");
    assert(compact_id(manager.context_id).len() != manager.context_id.len());
}

/// A message without a text that goes to the model is mirrored as an empty one, under its role.
pub proof fn message_without_texts_is_empty(item: ResponseItem)
    requires
        item is Message,
        forall|i: int|
            0 <= i < item->content@.len() ==> !((#[trigger] item->content@[i]) is InputText),
    ensures
        message_of(item).role == item->role@,
        message_of(item).content.len() == 0,
{
    texts_of_none(item->content@);
}

proof fn texts_of_none(content: Seq<ContentItem>)
    requires
        forall|i: int| 0 <= i < content.len() ==> !((#[trigger] content[i]) is InputText),
    ensures
        input_texts(content).len() == 0,
    decreases content.len(),
{
    if content.len() > 0 {
        assert(content.last() == content[content.len() - 1]);
        assert forall|i: int| 0 <= i < content.drop_last().len() implies !((
        #[trigger] content.drop_last()[i]) is InputText) by {
            assert(content.drop_last()[i] == content[i]);
        }
        texts_of_none(content.drop_last());
    }
}

/// A message whose one text that goes to the model is `text` is mirrored with exactly that text,
/// whatever its length and wherever it stands.
pub proof fn single_text_is_mirrored_whole(item: ResponseItem, at: int)
    requires
        item is Message,
        0 <= at < item->content@.len(),
        item->content@[at] is InputText,
        forall|i: int|
            0 <= i < item->content@.len() && i != at ==> !((
            #[trigger] item->content@[i]) is InputText),
    ensures
        message_of(item).role == item->role@,
        message_of(item).content == item->content@[at]->InputText_text@,
{
    texts_of_one(item->content@, at);
    assert(lines(input_texts(item->content@)) == item->content@[at]->InputText_text@);
}

proof fn texts_of_one(content: Seq<ContentItem>, at: int)
    requires
        0 <= at < content.len(),
        content[at] is InputText,
        forall|i: int|
            0 <= i < content.len() && i != at ==> !((#[trigger] content[i]) is InputText),
    ensures
        input_texts(content) == seq![content[at]->InputText_text@],
    decreases content.len(),
{
    let earlier = content.drop_last();
    assert(content.last() == content[content.len() - 1]);
    assert(forall|i: int| 0 <= i < earlier.len() ==> #[trigger] earlier[i] == content[i]);
    if at == content.len() - 1 {
        texts_of_none(earlier);
        assert(input_texts(content) =~= seq![content[at]->InputText_text@]);
    } else {
        texts_of_one(earlier, at);
    }
}

/// One more part at the end of a message: a text that goes to the model is appended to what is
/// mirrored, behind a line break where there is such a text already. Any other part leaves it as it
/// is. The role is that of the message, and nothing else of it counts.
pub proof fn one_more_part_is_appended(item: ResponseItem, longer: ResponseItem, part: ContentItem)
    requires
        item is Message,
        longer is Message,
        longer->content@ == item->content@.push(part),
    ensures
        message_of(longer).role == longer->role@,
        part is InputText && (exists|i: int|
            0 <= i < item->content@.len() && (#[trigger] item->content@[i]) is InputText)
            ==> message_of(longer).content == message_of(item).content + seq!['\n']
            + part->InputText_text@ && message_of(longer).content.len() == message_of(
            item,
        ).content.len() + 1 + part->InputText_text@.len(),
        part is InputText && !(exists|i: int|
            0 <= i < item->content@.len() && (#[trigger] item->content@[i]) is InputText)
            ==> message_of(longer).content == part->InputText_text@,
        !(part is InputText) ==> message_of(longer).content == message_of(item).content,
{
    let content = item->content@;
    assert(content.push(part).drop_last() =~= content);
    assert(content.push(part).last() == part);
    if part is InputText {
        let text = part->InputText_text@;
        assert(input_texts(content.push(part)) == input_texts(content).push(text));
        assert(input_texts(content).push(text).drop_last() =~= input_texts(content));
        if exists|i: int| 0 <= i < content.len() && (#[trigger] content[i]) is InputText {
            let i = choose|i: int| 0 <= i < content.len() && (#[trigger] content[i]) is InputText;
            texts_of_some(content, i);
            reveal_strlit("\n");
            assert("\n"@ =~= seq!['\n']);
        } else {
            texts_of_none(content);
        }
    }
}

proof fn texts_of_some(content: Seq<ContentItem>, at: int)
    requires
        0 <= at < content.len(),
        content[at] is InputText,
    ensures
        input_texts(content).len() > 0,
    decreases content.len(),
{
    if at < content.len() - 1 {
        texts_of_some(content.drop_last(), at);
    }
}

/// What is mirrored of a message is as long as its texts that go to the model and the line breaks
/// between them, and each of the texts stands in it whole.
pub proof fn every_text_is_mirrored_whole(item: ResponseItem, at: int) -> (start: int)
    requires
        item is Message,
        0 <= at < item->content@.len(),
        item->content@[at] is InputText,
    ensures
        0 <= start,
        start + item->content@[at]->InputText_text@.len() <= message_of(item).content.len(),
        message_of(item).content.subrange(
            start,
            start + item->content@[at]->InputText_text@.len(),
        ) == item->content@[at]->InputText_text@,
{
    text_stands_in_lines(item->content@, at)
}

proof fn text_stands_in_lines(content: Seq<ContentItem>, at: int) -> (start: int)
    requires
        0 <= at < content.len(),
        content[at] is InputText,
    ensures
        0 <= start,
        start + content[at]->InputText_text@.len() <= lines(input_texts(content)).len(),
        lines(input_texts(content)).subrange(start, start + content[at]->InputText_text@.len())
            == content[at]->InputText_text@,
    decreases content.len(),
{
    let earlier = content.drop_last();
    let whole = lines(input_texts(content));
    let text = content[at]->InputText_text@;
    if at < content.len() - 1 {
        let start = text_stands_in_lines(earlier, at);
        texts_of_some(earlier, at);
        if content.last() is InputText {
            assert(input_texts(content).drop_last() =~= input_texts(earlier));
        }
        assert(whole.subrange(start, start + text.len()) =~= lines(input_texts(earlier)).subrange(
            start,
            start + text.len(),
        ));
        start
    } else {
        assert(input_texts(content).drop_last() =~= input_texts(earlier));
        assert(input_texts(content).last() == text);
        let start = whole.len() - text.len();
        assert(whole.subrange(start, start + text.len()) =~= text);
        start
    }
}

/// A call of a function is mirrored as its name and, in brackets, its arguments, both whole.
pub proof fn function_call_is_mirrored_whole(item: ResponseItem)
    requires
        item is FunctionCall,
    ensures
        message_of(item).role == "tool_call"@,
        message_of(item).content.len() == item->name@.len() + item->arguments@.len() + 2,
        message_of(item).content.take(item->name@.len() as int) == item->name@,
        message_of(item).content[item->name@.len() as int] == '(',
        message_of(item).content.subrange(
            item->name@.len() as int + 1,
            message_of(item).content.len() - 1,
        ) == item->arguments@,
        message_of(item).content.last() == ')',
{
    reveal_strlit("(");
    reveal_strlit(")");
    let content = message_of(item).content;
    let name = item->name@;
    let arguments = item->arguments@;
    assert(content.take(name.len() as int) =~= name);
    assert(content.subrange(name.len() as int + 1, content.len() - 1) =~= arguments);
}

/// The output of a function and the reasoning of the model are mirrored with their text, whole, and
/// as empty messages where they have none. The parts of an output do not count.
pub proof fn outputs_and_reasoning_are_mirrored_whole(item: ResponseItem)
    ensures
        item is FunctionCallOutput ==> message_of(item).role == "tool_output"@
            && match item->FunctionCallOutput_output.text {
            Some(text) => message_of(item).content == text@,
            None => message_of(item).content.len() == 0,
        },
        item is Reasoning ==> message_of(item).role == "reasoning"@
            && match item->encrypted_content {
            Some(text) => message_of(item).content == text@,
            None => message_of(item).content.len() == 0,
        },
{
}

/// Anything else is mirrored as an empty message of its own role: an item has one message, so that
/// the places in the mirror are those in the history.
pub proof fn anything_else_is_mirrored_empty(item: ResponseItem)
    requires
        !(item is Message || item is FunctionCall || item is FunctionCallOutput
            || item is Reasoning),
    ensures
        message_of(item).role == "other"@,
        message_of(item).content.len() == 0,
{
    reveal_strlit("");
}

/// The mirror of a history has one message for each item, in the same place.
pub proof fn mirror_has_a_message_for_each_item(items: Seq<ResponseItem>, at: int)
    requires
        0 <= at < items.len(),
    ensures
        messages_of(items).len() == items.len(),
        messages_of(items)[at] == message_of(items[at]),
{
}

/// An enabled manager appends a message for each item that the history has grown by, in order, one
/// call for each, and calls for nothing where it has not grown.
pub proof fn recording_appends_each_new_item(
    manager: ManagerView,
    count_before: int,
    items: Seq<ResponseItem>,
    at: int,
)
    requires
        manager.enabled,
        0 <= count_before,
    ensures
        count_before >= items.len() ==> record_calls(manager, count_before, items).len() == 0,
        count_before <= items.len() ==> record_calls(manager, count_before, items).len()
            == items.len() - count_before,
        count_before <= at < items.len() ==> record_calls(manager, count_before, items)[at
            - count_before] == (CallView::AppendMessage {
            context_id: manager.context_id,
            message: message_of(items[at]),
        }),
{
}

/// An enabled manager has the first message removed when the oldest item is, and all of them
/// replaced by those for the history when that has become another.
pub proof fn removal_and_replacement_call_for_the_same(
    manager: ManagerView,
    items: Seq<ResponseItem>,
)
    requires
        manager.enabled,
    ensures
        remove_first_call(manager) == Some(
            CallView::RemoveMessage { context_id: manager.context_id, index: 0 },
        ),
        replace_call(manager, items) == Some(
            CallView::ReplaceAllMessages {
                context_id: manager.context_id,
                messages: Seq::new(items.len(), |i: int| message_of(items[i])),
            },
        ),
{
    assert(messages_of(items) =~= Seq::new(items.len(), |i: int| message_of(items[i])));
}

/// A fork names its parent and itself, each in its place, for every enabled manager.
pub proof fn fork_names_parent_and_child(manager: ManagerView, parent: Seq<char>)
    requires
        manager.enabled,
    ensures
        fork_call(manager, parent) == Some(
            CallView::ForkContext { parent_context_id: parent, context_id: manager.context_id },
        ),
{
}

/// The virtual prefix is handed over exactly by an enabled manager with a context that has not
/// handed it over: the instructions and the tools as they are, without a schema. From then on it
/// counts as handed over, and nothing else about the manager changes.
pub proof fn prefix_is_handed_over_whole(
    manager: ManagerView,
    instructions: Seq<char>,
    tools: Seq<char>,
)
    ensures
        manager.enabled && !manager.virtual_prefix_synced && manager.context_id.len() > 0
            ==> prefix_call(manager, instructions, tools) == Some(
            CallView::SetVirtualPrefix {
                context_id: manager.context_id,
                instructions,
                tools_description: tools,
                output_schema: Seq::empty(),
            },
        ) && after_prefix(manager).virtual_prefix_synced,
        !manager.enabled || manager.virtual_prefix_synced || manager.context_id.len() == 0
            ==> prefix_call(manager, instructions, tools) is None && after_prefix(manager)
            == manager,
        after_prefix(manager).context_id == manager.context_id,
        after_prefix(manager).enabled == manager.enabled,
        after_prefix(manager).one_off == manager.one_off,
{
    reveal_strlit("");
    assert(""@ =~= Seq::<char>::empty());
}

/// The mark of a compaction counts one message more than the history has items, for every manager
/// with a context, be it enabled or not, and whatever it has handed over or is used for. So a copy
/// asks for the same as the manager that it was made of.
pub proof fn compaction_marks_the_prefix_and_every_item(
    manager: ManagerView,
    other: ManagerView,
    count: int,
)
    requires
        manager.context_id == other.context_id,
    ensures
        compact_one_off_call(manager, count) is Some <==> manager.context_id.len() > 0,
        manager.context_id.len() > 0 ==> compact_one_off_call(manager, count) == Some(
            CallView::MarkAllOneOff {
                context_id: manager.context_id + seq![':', 'c', 'o', 'm', 'p', 'a', 'c', 't'],
                message_count: count + 1,
            },
        ),
        compact_one_off_call(manager, count) == compact_one_off_call(other, count),
        compact_one_off_call(copy_of(manager), count) == compact_one_off_call(manager, count),
{
    reveal_strlit(":compact");
    assert(":compact"@ =~= seq![':', 'c', 'o', 'm', 'p', 'a', 'c', 't']);
}

/// The mark of an inference counts one message more than the history has items, in the manager's
/// own context. It is asked for exactly by an enabled manager whose inferences are used once.
pub proof fn inference_marks_the_prefix_and_every_item(manager: ManagerView, count: int)
    ensures
        manager.enabled && manager.one_off ==> current_one_off_call(manager, count) == Some(
            CallView::MarkAllOneOff { context_id: manager.context_id, message_count: count + 1 },
        ),
        !(manager.enabled && manager.one_off) ==> current_one_off_call(manager, count) is None,
{
}

/// A manager gives its context up exactly where it is enabled and has one, and is then disabled.
/// Nothing else about it changes, and nothing at all where it gives nothing up.
pub proof fn suspending_gives_the_context_up(manager: ManagerView)
    ensures
        manager.enabled && manager.context_id.len() > 0 ==> suspend_call(manager) == Some(
            CallView::DeleteContext { context_id: manager.context_id },
        ) && !after_suspend(manager).enabled,
        !(manager.enabled && manager.context_id.len() > 0) ==> suspend_call(manager) is None
            && after_suspend(manager) == manager,
        after_suspend(manager).context_id == manager.context_id,
        after_suspend(manager).virtual_prefix_synced == manager.virtual_prefix_synced,
        after_suspend(manager).one_off == manager.one_off,
{
}

/// A copy has the context of the manager that it was made of and is used for the same, but leaves
/// the service and the virtual prefix to that one.
pub proof fn copy_keeps_context_and_use(manager: ManagerView)
    ensures
        copy_of(manager).context_id == manager.context_id,
        copy_of(manager).one_off == manager.one_off,
        !copy_of(manager).enabled,
        copy_of(manager).virtual_prefix_synced,
{
}

/// The views of calls and messages show every part of them as it is.
pub proof fn views_show_calls_whole(call: ArtesiaCall, message: Message)
    ensures
        message@.role == message.role@,
        message@.content == message.content@,
        match call {
            ArtesiaCall::CreateContext { context_id } => call@ == (CallView::CreateContext {
                context_id: context_id@,
            }),
            ArtesiaCall::AppendMessage { context_id, message } => {
                &&& call@ is AppendMessage
                &&& call@->AppendMessage_context_id == context_id@
                &&& call@->message.role == message.role@
                &&& call@->message.content == message.content@
            },
            ArtesiaCall::RemoveMessage { context_id, index } => call@ == (CallView::RemoveMessage {
                context_id: context_id@,
                index: index as int,
            }),
            ArtesiaCall::ReplaceAllMessages { context_id, messages } => {
                &&& call@ is ReplaceAllMessages
                &&& call@->ReplaceAllMessages_context_id == context_id@
                &&& call@->messages.len() == messages@.len()
                &&& forall|i: int|
                    0 <= i < messages@.len() ==> (#[trigger] call@->messages[i]).role
                        == messages@[i].role@ && call@->messages[i].content
                        == messages@[i].content@
            },
            ArtesiaCall::ForkContext { parent_context_id, context_id } => call@ == (
            CallView::ForkContext {
                parent_context_id: parent_context_id@,
                context_id: context_id@,
            }),
            ArtesiaCall::SetVirtualPrefix {
                context_id,
                instructions,
                tools_description,
                output_schema,
            } => call@ == (CallView::SetVirtualPrefix {
                context_id: context_id@,
                instructions: instructions@,
                tools_description: tools_description@,
                output_schema: output_schema@,
            }),
            ArtesiaCall::MarkAllOneOff { context_id, message_count } => call@ == (
            CallView::MarkAllOneOff {
                context_id: context_id@,
                message_count: message_count as int,
            }),
            ArtesiaCall::DeleteContext { context_id } => call@ == (CallView::DeleteContext {
                context_id: context_id@,
            }),
        },
{
}

/// The calls behind a list or an option are the views of those in it, one for one.
pub proof fn every_call_is_asked(calls: Seq<ArtesiaCall>, call: Option<ArtesiaCall>, at: int)
    ensures
        asked(calls).len() == calls.len(),
        0 <= at < calls.len() ==> asked(calls)[at] == calls[at]@,
        asked_if_any(call) is Some <==> call is Some,
        call is Some ==> asked_if_any(call)->Some_0 == call->Some_0@,
{
}

} // verus!
