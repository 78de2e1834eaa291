//! What holds of every preparation of images for strict mode.
use vstd::prelude::*;

use crate::models::{
    ContentItem, FunctionCallOutputContentItem, FunctionCallOutputPayload, ImageDetail,
    ResponseItem,
};
use crate::strict_images::{
    content_prepared, content_refused, image_prepared, image_refused, is_data_url, item_prepared,
    item_refused, items_prepared, items_refused, items_settled, loading_mode, loads,
    output_part_prepared, output_part_refused, passed_over, payload_prepared, payload_refused,
    ready, LoadedImage, PreparationMode, PromptImageMode,
    ResponsesCodexStrictImagePreparationError,
};

verus! {

/// Whether `test` holds of a part of a message, where it is an image.
pub open spec fn content_passes(
    test: spec_fn(Seq<char>, Option<ImageDetail>) -> bool,
    item: ContentItem,
) -> bool {
    match item {
        ContentItem::InputImage { image_url, detail } => test(image_url@, detail),
        _ => true,
    }
}

/// Whether `test` holds of a part of a tool's output, where it is an image.
pub open spec fn output_part_passes(
    test: spec_fn(Seq<char>, Option<ImageDetail>) -> bool,
    item: FunctionCallOutputContentItem,
) -> bool {
    match item {
        FunctionCallOutputContentItem::InputImage { image_url, detail } => test(image_url@, detail),
        _ => true,
    }
}

/// Whether `test` holds of every image in the output of a tool.
pub open spec fn payload_passes(
    test: spec_fn(Seq<char>, Option<ImageDetail>) -> bool,
    output: FunctionCallOutputPayload,
) -> bool {
    match output.content_items {
        Some(items) => forall|i: int|
            0 <= i < items@.len() ==> output_part_passes(test, #[trigger] items@[i]),
        None => true,
    }
}

/// Whether `test` holds of every image in an item.
pub open spec fn item_passes(
    test: spec_fn(Seq<char>, Option<ImageDetail>) -> bool,
    item: ResponseItem,
) -> bool {
    match item {
        ResponseItem::Message { content, .. } => forall|i: int|
            0 <= i < content@.len() ==> content_passes(test, #[trigger] content@[i]),
        ResponseItem::FunctionCallOutput { output, .. } => payload_passes(test, output),
        ResponseItem::CustomToolCallOutput { output, .. } => payload_passes(test, output),
        _ => true,
    }
}

/// Whether `test` holds of every image in a list of items.
pub open spec fn all_images_pass(
    test: spec_fn(Seq<char>, Option<ImageDetail>) -> bool,
    items: Seq<ResponseItem>,
) -> bool {
    forall|i: int| 0 <= i < items.len() ==> item_passes(test, #[trigger] items[i])
}

/// Whether every image is ready: a data URL without a detail.
pub open spec fn all_ready(items: Seq<ResponseItem>) -> bool {
    all_images_pass(|image_url: Seq<char>, detail: Option<ImageDetail>| ready(image_url, detail), items)
}

/// Whether two items hold the same, part by part.
pub open spec fn same_item(one: ResponseItem, other: ResponseItem) -> bool {
    match one {
        ResponseItem::Message { id, role, content, phase } => {
            &&& other is Message
            &&& other->id == id
            &&& other->role == role
            &&& other->phase == phase
            &&& other->content@ == content@
        },
        ResponseItem::FunctionCallOutput { call_id, output } => {
            &&& other is FunctionCallOutput
            &&& other->FunctionCallOutput_call_id == call_id
            &&& same_payload(output, other->FunctionCallOutput_output)
        },
        ResponseItem::CustomToolCallOutput { call_id, output } => {
            &&& other is CustomToolCallOutput
            &&& other->CustomToolCallOutput_call_id == call_id
            &&& same_payload(output, other->CustomToolCallOutput_output)
        },
        _ => other == one,
    }
}

/// Whether two outputs of a tool hold the same, part by part.
pub open spec fn same_payload(
    one: FunctionCallOutputPayload,
    other: FunctionCallOutputPayload,
) -> bool {
    &&& other.text == one.text
    &&& match one.content_items {
        Some(items) => other.content_items is Some && other.content_items->Some_0@ == items@,
        None => other.content_items is None,
    }
}

/// Carries a test of the images from before a preparation over to after it.
proof fn item_carries<E, F: Fn(&str, PromptImageMode) -> Result<LoadedImage, E>>(
    load: F,
    mode: PreparationMode,
    first: spec_fn(Seq<char>, Option<ImageDetail>) -> bool,
    then_test: spec_fn(Seq<char>, Option<ImageDetail>) -> bool,
    before: ResponseItem,
    after: ResponseItem,
)
    requires
        item_prepared(load, mode, before, after),
        forall|u: String, d: Option<ImageDetail>, v: String, e: Option<ImageDetail>|
            #[trigger] image_prepared(load, mode, u, d, v, e) ==> first(u@, d) && then_test(v@, e),
    ensures
        item_passes(first, before),
        item_passes(then_test, after),
{
    match before {
        ResponseItem::Message { content, .. } => {
            assert forall|i: int| 0 <= i < content@.len() implies content_passes(
                first,
                #[trigger] content@[i],
            ) && content_passes(then_test, after->content@[i]) by {
                assert(content_prepared(load, mode, content@[i], after->content@[i]));
            }
        },
        ResponseItem::FunctionCallOutput { output, .. } => {
            payload_carries(
                load,
                mode,
                first,
                then_test,
                output,
                after->FunctionCallOutput_output,
            );
        },
        ResponseItem::CustomToolCallOutput { output, .. } => {
            payload_carries(
                load,
                mode,
                first,
                then_test,
                output,
                after->CustomToolCallOutput_output,
            );
        },
        _ => {},
    }
}

proof fn payload_carries<E, F: Fn(&str, PromptImageMode) -> Result<LoadedImage, E>>(
    load: F,
    mode: PreparationMode,
    first: spec_fn(Seq<char>, Option<ImageDetail>) -> bool,
    then_test: spec_fn(Seq<char>, Option<ImageDetail>) -> bool,
    before: FunctionCallOutputPayload,
    after: FunctionCallOutputPayload,
)
    requires
        payload_prepared(load, mode, before, after),
        forall|u: String, d: Option<ImageDetail>, v: String, e: Option<ImageDetail>|
            #[trigger] image_prepared(load, mode, u, d, v, e) ==> first(u@, d) && then_test(v@, e),
    ensures
        payload_passes(first, before),
        payload_passes(then_test, after),
{
    if let Some(items) = before.content_items {
        let new_items = after.content_items->Some_0;
        assert forall|i: int| 0 <= i < items@.len() implies output_part_passes(
            first,
            #[trigger] items@[i],
        ) && output_part_passes(then_test, new_items@[i]) by {
            assert(output_part_prepared(load, mode, items@[i], new_items@[i]));
        }
    }
}

/// A preparation that succeeds, in either mode, met data URLs alone, and leaves no image with a
/// detail.
pub proof fn success_strips_every_detail<E, F: Fn(&str, PromptImageMode) -> Result<LoadedImage, E>>(
    load: F,
    mode: PreparationMode,
    before: Seq<ResponseItem>,
    after: Seq<ResponseItem>,
)
    requires
        items_settled(load, mode, before, after, Ok(())),
    ensures
        all_images_pass(|u: Seq<char>, d: Option<ImageDetail>| is_data_url(u), before),
        all_images_pass(|u: Seq<char>, d: Option<ImageDetail>| loading_mode(d) is Some, before),
        all_images_pass(|u: Seq<char>, d: Option<ImageDetail>| d is None, after),
{
    let data_url = |u: Seq<char>, d: Option<ImageDetail>| is_data_url(u);
    let supported = |u: Seq<char>, d: Option<ImageDetail>| loading_mode(d) is Some;
    let stripped = |u: Seq<char>, d: Option<ImageDetail>| d is None;
    assert forall|i: int| 0 <= i < before.len() implies item_passes(data_url, #[trigger] before[i])
        && item_passes(supported, before[i]) && item_passes(stripped, after[i]) by {
        assert(item_prepared(load, mode, before[i], after[i]));
        item_carries(load, mode, data_url, stripped, before[i], after[i]);
        item_carries(load, mode, supported, stripped, before[i], after[i]);
    }
}

/// A preparation that succeeds, in either mode, leaves every image ready.
pub proof fn success_leaves_all_ready<E, F: Fn(&str, PromptImageMode) -> Result<LoadedImage, E>>(
    load: F,
    mode: PreparationMode,
    before: Seq<ResponseItem>,
    after: Seq<ResponseItem>,
)
    requires
        items_settled(load, mode, before, after, Ok(())),
    ensures
        all_ready(after),
{
    let any = |u: Seq<char>, d: Option<ImageDetail>| true;
    let is_ready = |u: Seq<char>, d: Option<ImageDetail>| ready(u, d);
    assert forall|i: int| 0 <= i < after.len() implies item_passes(is_ready, #[trigger] after[i]) by {
        assert(item_prepared(load, mode, before[i], after[i]));
        item_carries(load, mode, any, is_ready, before[i], after[i]);
    }
}

/// Items whose images are all ready pass the request fallback: it succeeds and changes nothing.
pub proof fn fallback_keeps_ready_items<E, F: Fn(&str, PromptImageMode) -> Result<LoadedImage, E>>(
    load: F,
    before: Seq<ResponseItem>,
    after: Seq<ResponseItem>,
    done: Result<(), ResponsesCodexStrictImagePreparationError<E>>,
)
    requires
        all_ready(before),
        items_settled(load, PreparationMode::UnpreparedImagesOnly, before, after, done),
    ensures
        done is Ok,
        after.len() == before.len(),
        forall|i: int| 0 <= i < before.len() ==> same_item(before[i], #[trigger] after[i]),
{
    let mode = PreparationMode::UnpreparedImagesOnly;
    let is_ready = |u: Seq<char>, d: Option<ImageDetail>| ready(u, d);
    if let Err(error) = done {
        items_not_refused(load, mode, is_ready, before, after, error);
    }
    assert forall|i: int| 0 <= i < before.len() implies same_item(
        before[i],
        #[trigger] after[i],
    ) by {
        assert(item_passes(is_ready, before[i]));
        assert(item_prepared(load, mode, before[i], after[i]));
        match before[i] {
            ResponseItem::Message { content, .. } => {
                assert forall|j: int| 0 <= j < content@.len() implies after[i]->content@[j]
                    == content@[j] by {
                    assert(content_passes(is_ready, content@[j]));
                    assert(content_prepared(load, mode, content@[j], after[i]->content@[j]));
                }
                assert(after[i]->content@ =~= content@);
            },
            ResponseItem::FunctionCallOutput { output, .. } => {
                ready_payload_is_kept(load, output, after[i]->FunctionCallOutput_output);
            },
            ResponseItem::CustomToolCallOutput { output, .. } => {
                ready_payload_is_kept(load, output, after[i]->CustomToolCallOutput_output);
            },
            _ => {},
        }
    }
}

/// What a preparation, in either mode, has made ready, a request fallback leaves alone, whoever
/// loads images then: it succeeds and changes nothing.
pub proof fn fallback_keeps_what_was_prepared<
    E,
    F: Fn(&str, PromptImageMode) -> Result<LoadedImage, E>,
    D,
    G: Fn(&str, PromptImageMode) -> Result<LoadedImage, D>,
>(
    load: F,
    mode: PreparationMode,
    before: Seq<ResponseItem>,
    prepared: Seq<ResponseItem>,
    later_load: G,
    after: Seq<ResponseItem>,
    done: Result<(), ResponsesCodexStrictImagePreparationError<D>>,
)
    requires
        items_settled(load, mode, before, prepared, Ok(())),
        items_settled(later_load, PreparationMode::UnpreparedImagesOnly, prepared, after, done),
    ensures
        done is Ok,
        after.len() == prepared.len(),
        forall|i: int| 0 <= i < prepared.len() ==> same_item(prepared[i], #[trigger] after[i]),
{
    success_leaves_all_ready(load, mode, before, prepared);
    fallback_keeps_ready_items(later_load, prepared, after, done);
}

proof fn ready_payload_is_kept<E, F: Fn(&str, PromptImageMode) -> Result<LoadedImage, E>>(
    load: F,
    before: FunctionCallOutputPayload,
    after: FunctionCallOutputPayload,
)
    requires
        payload_passes(|u: Seq<char>, d: Option<ImageDetail>| ready(u, d), before),
        payload_prepared(load, PreparationMode::UnpreparedImagesOnly, before, after),
    ensures
        same_payload(before, after),
{
    let mode = PreparationMode::UnpreparedImagesOnly;
    let is_ready = |u: Seq<char>, d: Option<ImageDetail>| ready(u, d);
    if let Some(items) = before.content_items {
        let new_items = after.content_items->Some_0;
        assert forall|j: int| 0 <= j < items@.len() implies new_items@[j] == items@[j] by {
            assert(output_part_passes(is_ready, items@[j]));
            assert(output_part_prepared(load, mode, items@[j], new_items@[j]));
        }
        assert(new_items@ =~= items@);
    }
}

/// Items whose images all pass a test that rules a refusal out are not refused.
proof fn items_not_refused<E, F: Fn(&str, PromptImageMode) -> Result<LoadedImage, E>>(
    load: F,
    mode: PreparationMode,
    test: spec_fn(Seq<char>, Option<ImageDetail>) -> bool,
    before: Seq<ResponseItem>,
    after: Seq<ResponseItem>,
    error: ResponsesCodexStrictImagePreparationError<E>,
)
    requires
        all_images_pass(test, before),
        forall|u: Seq<char>, d: Option<ImageDetail>|
            test(u, d) ==> !#[trigger] image_refused(load, mode, u, d, error),
    ensures
        !items_refused(load, mode, before, after, error),
{
    if items_refused(load, mode, before, after, error) {
        let at = choose|at: int|
            {
                &&& 0 <= at < before.len()
                &&& items_prepared(load, mode, before, after, at, at + 1)
                &&& item_refused(load, mode, #[trigger] before[at], after[at], error)
            };
        assert(item_passes(test, before[at]));
        match before[at] {
            ResponseItem::Message { content, .. } => {
                assert forall|j: int| 0 <= j < content@.len() implies !content_refused(
                    load,
                    mode,
                    #[trigger] content@[j],
                    error,
                ) by {
                    assert(content_passes(test, content@[j]));
                }
            },
            ResponseItem::FunctionCallOutput { output, .. } => {
                payload_not_refused(load, mode, test, output, error);
            },
            ResponseItem::CustomToolCallOutput { output, .. } => {
                payload_not_refused(load, mode, test, output, error);
            },
            _ => {},
        }
    }
}

proof fn payload_not_refused<E, F: Fn(&str, PromptImageMode) -> Result<LoadedImage, E>>(
    load: F,
    mode: PreparationMode,
    test: spec_fn(Seq<char>, Option<ImageDetail>) -> bool,
    before: FunctionCallOutputPayload,
    error: ResponsesCodexStrictImagePreparationError<E>,
)
    requires
        payload_passes(test, before),
        forall|u: Seq<char>, d: Option<ImageDetail>|
            test(u, d) ==> !#[trigger] image_refused(load, mode, u, d, error),
    ensures
        forall|after: FunctionCallOutputPayload|
            !#[trigger] payload_refused(load, mode, before, after, error),
{
    if let Some(items) = before.content_items {
        assert forall|j: int| 0 <= j < items@.len() implies !output_part_refused(
            load,
            mode,
            #[trigger] items@[j],
            error,
        ) by {
            assert(output_part_passes(test, items@[j]));
        }
    }
}

/// Whether the image at `image_url` loads, whatever answer comes of asking for it.
pub open spec fn always_loads<E, F: Fn(&str, PromptImageMode) -> Result<LoadedImage, E>>(
    load: F,
    image_url: Seq<char>,
    loading: PromptImageMode,
) -> bool {
    forall|outcome: Result<LoadedImage, E>| #[trigger]
        loads(load, image_url, loading, outcome) ==> outcome is Ok
}

/// A preparation succeeds where each image that its mode does not pass over is a data URL with a
/// supported detail, and loads.
pub proof fn success_is_owed<E, F: Fn(&str, PromptImageMode) -> Result<LoadedImage, E>>(
    load: F,
    mode: PreparationMode,
    before: Seq<ResponseItem>,
    after: Seq<ResponseItem>,
    done: Result<(), ResponsesCodexStrictImagePreparationError<E>>,
)
    requires
        items_settled(load, mode, before, after, done),
        all_images_pass(
            |u: Seq<char>, d: Option<ImageDetail>|
                passed_over(mode, u, d) || (is_data_url(u) && loading_mode(d) is Some
                    && always_loads(load, u, loading_mode(d)->Some_0)),
            before,
        ),
    ensures
        done is Ok,
{
    let admissible = |u: Seq<char>, d: Option<ImageDetail>|
        passed_over(mode, u, d) || (is_data_url(u) && loading_mode(d) is Some && always_loads(
            load,
            u,
            loading_mode(d)->Some_0,
        ));
    if let Err(error) = done {
        items_not_refused(load, mode, admissible, before, after, error);
    }
}

} // verus!
