//! Images made ready for requests in strict mode: each becomes a data URL without a detail.
use vstd::prelude::*;
use vstd::string::StringExecFns;

use crate::models::{
    ContentItem, FunctionCallOutputContentItem, FunctionCallOutputPayload, ImageDetail,
    ResponseItem,
};
use crate::text::{first_chars, starts_with, take_chars};

verus! {

/// How an image is loaded for a prompt.
#[derive(Clone, Copy, Debug, PartialEq, Eq, Structural)]
pub enum PromptImageMode {
    /// As it is.
    Original,
    /// Scaled down to the size that fits.
    ResizeToFit,
}

/// An image that was loaded for a prompt.
#[derive(Debug, PartialEq, Eq)]
pub struct LoadedImage {
    /// What follows the scheme in the data URL of the image: its media type and its data.
    pub after_scheme: String,
}

impl LoadedImage {
    /// The data URL of the image.
    pub open spec fn data_url(self) -> Seq<char> {
        "data:"@ + self.after_scheme@
    }

    /// Turns the image into its data URL.
    pub fn into_data_url(self) -> (data_url: String)
        ensures
            data_url@ == self.data_url(),
    {
        "data:".to_owned().concat(self.after_scheme.as_str())
    }
}

/// Why an image cannot be made ready. `E` is the error of whoever loads images.
#[derive(Debug, PartialEq)]
pub enum ResponsesCodexStrictImagePreparationError<E> {
    /// The image asks for low detail.
    UnsupportedLowDetail,
    /// The image is not given by a data URL.
    NonDataUrl {
        /// The beginning of the URL.
        image_url_preview: String,
    },
    /// The image cannot be loaded.
    ImageProcessing(E),
}

/// Which images are made ready.
#[derive(Clone, Copy, Debug, PartialEq, Eq, Structural)]
pub enum PreparationMode {
    /// All of them.
    AllImages,
    /// Those that have not been made ready before.
    UnpreparedImagesOnly,
}

/// Whether a URL is a data URL.
pub open spec fn is_data_url(image_url: Seq<char>) -> bool {
    "data:"@.is_prefix_of(image_url)
}

/// How many characters of a refused URL are shown.
pub const PREVIEW_CHARS: usize = 128;

/// Whether an image is as it is once it has been made ready: a data URL without a detail.
pub open spec fn ready(image_url: Seq<char>, detail: Option<ImageDetail>) -> bool {
    is_data_url(image_url) && detail is None
}

/// Whether `mode` passes an image over.
pub open spec fn passed_over(
    mode: PreparationMode,
    image_url: Seq<char>,
    detail: Option<ImageDetail>,
) -> bool {
    mode == PreparationMode::UnpreparedImagesOnly && ready(image_url, detail)
}

/// How an image with a detail is loaded, unless the detail is refused.
pub open spec fn loading_mode(detail: Option<ImageDetail>) -> Option<PromptImageMode> {
    match detail {
        None => Some(PromptImageMode::Original),
        Some(ImageDetail::Auto) => Some(PromptImageMode::Original),
        Some(ImageDetail::Original) => Some(PromptImageMode::Original),
        Some(ImageDetail::High) => Some(PromptImageMode::ResizeToFit),
        Some(ImageDetail::Low) => None,
    }
}

/// Whether `outcome` can come back when `load` is asked for the image at `image_url`.
pub open spec fn loads<E, F: Fn(&str, PromptImageMode) -> Result<LoadedImage, E>>(
    load: F,
    image_url: Seq<char>,
    mode: PromptImageMode,
    outcome: Result<LoadedImage, E>,
) -> bool {
    exists|asked: &str| asked@ == image_url && #[trigger] call_ensures(load, (asked, mode), outcome)
}

/// Whether `error` says that an image is refused before it is loaded.
pub open spec fn refuses<E>(
    image_url: Seq<char>,
    detail: Option<ImageDetail>,
    error: ResponsesCodexStrictImagePreparationError<E>,
) -> bool {
    match error {
        ResponsesCodexStrictImagePreparationError::NonDataUrl { image_url_preview } =>
            !is_data_url(image_url) && image_url_preview@ == first_chars(
                image_url,
                PREVIEW_CHARS as int,
            ),
        ResponsesCodexStrictImagePreparationError::UnsupportedLowDetail => is_data_url(image_url)
            && loading_mode(detail) is None,
        ResponsesCodexStrictImagePreparationError::ImageProcessing(_) => false,
    }
}

/// Decides how an image with `detail` is loaded.
pub fn prompt_image_mode_for_responses_codex_strict_detail<E>(detail: Option<ImageDetail>) -> (mode:
    Result<PromptImageMode, ResponsesCodexStrictImagePreparationError<E>>)
    ensures
        match mode {
            Ok(mode) => loading_mode(detail) == Some(mode),
            Err(error) => loading_mode(detail) is None
                && error is UnsupportedLowDetail,
        },
        mode is Err <==> detail == Some(ImageDetail::Low),
        mode is Ok ==> (mode->Ok_0 == PromptImageMode::ResizeToFit <==> detail == Some(
            ImageDetail::High,
        )),
{
    match detail {
        None | Some(ImageDetail::Auto) | Some(ImageDetail::Original) => Ok(
            PromptImageMode::Original,
        ),
        Some(ImageDetail::High) => Ok(PromptImageMode::ResizeToFit),
        Some(ImageDetail::Low) => Err(
            ResponsesCodexStrictImagePreparationError::UnsupportedLowDetail,
        ),
    }
}

/// Decides how an image is loaded.
pub fn plan_image<E>(image_url: &str, detail: Option<ImageDetail>) -> (plan: Result<
    PromptImageMode,
    ResponsesCodexStrictImagePreparationError<E>,
>)
    ensures
        match plan {
            Ok(loading) => is_data_url(image_url@) && loading_mode(detail) == Some(loading),
            Err(error) => refuses(image_url@, detail, error),
        },
        plan is Ok <==> "data:"@.is_prefix_of(image_url@) && detail != Some(ImageDetail::Low),
        plan is Ok ==> (plan->Ok_0 == PromptImageMode::ResizeToFit <==> detail == Some(
            ImageDetail::High,
        )),
        plan is Err ==> (plan->Err_0 is UnsupportedLowDetail <==> "data:"@.is_prefix_of(
            image_url@,
        )),
{
    if !starts_with(image_url, "data:") {
        return Err(
            ResponsesCodexStrictImagePreparationError::NonDataUrl {
                image_url_preview: take_chars(image_url, PREVIEW_CHARS),
            },
        );
    }
    prompt_image_mode_for_responses_codex_strict_detail(detail)
}

/// Puts the outcome of loading an image in its place.
pub fn finish_image<E>(
    image_url: &mut String,
    detail: &mut Option<ImageDetail>,
    outcome: Result<LoadedImage, E>,
) -> (done: Result<(), ResponsesCodexStrictImagePreparationError<E>>)
    ensures
        match outcome {
            Ok(image) => {
                &&& done is Ok
                &&& final(image_url)@ == image.data_url()
                &&& final(image_url)@ == "data:"@ + image.after_scheme@
                &&& *final(detail) == None::<ImageDetail>
            },
            Err(error) => {
                &&& done == Err::<(), _>(
                    ResponsesCodexStrictImagePreparationError::ImageProcessing(error),
                )
                &&& *final(image_url) == *old(image_url)
                &&& *final(detail) == *old(detail)
            },
        },
{
    match outcome {
        Ok(image) => {
            *image_url = image.into_data_url();
            *detail = None;
            Ok(())
        },
        Err(error) => Err(ResponsesCodexStrictImagePreparationError::ImageProcessing(error)),
    }
}

/// Whether an image was loaded, and became `new_url` with `new_detail`.
pub open spec fn image_loaded<E, F: Fn(&str, PromptImageMode) -> Result<LoadedImage, E>>(
    load: F,
    image_url: Seq<char>,
    detail: Option<ImageDetail>,
    new_url: Seq<char>,
    new_detail: Option<ImageDetail>,
) -> bool {
    &&& is_data_url(image_url)
    &&& loading_mode(detail) is Some
    &&& exists|outcome: Result<LoadedImage, E>|
        {
            &&& #[trigger] loads(load, image_url, loading_mode(detail)->Some_0, outcome)
            &&& outcome is Ok
            &&& new_url == outcome->Ok_0.data_url()
        }
    &&& new_detail is None
}

/// Whether an image could not be loaded, and `error` says why.
pub open spec fn image_not_loaded<E, F: Fn(&str, PromptImageMode) -> Result<LoadedImage, E>>(
    load: F,
    image_url: Seq<char>,
    detail: Option<ImageDetail>,
    error: ResponsesCodexStrictImagePreparationError<E>,
) -> bool {
    match error {
        ResponsesCodexStrictImagePreparationError::ImageProcessing(cause) => {
            &&& is_data_url(image_url)
            &&& loading_mode(detail) is Some
            &&& loads(load, image_url, loading_mode(detail)->Some_0, Err(cause))
        },
        _ => refuses(image_url, detail, error),
    }
}

/// Loads one image and puts it in its place, without a detail.
pub fn prepare_image_url_for_responses_codex_strict_mode<
    E,
    F: Fn(&str, PromptImageMode) -> Result<LoadedImage, E>,
>(image_url: &mut String, detail: &mut Option<ImageDetail>, load: &F) -> (done: Result<
    (),
    ResponsesCodexStrictImagePreparationError<E>,
>)
    requires
        forall|asked: &str, loading: PromptImageMode| call_requires(*load, (asked, loading)),
    ensures
        match done {
            Ok(()) => image_loaded(
                *load,
                old(image_url)@,
                *old(detail),
                final(image_url)@,
                *final(detail),
            ),
            Err(error) => {
                &&& image_not_loaded(*load, old(image_url)@, *old(detail), error)
                &&& *final(image_url) == *old(image_url)
                &&& *final(detail) == *old(detail)
            },
        },
{
    let loading = plan_image(image_url.as_str(), *detail)?;
    let outcome = load(image_url.as_str(), loading);
    assert(loads(*load, image_url@, loading_mode(*detail)->Some_0, outcome));
    finish_image(image_url, detail, outcome)
}

/// Whether an image was made ready or passed over, and became `new_url` with `new_detail`.
pub open spec fn image_prepared<E, F: Fn(&str, PromptImageMode) -> Result<LoadedImage, E>>(
    load: F,
    mode: PreparationMode,
    image_url: String,
    detail: Option<ImageDetail>,
    new_url: String,
    new_detail: Option<ImageDetail>,
) -> bool {
    if passed_over(mode, image_url@, detail) {
        new_url == image_url && new_detail == detail
    } else {
        image_loaded(load, image_url@, detail, new_url@, new_detail)
    }
}

/// Whether an image could not be made ready, and `error` says why.
pub open spec fn image_refused<E, F: Fn(&str, PromptImageMode) -> Result<LoadedImage, E>>(
    load: F,
    mode: PreparationMode,
    image_url: Seq<char>,
    detail: Option<ImageDetail>,
    error: ResponsesCodexStrictImagePreparationError<E>,
) -> bool {
    !passed_over(mode, image_url, detail) && image_not_loaded(load, image_url, detail, error)
}

/// Makes one image ready, unless `mode` passes it over.
pub fn prepare_image_url_if_needed<E, F: Fn(&str, PromptImageMode) -> Result<LoadedImage, E>>(
    image_url: &mut String,
    detail: &mut Option<ImageDetail>,
    mode: PreparationMode,
    load: &F,
) -> (done: Result<(), ResponsesCodexStrictImagePreparationError<E>>)
    requires
        forall|asked: &str, loading: PromptImageMode| call_requires(*load, (asked, loading)),
    ensures
        match done {
            Ok(()) => image_prepared(
                *load,
                mode,
                *old(image_url),
                *old(detail),
                *final(image_url),
                *final(detail),
            ),
            Err(error) => {
                &&& image_refused(*load, mode, old(image_url)@, *old(detail), error)
                &&& *final(image_url) == *old(image_url)
                &&& *final(detail) == *old(detail)
            },
        },
{
    if mode == PreparationMode::UnpreparedImagesOnly && detail.is_none() && starts_with(
        image_url.as_str(),
        "data:",
    ) {
        return Ok(());
    }
    prepare_image_url_for_responses_codex_strict_mode(image_url, detail, load)
}

/// Whether a part of a message was made ready: an image as `mode` asks, anything else unchanged.
pub open spec fn content_prepared<E, F: Fn(&str, PromptImageMode) -> Result<LoadedImage, E>>(
    load: F,
    mode: PreparationMode,
    before: ContentItem,
    after: ContentItem,
) -> bool {
    match before {
        ContentItem::InputImage { image_url, detail } => match after {
            ContentItem::InputImage { image_url: new_url, detail: new_detail } => image_prepared(
                load,
                mode,
                image_url,
                detail,
                new_url,
                new_detail,
            ),
            _ => false,
        },
        _ => after == before,
    }
}

/// Whether a part of a message is an image that could not be made ready.
pub open spec fn content_refused<E, F: Fn(&str, PromptImageMode) -> Result<LoadedImage, E>>(
    load: F,
    mode: PreparationMode,
    item: ContentItem,
    error: ResponsesCodexStrictImagePreparationError<E>,
) -> bool {
    match item {
        ContentItem::InputImage { image_url, detail } => image_refused(
            load,
            mode,
            image_url@,
            detail,
            error,
        ),
        _ => false,
    }
}

/// Whether the first `count` parts of a message were made ready and the others left alone.
pub open spec fn contents_prepared<E, F: Fn(&str, PromptImageMode) -> Result<LoadedImage, E>>(
    load: F,
    mode: PreparationMode,
    before: Seq<ContentItem>,
    after: Seq<ContentItem>,
    count: int,
) -> bool {
    &&& after.len() == before.len()
    &&& forall|i: int|
        0 <= i < count ==> content_prepared(load, mode, before[i], #[trigger] after[i])
    &&& forall|i: int| count <= i < before.len() ==> #[trigger] after[i] == before[i]
}

/// Whether the parts of a message were made ready up to one that was refused.
pub open spec fn contents_refused<E, F: Fn(&str, PromptImageMode) -> Result<LoadedImage, E>>(
    load: F,
    mode: PreparationMode,
    before: Seq<ContentItem>,
    after: Seq<ContentItem>,
    error: ResponsesCodexStrictImagePreparationError<E>,
) -> bool {
    exists|at: int|
        {
            &&& 0 <= at < before.len()
            &&& contents_prepared(load, mode, before, after, at)
            &&& content_refused(load, mode, #[trigger] before[at], error)
        }
}

/// Makes the images of a message ready, up to the first that is refused.
pub fn prepare_content_items<E, F: Fn(&str, PromptImageMode) -> Result<LoadedImage, E>>(
    items: &mut [ContentItem],
    mode: PreparationMode,
    load: &F,
) -> (done: Result<(), ResponsesCodexStrictImagePreparationError<E>>)
    requires
        forall|asked: &str, loading: PromptImageMode| call_requires(*load, (asked, loading)),
    ensures
        match done {
            Ok(()) => contents_prepared(
                *load,
                mode,
                old(items)@,
                final(items)@,
                old(items)@.len() as int,
            ),
            Err(error) => contents_refused(*load, mode, old(items)@, final(items)@, error),
        },
{
    let mut i: usize = 0;
    while i < items.len()
        invariant
            i <= items@.len(),
            contents_prepared(*load, mode, old(items)@, items@, i as int),
            forall|asked: &str, loading: PromptImageMode| call_requires(*load, (asked, loading)),
        decreases items@.len() - i,
    {
        if let ContentItem::InputImage { image_url, detail } = &mut items[i] {
            prepare_image_url_if_needed(image_url, detail, mode, load)?;
        }
        i += 1;
    }
    Ok(())
}

/// Whether a part of a tool's output was made ready: an image as `mode` asks, anything else
/// unchanged.
pub open spec fn output_part_prepared<E, F: Fn(&str, PromptImageMode) -> Result<LoadedImage, E>>(
    load: F,
    mode: PreparationMode,
    before: FunctionCallOutputContentItem,
    after: FunctionCallOutputContentItem,
) -> bool {
    match before {
        FunctionCallOutputContentItem::InputImage { image_url, detail } => match after {
            FunctionCallOutputContentItem::InputImage { image_url: new_url, detail: new_detail } => image_prepared(
                load,
                mode,
                image_url,
                detail,
                new_url,
                new_detail,
            ),
            _ => false,
        },
        _ => after == before,
    }
}

/// Whether a part of a tool's output is an image that could not be made ready.
pub open spec fn output_part_refused<E, F: Fn(&str, PromptImageMode) -> Result<LoadedImage, E>>(
    load: F,
    mode: PreparationMode,
    item: FunctionCallOutputContentItem,
    error: ResponsesCodexStrictImagePreparationError<E>,
) -> bool {
    match item {
        FunctionCallOutputContentItem::InputImage { image_url, detail } => image_refused(
            load,
            mode,
            image_url@,
            detail,
            error,
        ),
        _ => false,
    }
}

/// Whether the first `count` parts of a tool's output were made ready and the others left alone.
pub open spec fn output_parts_prepared<E, F: Fn(&str, PromptImageMode) -> Result<LoadedImage, E>>(
    load: F,
    mode: PreparationMode,
    before: Seq<FunctionCallOutputContentItem>,
    after: Seq<FunctionCallOutputContentItem>,
    count: int,
) -> bool {
    &&& after.len() == before.len()
    &&& forall|i: int|
        0 <= i < count ==> output_part_prepared(load, mode, before[i], #[trigger] after[i])
    &&& forall|i: int| count <= i < before.len() ==> #[trigger] after[i] == before[i]
}

/// Whether the parts of a tool's output were made ready up to one that was refused.
pub open spec fn output_parts_refused<E, F: Fn(&str, PromptImageMode) -> Result<LoadedImage, E>>(
    load: F,
    mode: PreparationMode,
    before: Seq<FunctionCallOutputContentItem>,
    after: Seq<FunctionCallOutputContentItem>,
    error: ResponsesCodexStrictImagePreparationError<E>,
) -> bool {
    exists|at: int|
        {
            &&& 0 <= at < before.len()
            &&& output_parts_prepared(load, mode, before, after, at)
            &&& output_part_refused(load, mode, #[trigger] before[at], error)
        }
}

/// Makes the images in a tool's output ready, up to the first that is refused.
pub fn prepare_function_call_output_content_items<E, F: Fn(&str, PromptImageMode) -> Result<LoadedImage, E>>(
    items: &mut [FunctionCallOutputContentItem],
    mode: PreparationMode,
    load: &F,
) -> (done: Result<(), ResponsesCodexStrictImagePreparationError<E>>)
    requires
        forall|asked: &str, loading: PromptImageMode| call_requires(*load, (asked, loading)),
    ensures
        match done {
            Ok(()) => output_parts_prepared(
                *load,
                mode,
                old(items)@,
                final(items)@,
                old(items)@.len() as int,
            ),
            Err(error) => output_parts_refused(*load, mode, old(items)@, final(items)@, error),
        },
{
    let mut i: usize = 0;
    while i < items.len()
        invariant
            i <= items@.len(),
            output_parts_prepared(*load, mode, old(items)@, items@, i as int),
            forall|asked: &str, loading: PromptImageMode| call_requires(*load, (asked, loading)),
        decreases items@.len() - i,
    {
        if let FunctionCallOutputContentItem::InputImage { image_url, detail } = &mut items[i] {
            prepare_image_url_if_needed(image_url, detail, mode, load)?;
        }
        i += 1;
    }
    Ok(())
}

/// Whether the output of a tool was made ready: its parts, where it has any, and nothing else.
pub open spec fn payload_prepared<E, F: Fn(&str, PromptImageMode) -> Result<LoadedImage, E>>(
    load: F,
    mode: PreparationMode,
    before: FunctionCallOutputPayload,
    after: FunctionCallOutputPayload,
) -> bool {
    &&& after.text == before.text
    &&& match before.content_items {
        Some(items) => after.content_items is Some && output_parts_prepared(
            load,
            mode,
            items@,
            after.content_items->Some_0@,
            items@.len() as int,
        ),
        None => after.content_items is None,
    }
}

/// Whether the output of a tool was made ready up to a part that was refused.
pub open spec fn payload_refused<E, F: Fn(&str, PromptImageMode) -> Result<LoadedImage, E>>(
    load: F,
    mode: PreparationMode,
    before: FunctionCallOutputPayload,
    after: FunctionCallOutputPayload,
    error: ResponsesCodexStrictImagePreparationError<E>,
) -> bool {
    &&& after.text == before.text
    &&& before.content_items is Some
    &&& after.content_items is Some
    &&& output_parts_refused(
        load,
        mode,
        before.content_items->Some_0@,
        after.content_items->Some_0@,
        error,
    )
}

/// Makes the images in the output of a tool ready, up to the first that is refused.
pub fn prepare_payload<E, F: Fn(&str, PromptImageMode) -> Result<LoadedImage, E>>(
    output: &mut FunctionCallOutputPayload,
    mode: PreparationMode,
    load: &F,
) -> (done: Result<(), ResponsesCodexStrictImagePreparationError<E>>)
    requires
        forall|asked: &str, loading: PromptImageMode| call_requires(*load, (asked, loading)),
    ensures
        match done {
            Ok(()) => payload_prepared(*load, mode, *old(output), *final(output)),
            Err(error) => payload_refused(*load, mode, *old(output), *final(output), error),
        },
{
    if let Some(content_items) = &mut output.content_items {
        prepare_function_call_output_content_items(content_items, mode, load)?;
    }
    Ok(())
}

/// Whether an item was made ready: the images in a message or in the output of a tool as `mode`
/// asks, anything else unchanged.
pub open spec fn item_prepared<E, F: Fn(&str, PromptImageMode) -> Result<LoadedImage, E>>(
    load: F,
    mode: PreparationMode,
    before: ResponseItem,
    after: ResponseItem,
) -> bool {
    match before {
        ResponseItem::Message { id, role, content, phase } => {
            &&& after is Message
            &&& after->id == id
            &&& after->role == role
            &&& after->phase == phase
            &&& contents_prepared(
                load,
                mode,
                content@,
                after->content@,
                content@.len() as int,
            )
        },
        ResponseItem::FunctionCallOutput { call_id, output } => {
            &&& after is FunctionCallOutput
            &&& after->FunctionCallOutput_call_id == call_id
            &&& payload_prepared(load, mode, output, after->FunctionCallOutput_output)
        },
        ResponseItem::CustomToolCallOutput { call_id, output } => {
            &&& after is CustomToolCallOutput
            &&& after->CustomToolCallOutput_call_id == call_id
            &&& payload_prepared(load, mode, output, after->CustomToolCallOutput_output)
        },
        _ => after == before,
    }
}

/// Whether an item was made ready up to an image that was refused.
pub open spec fn item_refused<E, F: Fn(&str, PromptImageMode) -> Result<LoadedImage, E>>(
    load: F,
    mode: PreparationMode,
    before: ResponseItem,
    after: ResponseItem,
    error: ResponsesCodexStrictImagePreparationError<E>,
) -> bool {
    match before {
        ResponseItem::Message { id, role, content, phase } => {
            &&& after is Message
            &&& after->id == id
            &&& after->role == role
            &&& after->phase == phase
            &&& contents_refused(load, mode, content@, after->content@, error)
        },
        ResponseItem::FunctionCallOutput { call_id, output } => {
            &&& after is FunctionCallOutput
            &&& after->FunctionCallOutput_call_id == call_id
            &&& payload_refused(load, mode, output, after->FunctionCallOutput_output, error)
        },
        ResponseItem::CustomToolCallOutput { call_id, output } => {
            &&& after is CustomToolCallOutput
            &&& after->CustomToolCallOutput_call_id == call_id
            &&& payload_refused(load, mode, output, after->CustomToolCallOutput_output, error)
        },
        _ => false,
    }
}

/// Makes the images of an item ready, up to the first that is refused.
pub fn prepare_response_item<E, F: Fn(&str, PromptImageMode) -> Result<LoadedImage, E>>(
    item: &mut ResponseItem,
    mode: PreparationMode,
    load: &F,
) -> (done: Result<(), ResponsesCodexStrictImagePreparationError<E>>)
    requires
        forall|asked: &str, loading: PromptImageMode| call_requires(*load, (asked, loading)),
    ensures
        match done {
            Ok(()) => item_prepared(*load, mode, *old(item), *final(item)),
            Err(error) => item_refused(*load, mode, *old(item), *final(item), error),
        },
{
    match item {
        ResponseItem::Message { content, .. } => prepare_content_items(content, mode, load),
        ResponseItem::FunctionCallOutput { output, .. } => prepare_payload(output, mode, load),
        ResponseItem::CustomToolCallOutput { output, .. } => prepare_payload(output, mode, load),
        ResponseItem::Reasoning { .. }
        | ResponseItem::LocalShellCall
        | ResponseItem::FunctionCall { .. }
        | ResponseItem::ToolSearchCall
        | ResponseItem::CustomToolCall
        | ResponseItem::ToolSearchOutput
        | ResponseItem::WebSearchCall
        | ResponseItem::ImageGenerationCall
        | ResponseItem::Compaction
        | ResponseItem::CompactionTrigger
        | ResponseItem::ContextCompaction
        | ResponseItem::Other => Ok(()),
    }
}

/// Whether the first `count` items were made ready and the others from `rest` on left alone.
pub open spec fn items_prepared<E, F: Fn(&str, PromptImageMode) -> Result<LoadedImage, E>>(
    load: F,
    mode: PreparationMode,
    before: Seq<ResponseItem>,
    after: Seq<ResponseItem>,
    count: int,
    rest: int,
) -> bool {
    &&& after.len() == before.len()
    &&& forall|i: int| 0 <= i < count ==> item_prepared(load, mode, before[i], #[trigger] after[i])
    &&& forall|i: int| rest <= i < before.len() ==> #[trigger] after[i] == before[i]
}

/// Whether items were made ready up to an image that was refused.
pub open spec fn items_refused<E, F: Fn(&str, PromptImageMode) -> Result<LoadedImage, E>>(
    load: F,
    mode: PreparationMode,
    before: Seq<ResponseItem>,
    after: Seq<ResponseItem>,
    error: ResponsesCodexStrictImagePreparationError<E>,
) -> bool {
    exists|at: int|
        {
            &&& 0 <= at < before.len()
            &&& items_prepared(load, mode, before, after, at, at + 1)
            &&& item_refused(load, mode, #[trigger] before[at], after[at], error)
        }
}

/// What a preparation of items leaves behind, and what it returns.
pub open spec fn items_settled<E, F: Fn(&str, PromptImageMode) -> Result<LoadedImage, E>>(
    load: F,
    mode: PreparationMode,
    before: Seq<ResponseItem>,
    after: Seq<ResponseItem>,
    done: Result<(), ResponsesCodexStrictImagePreparationError<E>>,
) -> bool {
    match done {
        Ok(()) => items_prepared(
            load,
            mode,
            before,
            after,
            before.len() as int,
            before.len() as int,
        ),
        Err(error) => items_refused(load, mode, before, after, error),
    }
}

/// Makes the images of all items ready, up to the first that is refused.
pub fn prepare_response_items<E, F: Fn(&str, PromptImageMode) -> Result<LoadedImage, E>>(
    items: &mut [ResponseItem],
    mode: PreparationMode,
    load: &F,
) -> (done: Result<(), ResponsesCodexStrictImagePreparationError<E>>)
    requires
        forall|asked: &str, loading: PromptImageMode| call_requires(*load, (asked, loading)),
    ensures
        items_settled(*load, mode, old(items)@, final(items)@, done),
{
    let mut i: usize = 0;
    while i < items.len()
        invariant
            i <= items@.len(),
            items_prepared(*load, mode, old(items)@, items@, i as int, i as int),
            forall|asked: &str, loading: PromptImageMode| call_requires(*load, (asked, loading)),
        decreases items@.len() - i,
    {
        prepare_response_item(&mut items[i], mode, load)?;
        i += 1;
    }
    Ok(())
}

/// Makes all images ready, up to the first that is refused.
pub fn prepare_response_items_for_responses_codex_strict_mode<
    E,
    F: Fn(&str, PromptImageMode) -> Result<LoadedImage, E>,
>(items: &mut [ResponseItem], load: &F) -> (done: Result<
    (),
    ResponsesCodexStrictImagePreparationError<E>,
>)
    requires
        forall|asked: &str, loading: PromptImageMode| call_requires(*load, (asked, loading)),
    ensures
        items_settled(*load, PreparationMode::AllImages, old(items)@, final(items)@, done),
{
    prepare_response_items(items, PreparationMode::AllImages, load)
}

/// Makes the images ready that have not been made ready before, up to the first that is refused.
pub fn prepare_response_items_for_responses_codex_strict_mode_request_fallback<
    E,
    F: Fn(&str, PromptImageMode) -> Result<LoadedImage, E>,
>(items: &mut [ResponseItem], load: &F) -> (done: Result<
    (),
    ResponsesCodexStrictImagePreparationError<E>,
>)
    requires
        forall|asked: &str, loading: PromptImageMode| call_requires(*load, (asked, loading)),
    ensures
        items_settled(
            *load,
            PreparationMode::UnpreparedImagesOnly,
            old(items)@,
            final(items)@,
            done,
        ),
{
    prepare_response_items(items, PreparationMode::UnpreparedImagesOnly, load)
}

} // verus!
