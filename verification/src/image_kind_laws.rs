//! What becomes of every image, and why it makes no difference in which kind of item it stands.
use vstd::prelude::*;

use crate::models::{
    ContentItem, FunctionCallOutputContentItem, FunctionCallOutputPayload, ImageDetail,
    ResponseItem,
};
use crate::strict_images::{
    content_prepared, content_refused, contents_prepared, image_loaded, image_refused,
    is_data_url, item_prepared, item_refused, items_prepared, items_settled, loading_mode, loads,
    output_part_prepared, output_part_refused, output_parts_prepared, passed_over,
    payload_prepared, payload_refused,
    LoadedImage, PreparationMode, PromptImageMode, ResponsesCodexStrictImagePreparationError,
    PREVIEW_CHARS,
};
use crate::text::first_chars;

verus! {

/// An image: its URL and its detail.
pub struct ImageView {
    pub image_url: Seq<char>,
    pub detail: Option<ImageDetail>,
}

/// The parts of a message, each as the image that it is, if it is one.
pub open spec fn content_slots(items: Seq<ContentItem>) -> Seq<Option<ImageView>> {
    items.map_values(
        |item: ContentItem|
            match item {
                ContentItem::InputImage { image_url, detail } => Some(
                    ImageView { image_url: image_url@, detail },
                ),
                _ => None,
            },
    )
}

/// The parts of a tool's output, each as the image that it is, if it is one.
pub open spec fn output_slots(items: Seq<FunctionCallOutputContentItem>) -> Seq<
    Option<ImageView>,
> {
    items.map_values(
        |item: FunctionCallOutputContentItem|
            match item {
                FunctionCallOutputContentItem::InputImage { image_url, detail } => Some(
                    ImageView { image_url: image_url@, detail },
                ),
                _ => None,
            },
    )
}

/// The parts of an item, each as the image that it is, if it is one.
pub open spec fn item_slots(item: ResponseItem) -> Seq<Option<ImageView>> {
    match item {
        ResponseItem::Message { content, .. } => content_slots(content@),
        ResponseItem::FunctionCallOutput { output, .. } => payload_slots(output),
        ResponseItem::CustomToolCallOutput { output, .. } => payload_slots(output),
        _ => Seq::empty(),
    }
}

/// The parts of the output of a tool, each as the image that it is, if it is one.
pub open spec fn payload_slots(output: FunctionCallOutputPayload) -> Seq<Option<ImageView>> {
    match output.content_items {
        Some(items) => output_slots(items@),
        None => Seq::empty(),
    }
}

/// The images among parts, in their order.
pub open spec fn images_among(slots: Seq<Option<ImageView>>) -> Seq<ImageView>
    decreases slots.len(),
{
    if slots.len() == 0 {
        Seq::empty()
    } else {
        match slots.last() {
            Some(image) => images_among(slots.drop_last()).push(image),
            None => images_among(slots.drop_last()),
        }
    }
}

/// The images in an item, in their order.
pub open spec fn images_in(item: ResponseItem) -> Seq<ImageView> {
    images_among(item_slots(item))
}

/// What the preparation of an item leaves behind, and what it returns.
pub open spec fn item_settled<E, F: Fn(&str, PromptImageMode) -> Result<LoadedImage, E>>(
    load: F,
    mode: PreparationMode,
    before: ResponseItem,
    after: ResponseItem,
    done: Result<(), ResponsesCodexStrictImagePreparationError<E>>,
) -> bool {
    match done {
        Ok(()) => item_prepared(load, mode, before, after),
        Err(error) => item_refused(load, mode, before, after, error),
    }
}

/// The scheme of a data URL.
pub open spec fn data_scheme() -> Seq<char> {
    seq!['d', 'a', 't', 'a', ':']
}

/// Whether an image has been made ready before: its URL is a data URL and it has no detail.
pub open spec fn made_ready_before(image: ImageView) -> bool {
    data_scheme().is_prefix_of(image.image_url) && image.detail is None
}

/// How an image with a detail other than low is to be loaded: scaled down where the detail is high,
/// and else as it is.
pub open spec fn mode_for(detail: Option<ImageDetail>) -> PromptImageMode {
    if detail == Some(ImageDetail::High) {
        PromptImageMode::ResizeToFit
    } else {
        PromptImageMode::Original
    }
}

/// Whether `outcome` can come back when `load` is asked for `image` in the mode for its detail.
pub open spec fn can_answer<E, F: Fn(&str, PromptImageMode) -> Result<LoadedImage, E>>(
    load: F,
    image: ImageView,
    outcome: Result<LoadedImage, E>,
) -> bool {
    exists|asked: &str|
        asked@ == image.image_url && #[trigger] call_ensures(
            load,
            (asked, mode_for(image.detail)),
            outcome,
        )
}

/// Whether `mode` and the image leave it to the one who loads images what becomes of the image.
pub open spec fn is_asked_for(mode: PreparationMode, image: ImageView) -> bool {
    &&& !(mode == PreparationMode::UnpreparedImagesOnly && made_ready_before(image))
    &&& data_scheme().is_prefix_of(image.image_url)
    &&& image.detail != Some(ImageDetail::Low)
}

/// The words in which a preparation is described, in terms of an image alone: a data URL begins
/// with the scheme, only an image that was made ready before is passed over, and that only where
/// such images are left out, only a low detail keeps an image from being loaded, and of a refused
/// URL 128 characters are shown.
pub proof fn words_mean_what_they_say<E, F: Fn(&str, PromptImageMode) -> Result<LoadedImage, E>>(
    load: F,
    mode: PreparationMode,
    image: ImageView,
)
    ensures
        is_data_url(image.image_url) == data_scheme().is_prefix_of(image.image_url),
        passed_over(mode, image.image_url, image.detail) == (mode
            == PreparationMode::UnpreparedImagesOnly && made_ready_before(image)),
        loading_mode(image.detail) == (if image.detail == Some(ImageDetail::Low) {
            None
        } else {
            Some(mode_for(image.detail))
        }),
        image.detail != Some(ImageDetail::Low) ==> forall|outcome: Result<LoadedImage, E>|
            #[trigger] loads(load, image.image_url, loading_mode(image.detail)->Some_0, outcome)
                == can_answer(load, image, outcome),
        forall|loaded: LoadedImage| #[trigger] loaded.data_url() == data_scheme()
            + loaded.after_scheme@,
        first_chars(image.image_url, PREVIEW_CHARS as int) == (if image.image_url.len() <= 128 {
            image.image_url
        } else {
            image.image_url.take(128)
        }),
{
    reveal_strlit("data:");
    assert("data:"@ =~= data_scheme());
}

/// Whether `load` has one answer for `image`, however often it is asked: one data URL, or one
/// error.
pub open spec fn has_one_answer<E, F: Fn(&str, PromptImageMode) -> Result<LoadedImage, E>>(
    load: F,
    image: ImageView,
) -> bool {
    forall|one: Result<LoadedImage, E>, other: Result<LoadedImage, E>|
        #[trigger] can_answer(load, image, one) && #[trigger] can_answer(load, image, other)
            ==> match (one, other) {
            (Ok(one), Ok(other)) => one.after_scheme@ == other.after_scheme@,
            (Err(one), Err(other)) => one == other,
            _ => false,
        }
}

/// Whether `load` has one answer for each of the images that it can be asked for.
pub open spec fn answers_alike<E, F: Fn(&str, PromptImageMode) -> Result<LoadedImage, E>>(
    load: F,
    mode: PreparationMode,
    images: Seq<ImageView>,
) -> bool {
    forall|i: int|
        0 <= i < images.len() && is_asked_for(mode, #[trigger] images[i]) ==> has_one_answer(
            load,
            images[i],
        )
}

/// Why an image is refused: an error of a preparation, with a URL as its characters.
pub enum RefusalView<E> {
    UnsupportedLowDetail,
    NonDataUrl { image_url_preview: Seq<char> },
    ImageProcessing(E),
}

/// What a preparation returns: nothing, or why an image is refused.
pub open spec fn refusal_in<E>(
    done: Result<(), ResponsesCodexStrictImagePreparationError<E>>,
) -> Option<RefusalView<E>> {
    match done {
        Ok(()) => None,
        Err(ResponsesCodexStrictImagePreparationError::UnsupportedLowDetail) => Some(
            RefusalView::UnsupportedLowDetail,
        ),
        Err(ResponsesCodexStrictImagePreparationError::NonDataUrl { image_url_preview }) => Some(
            RefusalView::NonDataUrl { image_url_preview: image_url_preview@ },
        ),
        Err(ResponsesCodexStrictImagePreparationError::ImageProcessing(cause)) => Some(
            RefusalView::ImageProcessing(cause),
        ),
    }
}

/// What becomes of one image, given the answer for it, which counts only where it is asked for.
pub open spec fn settle_image<E>(
    mode: PreparationMode,
    image: ImageView,
    answer: Result<LoadedImage, E>,
) -> Result<ImageView, RefusalView<E>> {
    if mode == PreparationMode::UnpreparedImagesOnly && made_ready_before(image) {
        Ok(image)
    } else if !data_scheme().is_prefix_of(image.image_url) {
        Err(
            RefusalView::NonDataUrl {
                image_url_preview: if image.image_url.len() <= 128 {
                    image.image_url
                } else {
                    image.image_url.take(128)
                },
            },
        )
    } else if image.detail == Some(ImageDetail::Low) {
        Err(RefusalView::UnsupportedLowDetail)
    } else {
        match answer {
            Ok(loaded) => Ok(
                ImageView { image_url: data_scheme() + loaded.after_scheme@, detail: None },
            ),
            Err(cause) => Err(RefusalView::ImageProcessing(cause)),
        }
    }
}

/// What becomes of images, given an answer for each, and why one of them is refused, if one is. The
/// refused one and those behind it stay as they are.
pub open spec fn settle_images<E>(
    mode: PreparationMode,
    images: Seq<ImageView>,
    answers: Seq<Result<LoadedImage, E>>,
) -> (Seq<ImageView>, Option<RefusalView<E>>)
    decreases images.len(),
{
    if images.len() == 0 {
        (Seq::empty(), None)
    } else {
        let (settled, refusal) = settle_images(mode, images.drop_last(), answers);
        match refusal {
            Some(_) => (settled.push(images.last()), refusal),
            None => match settle_image(mode, images.last(), answers[images.len() - 1]) {
                Ok(image) => (settled.push(image), None),
                Err(refusal) => (settled.push(images.last()), Some(refusal)),
            },
        }
    }
}

/// Whether `given` holds answers of `load`: one for each image that is asked for. Behind a refused
/// image none is.
pub open spec fn are_answers<E, F: Fn(&str, PromptImageMode) -> Result<LoadedImage, E>>(
    load: F,
    mode: PreparationMode,
    images: Seq<ImageView>,
    given: Seq<Result<LoadedImage, E>>,
) -> bool {
    &&& given.len() == images.len()
    &&& forall|i: int|
        0 <= i < images.len() && is_asked_for(mode, images[i]) && settle_images(
            mode,
            images.take(i),
            given,
        ).1 is None ==> can_answer(load, images[i], #[trigger] given[i])
}

/// Whether an image was made ready or passed over.
spec fn made<E, F: Fn(&str, PromptImageMode) -> Result<LoadedImage, E>>(
    load: F,
    mode: PreparationMode,
    before: ImageView,
    after: ImageView,
) -> bool {
    if passed_over(mode, before.image_url, before.detail) {
        after == before
    } else {
        image_loaded(load, before.image_url, before.detail, after.image_url, after.detail)
    }
}

/// Whether the first `count` images were made ready and the others left alone.
spec fn images_made<E, F: Fn(&str, PromptImageMode) -> Result<LoadedImage, E>>(
    load: F,
    mode: PreparationMode,
    before: Seq<ImageView>,
    after: Seq<ImageView>,
    count: int,
) -> bool {
    &&& after.len() == before.len()
    &&& forall|i: int| 0 <= i < count ==> made(load, mode, before[i], #[trigger] after[i])
    &&& forall|i: int| count <= i < before.len() ==> #[trigger] after[i] == before[i]
}

/// What a preparation does to images, and what it returns.
spec fn images_settled<E, F: Fn(&str, PromptImageMode) -> Result<LoadedImage, E>>(
    load: F,
    mode: PreparationMode,
    before: Seq<ImageView>,
    after: Seq<ImageView>,
    done: Result<(), ResponsesCodexStrictImagePreparationError<E>>,
) -> bool {
    match done {
        Ok(()) => images_made(load, mode, before, after, before.len() as int),
        Err(error) => exists|at: int|
            {
                &&& 0 <= at < before.len()
                &&& images_made(load, mode, before, after, at)
                &&& image_refused(
                    load,
                    mode,
                    (#[trigger] before[at]).image_url,
                    before[at].detail,
                    error,
                )
            },
    }
}

/// Whether the images among the first `count` parts were made ready and the other parts left
/// alone.
spec fn slots_made<E, F: Fn(&str, PromptImageMode) -> Result<LoadedImage, E>>(
    load: F,
    mode: PreparationMode,
    before: Seq<Option<ImageView>>,
    after: Seq<Option<ImageView>>,
    count: int,
) -> bool {
    &&& after.len() == before.len()
    &&& forall|i: int|
        0 <= i < count ==> match (before[i], #[trigger] after[i]) {
            (Some(image), Some(new_image)) => made(load, mode, image, new_image),
            (None, None) => true,
            _ => false,
        }
    &&& forall|i: int| count <= i < before.len() ==> #[trigger] after[i] == before[i]
}

/// What a preparation does to parts, and what it returns.
spec fn slots_settled<E, F: Fn(&str, PromptImageMode) -> Result<LoadedImage, E>>(
    load: F,
    mode: PreparationMode,
    before: Seq<Option<ImageView>>,
    after: Seq<Option<ImageView>>,
    done: Result<(), ResponsesCodexStrictImagePreparationError<E>>,
) -> bool {
    match done {
        Ok(()) => slots_made(load, mode, before, after, before.len() as int),
        Err(error) => exists|at: int|
            {
                &&& 0 <= at < before.len()
                &&& slots_made(load, mode, before, after, at)
                &&& (#[trigger] before[at]) is Some
                &&& image_refused(
                    load,
                    mode,
                    before[at]->Some_0.image_url,
                    before[at]->Some_0.detail,
                    error,
                )
            },
    }
}

/// The images among the parts of two lists are those among the one, then those among the other.
proof fn images_among_both(one: Seq<Option<ImageView>>, other: Seq<Option<ImageView>>)
    ensures
        images_among(one + other) == images_among(one) + images_among(other),
    decreases other.len(),
{
    if other.len() == 0 {
        assert(one + other =~= one);
        assert(images_among(one) + images_among(other) =~= images_among(one));
    } else {
        let both = one + other;
        assert(both.drop_last() =~= one + other.drop_last());
        images_among_both(one, other.drop_last());
        assert(both.last() == other.last());
        assert(images_among(both) =~= images_among(one) + images_among(other));
    }
}

/// Where every part was made ready, every image among the parts was.
proof fn made_parts_are_made_images<E, F: Fn(&str, PromptImageMode) -> Result<LoadedImage, E>>(
    load: F,
    mode: PreparationMode,
    before: Seq<Option<ImageView>>,
    after: Seq<Option<ImageView>>,
)
    requires
        slots_made(load, mode, before, after, before.len() as int),
    ensures
        images_made(
            load,
            mode,
            images_among(before),
            images_among(after),
            images_among(before).len() as int,
        ),
    decreases before.len(),
{
    if before.len() > 0 {
        let last = before.len() - 1;
        assert(after[last] == after.last());
        assert forall|i: int| 0 <= i < last implies match (
            before.drop_last()[i],
            #[trigger] after.drop_last()[i],
        ) {
            (Some(image), Some(new_image)) => made(load, mode, image, new_image),
            (None, None) => true,
            _ => false,
        } by {
            assert(after[i] == after.drop_last()[i]);
        }
        made_parts_are_made_images(load, mode, before.drop_last(), after.drop_last());
    }
}

/// What a preparation does to parts it does to the images among them.
proof fn settled_parts_are_settled_images<
    E,
    F: Fn(&str, PromptImageMode) -> Result<LoadedImage, E>,
>(
    load: F,
    mode: PreparationMode,
    before: Seq<Option<ImageView>>,
    after: Seq<Option<ImageView>>,
    done: Result<(), ResponsesCodexStrictImagePreparationError<E>>,
)
    requires
        slots_settled(load, mode, before, after, done),
    ensures
        images_settled(load, mode, images_among(before), images_among(after), done),
{
    match done {
        Ok(()) => {
            made_parts_are_made_images(load, mode, before, after);
        },
        Err(error) => {
            let at = choose|at: int|
                {
                    &&& 0 <= at < before.len()
                    &&& slots_made(load, mode, before, after, at)
                    &&& (#[trigger] before[at]) is Some
                    &&& image_refused(
                        load,
                        mode,
                        before[at]->Some_0.image_url,
                        before[at]->Some_0.detail,
                        error,
                    )
                };
            let done_before = before.take(at);
            let done_after = after.take(at);
            assert forall|i: int| 0 <= i < at implies match (
                done_before[i],
                #[trigger] done_after[i],
            ) {
                (Some(image), Some(new_image)) => made(load, mode, image, new_image),
                (None, None) => true,
                _ => false,
            } by {
                assert(after[i] == done_after[i]);
            }
            made_parts_are_made_images(load, mode, done_before, done_after);
            let rest = before.skip(at);
            assert(after.skip(at) =~= rest) by {
                assert forall|i: int| 0 <= i < rest.len() implies after.skip(at)[i] == rest[i] by {
                    assert(after[at + i] == before[at + i]);
                }
            }
            assert(before =~= done_before + rest);
            assert(after =~= done_after + rest);
            images_among_both(done_before, rest);
            images_among_both(done_after, rest);
            let refused = seq![before[at]];
            assert(rest =~= refused + before.skip(at + 1));
            images_among_both(refused, before.skip(at + 1));
            assert(refused.drop_last() =~= Seq::empty());
            assert(images_among(refused.drop_last()) == Seq::<ImageView>::empty());
            assert(images_among(refused) =~= seq![before[at]->Some_0]);
            let images = images_among(before);
            let count = images_among(done_before).len() as int;
            assert(images[count] == before[at]->Some_0);
            assert(images_made(load, mode, images, images_among(after), count));
        },
    }
}

/// What the preparation of an item does, it does to its parts.
proof fn settled_item_has_settled_parts<
    E,
    F: Fn(&str, PromptImageMode) -> Result<LoadedImage, E>,
>(
    load: F,
    mode: PreparationMode,
    before: ResponseItem,
    after: ResponseItem,
    done: Result<(), ResponsesCodexStrictImagePreparationError<E>>,
)
    requires
        item_settled(load, mode, before, after, done),
    ensures
        slots_settled(load, mode, item_slots(before), item_slots(after), done),
{
    match before {
        ResponseItem::Message { content, .. } => {
            let parts = content@;
            let new_parts = after->content@;
            let count = match done {
                Ok(()) => parts.len() as int,
                Err(error) => choose|at: int|
                    {
                        &&& 0 <= at < parts.len()
                        &&& contents_prepared(load, mode, parts, new_parts, at)
                        &&& content_refused(load, mode, #[trigger] parts[at], error)
                    },
            };
            assert forall|i: int| 0 <= i < count implies match (
                content_slots(parts)[i],
                #[trigger] content_slots(new_parts)[i],
            ) {
                (Some(image), Some(new_image)) => made(load, mode, image, new_image),
                (None, None) => true,
                _ => false,
            } by {
                assert(content_prepared(load, mode, parts[i], new_parts[i]));
            }
            assert(slots_made(load, mode, content_slots(parts), content_slots(new_parts), count));
            if done is Err {
                assert(content_slots(parts)[count] is Some);
            }
        },
        ResponseItem::FunctionCallOutput { output, .. } => {
            settled_payload_has_settled_parts(
                load,
                mode,
                output,
                after->FunctionCallOutput_output,
                done,
            );
        },
        ResponseItem::CustomToolCallOutput { output, .. } => {
            settled_payload_has_settled_parts(
                load,
                mode,
                output,
                after->CustomToolCallOutput_output,
                done,
            );
        },
        _ => {},
    }
}

proof fn settled_payload_has_settled_parts<
    E,
    F: Fn(&str, PromptImageMode) -> Result<LoadedImage, E>,
>(
    load: F,
    mode: PreparationMode,
    before: FunctionCallOutputPayload,
    after: FunctionCallOutputPayload,
    done: Result<(), ResponsesCodexStrictImagePreparationError<E>>,
)
    requires
        match done {
            Ok(()) => payload_prepared(load, mode, before, after),
            Err(error) => payload_refused(load, mode, before, after, error),
        },
    ensures
        slots_settled(load, mode, payload_slots(before), payload_slots(after), done),
{
    if let Some(items) = before.content_items {
        let parts = items@;
        let new_parts = after.content_items->Some_0@;
        let count = match done {
            Ok(()) => parts.len() as int,
            Err(error) => choose|at: int|
                {
                    &&& 0 <= at < parts.len()
                    &&& output_parts_prepared(load, mode, parts, new_parts, at)
                    &&& output_part_refused(load, mode, #[trigger] parts[at], error)
                },
        };
        assert forall|i: int| 0 <= i < count implies match (
            output_slots(parts)[i],
            #[trigger] output_slots(new_parts)[i],
        ) {
            (Some(image), Some(new_image)) => made(load, mode, image, new_image),
            (None, None) => true,
            _ => false,
        } by {
            assert(output_part_prepared(load, mode, parts[i], new_parts[i]));
        }
        assert(slots_made(load, mode, output_slots(parts), output_slots(new_parts), count));
        if done is Err {
            assert(output_slots(parts)[count] is Some);
        }
    }
}

/// An image cannot be made ready where it is refused, by a `load` that has one answer for it.
proof fn made_or_refused<E, F: Fn(&str, PromptImageMode) -> Result<LoadedImage, E>>(
    load: F,
    mode: PreparationMode,
    before: ImageView,
    after: ImageView,
    error: ResponsesCodexStrictImagePreparationError<E>,
)
    requires
        is_asked_for(mode, before) ==> has_one_answer(load, before),
    ensures
        !(made(load, mode, before, after) && image_refused(
            load,
            mode,
            before.image_url,
            before.detail,
            error,
        )),
{
    words_mean_what_they_say(load, mode, before);
}

/// Two preparations of the same images return the same and leave the same, where `load` answers
/// alike.
proof fn same_images_settle_alike<E, F: Fn(&str, PromptImageMode) -> Result<LoadedImage, E>>(
    load: F,
    mode: PreparationMode,
    before: Seq<ImageView>,
    one: Seq<ImageView>,
    one_done: Result<(), ResponsesCodexStrictImagePreparationError<E>>,
    other: Seq<ImageView>,
    other_done: Result<(), ResponsesCodexStrictImagePreparationError<E>>,
)
    requires
        answers_alike(load, mode, before),
        images_settled(load, mode, before, one, one_done),
        images_settled(load, mode, before, other, other_done),
    ensures
        refusal_in(one_done) == refusal_in(other_done),
        one == other,
{
    let one_at = stopped_at(load, mode, before, one, one_done);
    let other_at = stopped_at(load, mode, before, other, other_done);
    if one_at < other_at {
        made_or_refused(load, mode, before[one_at], other[one_at], one_done->Err_0);
    }
    if other_at < one_at {
        made_or_refused(load, mode, before[other_at], one[other_at], other_done->Err_0);
    }
    if one_at < before.len() {
        words_mean_what_they_say(load, mode, before[one_at]);
    }
    assert forall|i: int| 0 <= i < before.len() implies one[i] == other[i] by {
        words_mean_what_they_say(load, mode, before[i]);
        if i < one_at {
            assert(made(load, mode, before[i], one[i]));
            assert(made(load, mode, before[i], other[i]));
        }
    }
    assert(one =~= other);
}

/// Where a preparation of images stopped: at the one that was refused, or behind the last.
proof fn stopped_at<E, F: Fn(&str, PromptImageMode) -> Result<LoadedImage, E>>(
    load: F,
    mode: PreparationMode,
    before: Seq<ImageView>,
    after: Seq<ImageView>,
    done: Result<(), ResponsesCodexStrictImagePreparationError<E>>,
) -> (at: int)
    requires
        images_settled(load, mode, before, after, done),
    ensures
        0 <= at <= before.len(),
        images_made(load, mode, before, after, at),
        at == before.len() <==> done is Ok,
        done is Err ==> image_refused(
            load,
            mode,
            before[at].image_url,
            before[at].detail,
            done->Err_0,
        ),
{
    match done {
        Ok(()) => before.len() as int,
        Err(error) => choose|at: int|
            {
                &&& 0 <= at < before.len()
                &&& images_made(load, mode, before, after, at)
                &&& image_refused(
                    load,
                    mode,
                    (#[trigger] before[at]).image_url,
                    before[at].detail,
                    error,
                )
            },
    }
}

/// Where the first `at` images were settled by the answers for them, the next was refused, if there
/// was one, and the others were left alone, `settle_images` says so.
proof fn settled_images_follow_the_answers<E>(
    mode: PreparationMode,
    before: Seq<ImageView>,
    after: Seq<ImageView>,
    done: Result<(), ResponsesCodexStrictImagePreparationError<E>>,
    answers: Seq<Result<LoadedImage, E>>,
    at: int,
    count: int,
)
    requires
        0 <= count <= before.len(),
        0 <= at <= before.len(),
        at == before.len() <==> done is Ok,
        after.len() == before.len(),
        forall|i: int| at <= i < before.len() ==> #[trigger] after[i] == before[i],
        forall|i: int|
            0 <= i < at ==> settle_image(mode, before[i], #[trigger] answers[i]) == Ok::<
                _,
                RefusalView<E>,
            >(after[i]),
        done is Err ==> settle_image(mode, before[at], answers[at]) == Err::<ImageView, _>(
            refusal_in(done)->Some_0,
        ),
    ensures
        settle_images(mode, before.take(count), answers) == (
            after.take(count),
            if count <= at {
                None
            } else {
                refusal_in(done)
            },
        ),
    decreases count,
{
    if count > 0 {
        settled_images_follow_the_answers(mode, before, after, done, answers, at, count - 1);
        let last = count - 1;
        assert(before.take(count).drop_last() =~= before.take(last));
        assert(after.take(count) =~= after.take(last).push(after[last]));
        if last < at {
            assert(settle_image(mode, before[last], answers[last]) is Ok);
        }
    } else {
        assert(after.take(0) =~= Seq::empty());
    }
}

/// The answer that a preparation failed with, where one did.
spec fn failed_answer<E>(
    done: Result<(), ResponsesCodexStrictImagePreparationError<E>>,
) -> Option<Result<LoadedImage, E>> {
    match done {
        Err(ResponsesCodexStrictImagePreparationError::ImageProcessing(cause)) => Some(Err(cause)),
        _ => None,
    }
}

/// Every kind of item follows one rule: what becomes of its images, and what the preparation
/// returns, is what `settle_images` says, given the images alone and the answers of the one who
/// loads them. Neither the kind of the item enters into it nor anything else that it holds.
pub proof fn every_kind_of_item_follows_one_rule<
    E,
    F: Fn(&str, PromptImageMode) -> Result<LoadedImage, E>,
>(
    load: F,
    mode: PreparationMode,
    before: ResponseItem,
    after: ResponseItem,
    done: Result<(), ResponsesCodexStrictImagePreparationError<E>>,
) -> (answers: Seq<Result<LoadedImage, E>>)
    requires
        item_settled(load, mode, before, after, done),
    ensures
        are_answers(load, mode, images_in(before), answers),
        settle_images(mode, images_in(before), answers) == (images_in(after), refusal_in(done)),
{
    settled_item_has_settled_parts(load, mode, before, after, done);
    settled_parts_are_settled_images(load, mode, item_slots(before), item_slots(after), done);
    let images = images_in(before);
    let new_images = images_in(after);
    let at = stopped_at(load, mode, images, new_images, done);
    let answers = Seq::new(
        images.len(),
        |i: int|
            choose|answer: Result<LoadedImage, E>|
                {
                    &&& #[trigger] loads(
                        load,
                        images[i].image_url,
                        loading_mode(images[i].detail)->Some_0,
                        answer,
                    )
                    &&& i < at ==> answer is Ok && new_images[i].image_url
                        == answer->Ok_0.data_url()
                    &&& i == at ==> Some(answer) == failed_answer(done)
                },
    );
    assert forall|i: int| 0 <= i < at implies settle_image(mode, images[i], #[trigger] answers[i])
        == Ok::<_, RefusalView<E>>(new_images[i]) && (is_asked_for(mode, images[i]) ==> loads(
        load,
        images[i].image_url,
        loading_mode(images[i].detail)->Some_0,
        answers[i],
    )) by {
        words_mean_what_they_say(load, mode, images[i]);
        assert(made(load, mode, images[i], new_images[i]));
    }
    if let Err(error) = done {
        words_mean_what_they_say(load, mode, images[at]);
        if let ResponsesCodexStrictImagePreparationError::ImageProcessing(cause) = error {
            assert(loads(
                load,
                images[at].image_url,
                loading_mode(images[at].detail)->Some_0,
                Err(cause),
            ));
        }
    }
    assert forall|i: int| 0 <= i <= images.len() implies settle_images(
        mode,
        #[trigger] images.take(i),
        answers,
    ) == (
        new_images.take(i),
        if i <= at {
            None
        } else {
            refusal_in(done)
        },
    ) by {
        settled_images_follow_the_answers(mode, images, new_images, done, answers, at, i);
    }
    assert(images.take(images.len() as int) =~= images);
    assert(new_images.take(images.len() as int) =~= new_images);
    assert forall|i: int|
        0 <= i < images.len() && is_asked_for(mode, images[i]) && settle_images(
            mode,
            images.take(i),
            answers,
        ).1 is None implies can_answer(load, images[i], #[trigger] answers[i]) by {
        words_mean_what_they_say(load, mode, images[i]);
    }
    answers
}

/// Images fare alike in every kind of item: where a message, the output of a function and that of
/// a custom tool hold the same images in the same order, any two of them are prepared with the same
/// result, be it success or the same error, and hold the same images afterwards. The one who loads
/// images is to have one answer for each of these that it can be asked for.
pub proof fn images_fare_alike_in_every_kind_of_item<
    E,
    F: Fn(&str, PromptImageMode) -> Result<LoadedImage, E>,
>(
    load: F,
    mode: PreparationMode,
    one: ResponseItem,
    one_after: ResponseItem,
    one_done: Result<(), ResponsesCodexStrictImagePreparationError<E>>,
    other: ResponseItem,
    other_after: ResponseItem,
    other_done: Result<(), ResponsesCodexStrictImagePreparationError<E>>,
)
    requires
        images_in(one) == images_in(other),
        answers_alike(load, mode, images_in(one)),
        item_settled(load, mode, one, one_after, one_done),
        item_settled(load, mode, other, other_after, other_done),
    ensures
        refusal_in(one_done) == refusal_in(other_done),
        images_in(one_after) == images_in(other_after),
{
    settled_item_has_settled_parts(load, mode, one, one_after, one_done);
    settled_item_has_settled_parts(load, mode, other, other_after, other_done);
    settled_parts_are_settled_images(load, mode, item_slots(one), item_slots(one_after), one_done);
    settled_parts_are_settled_images(
        load,
        mode,
        item_slots(other),
        item_slots(other_after),
        other_done,
    );
    same_images_settle_alike(
        load,
        mode,
        images_in(one),
        images_in(one_after),
        one_done,
        images_in(other_after),
        other_done,
    );
}

/// Whether two outputs of a tool read the same: text by text and image by image.
pub open spec fn outputs_agree(
    one: FunctionCallOutputPayload,
    other: FunctionCallOutputPayload,
) -> bool {
    &&& one.text == other.text
    &&& one.content_items is Some <==> other.content_items is Some
    &&& payload_slots(one) == payload_slots(other)
    &&& payload_texts(one) == payload_texts(other)
}

/// The parts of the output of a tool, each as the text that it is, if it is one.
pub open spec fn payload_texts(output: FunctionCallOutputPayload) -> Seq<Option<Seq<char>>> {
    match output.content_items {
        Some(items) => items@.map_values(
            |item: FunctionCallOutputContentItem|
                match item {
                    FunctionCallOutputContentItem::InputText { text } => Some(text@),
                    _ => None,
                },
        ),
        None => Seq::empty(),
    }
}

/// A preparation of the output of a tool keeps its texts, and its images in their places.
proof fn preparation_keeps_texts<E, F: Fn(&str, PromptImageMode) -> Result<LoadedImage, E>>(
    load: F,
    mode: PreparationMode,
    before: FunctionCallOutputPayload,
    after: FunctionCallOutputPayload,
    done: Result<(), ResponsesCodexStrictImagePreparationError<E>>,
)
    requires
        match done {
            Ok(()) => payload_prepared(load, mode, before, after),
            Err(error) => payload_refused(load, mode, before, after, error),
        },
    ensures
        after.text == before.text,
        after.content_items is Some <==> before.content_items is Some,
        payload_texts(after) == payload_texts(before),
        payload_slots(after).len() == payload_slots(before).len(),
        forall|i: int|
            0 <= i < payload_slots(before).len() ==> ((#[trigger] payload_slots(after)[i]) is Some
                <==> payload_slots(before)[i] is Some),
{
    if let Some(items) = before.content_items {
        let parts = items@;
        let new_parts = after.content_items->Some_0@;
        assert(payload_texts(after) =~= payload_texts(before)) by {
            assert forall|i: int| 0 <= i < parts.len() implies payload_texts(after)[i]
                == payload_texts(before)[i] by {
                assert(new_parts[i] == parts[i] || output_part_prepared(
                    load,
                    mode,
                    parts[i],
                    new_parts[i],
                ));
            }
        }
    }
}

/// Lists of parts that hold images in the same places, and the same images, are the same.
proof fn same_places_same_images(one: Seq<Option<ImageView>>, other: Seq<Option<ImageView>>)
    requires
        one.len() == other.len(),
        forall|i: int| 0 <= i < one.len() ==> ((#[trigger] one[i]) is Some <==> other[i] is Some),
        images_among(one) == images_among(other),
    ensures
        one == other,
    decreases one.len(),
{
    if one.len() > 0 {
        let last = one.len() - 1;
        assert(one[last] is Some <==> other[last] is Some);
        if one[last] is Some {
            assert(images_among(one).drop_last() =~= images_among(one.drop_last()));
            assert(images_among(other).drop_last() =~= images_among(other.drop_last()));
            assert(images_among(one).last() == one.last()->Some_0);
            assert(images_among(other).last() == other.last()->Some_0);
        }
        assert forall|i: int| 0 <= i < last implies ((#[trigger] one.drop_last()[i]) is Some
            <==> other.drop_last()[i] is Some) by {
            assert(one[i] is Some <==> other[i] is Some);
        }
        same_places_same_images(one.drop_last(), other.drop_last());
        assert(one =~= one.drop_last().push(one.last()));
        assert(other =~= other.drop_last().push(other.last()));
    } else {
        assert(one =~= other);
    }
}

/// The output of a function and that of a custom tool are held to the same rules: where they read
/// the same, they are prepared with the same result and read the same afterwards. The one who loads
/// images is to have one answer for each image in them that it can be asked for.
pub proof fn custom_tool_output_fares_like_function_output<
    E,
    F: Fn(&str, PromptImageMode) -> Result<LoadedImage, E>,
>(
    load: F,
    mode: PreparationMode,
    function: ResponseItem,
    function_after: ResponseItem,
    function_done: Result<(), ResponsesCodexStrictImagePreparationError<E>>,
    custom: ResponseItem,
    custom_after: ResponseItem,
    custom_done: Result<(), ResponsesCodexStrictImagePreparationError<E>>,
)
    requires
        function is FunctionCallOutput,
        custom is CustomToolCallOutput,
        answers_alike(load, mode, images_in(function)),
        outputs_agree(function->FunctionCallOutput_output, custom->CustomToolCallOutput_output),
        item_settled(load, mode, function, function_after, function_done),
        item_settled(load, mode, custom, custom_after, custom_done),
    ensures
        refusal_in(function_done) == refusal_in(custom_done),
        function_after is FunctionCallOutput,
        custom_after is CustomToolCallOutput,
        outputs_agree(
            function_after->FunctionCallOutput_output,
            custom_after->CustomToolCallOutput_output,
        ),
{
    images_fare_alike_in_every_kind_of_item(
        load,
        mode,
        function,
        function_after,
        function_done,
        custom,
        custom_after,
        custom_done,
    );
    let one = function_after->FunctionCallOutput_output;
    let other = custom_after->CustomToolCallOutput_output;
    preparation_keeps_texts(load, mode, function->FunctionCallOutput_output, one, function_done);
    preparation_keeps_texts(load, mode, custom->CustomToolCallOutput_output, other, custom_done);
    assert forall|i: int| 0 <= i < payload_slots(one).len() implies ((#[trigger] payload_slots(
        one,
    )[i]) is Some <==> payload_slots(other)[i] is Some) by {
        assert(payload_slots(other)[i] is Some <==> payload_slots(
            custom->CustomToolCallOutput_output,
        )[i] is Some);
    }
    same_places_same_images(payload_slots(one), payload_slots(other));
}

/// Items are prepared in turn: all of them where the preparation succeeds, and where it fails all
/// ahead of the one that fails, with its error, while those behind it stay as they are.
pub proof fn items_are_prepared_in_turn<
    E,
    F: Fn(&str, PromptImageMode) -> Result<LoadedImage, E>,
>(
    load: F,
    mode: PreparationMode,
    before: Seq<ResponseItem>,
    after: Seq<ResponseItem>,
    done: Result<(), ResponsesCodexStrictImagePreparationError<E>>,
) -> (at: int)
    requires
        items_settled(load, mode, before, after, done),
    ensures
        after.len() == before.len(),
        0 <= at <= before.len(),
        at == before.len() <==> done is Ok,
        forall|i: int|
            0 <= i < at ==> item_settled(load, mode, before[i], #[trigger] after[i], Ok(())),
        done is Err ==> item_settled(load, mode, before[at], after[at], done),
        forall|i: int| at < i < before.len() ==> #[trigger] after[i] == before[i],
{
    match done {
        Ok(()) => before.len() as int,
        Err(error) => choose|at: int|
            {
                &&& 0 <= at < before.len()
                &&& items_prepared(load, mode, before, after, at, at + 1)
                &&& item_refused(load, mode, #[trigger] before[at], after[at], error)
            },
    }
}

/// Whether two items are the same but for the URLs and details of images.
pub open spec fn same_but_for_images(before: ResponseItem, after: ResponseItem) -> bool {
    match before {
        ResponseItem::Message { id, role, content, phase } => {
            &&& after is Message
            &&& after->id == id
            &&& after->role == role
            &&& after->phase == phase
            &&& after->content@.len() == content@.len()
            &&& forall|i: int|
                0 <= i < content@.len() ==> {
                    &&& (#[trigger] after->content@[i]) is InputImage <==> content@[i] is InputImage
                    &&& !(content@[i] is InputImage) ==> after->content@[i] == content@[i]
                }
        },
        ResponseItem::FunctionCallOutput { call_id, output } => {
            &&& after is FunctionCallOutput
            &&& after->FunctionCallOutput_call_id == call_id
            &&& same_output_but_for_images(output, after->FunctionCallOutput_output)
        },
        ResponseItem::CustomToolCallOutput { call_id, output } => {
            &&& after is CustomToolCallOutput
            &&& after->CustomToolCallOutput_call_id == call_id
            &&& same_output_but_for_images(output, after->CustomToolCallOutput_output)
        },
        _ => after == before,
    }
}

/// Whether two outputs of a tool are the same but for the URLs and details of images.
pub open spec fn same_output_but_for_images(
    before: FunctionCallOutputPayload,
    after: FunctionCallOutputPayload,
) -> bool {
    &&& after.text == before.text
    &&& after.content_items is Some <==> before.content_items is Some
    &&& before.content_items is Some ==> {
        let parts = before.content_items->Some_0@;
        let new_parts = after.content_items->Some_0@;
        &&& new_parts.len() == parts.len()
        &&& forall|i: int|
            0 <= i < parts.len() ==> {
                &&& (#[trigger] new_parts[i]) is InputImage <==> parts[i] is InputImage
                &&& !(parts[i] is InputImage) ==> new_parts[i] == parts[i]
            }
    }
}

/// A preparation changes nothing but the URLs and details of images, whether it succeeds or not.
pub proof fn preparation_changes_images_alone<
    E,
    F: Fn(&str, PromptImageMode) -> Result<LoadedImage, E>,
>(
    load: F,
    mode: PreparationMode,
    before: Seq<ResponseItem>,
    after: Seq<ResponseItem>,
    done: Result<(), ResponsesCodexStrictImagePreparationError<E>>,
    at: int,
)
    requires
        items_settled(load, mode, before, after, done),
        0 <= at < before.len(),
    ensures
        after.len() == before.len(),
        same_but_for_images(before[at], after[at]),
{
    let stop = items_are_prepared_in_turn(load, mode, before, after, done);
    if at <= stop {
        let this = if at < stop {
            Ok(())
        } else {
            done
        };
        assert(item_settled(load, mode, before[at], after[at], this));
        match before[at] {
            ResponseItem::Message { content, .. } => {
                let parts = content@;
                let new_parts = after[at]->content@;
                assert forall|i: int| 0 <= i < parts.len() implies {
                    &&& (#[trigger] new_parts[i]) is InputImage <==> parts[i] is InputImage
                    &&& !(parts[i] is InputImage) ==> new_parts[i] == parts[i]
                } by {
                    assert(new_parts[i] == parts[i] || content_prepared(
                        load,
                        mode,
                        parts[i],
                        new_parts[i],
                    ));
                }
            },
            ResponseItem::FunctionCallOutput { output, .. } => {
                prepared_output_is_the_same_but_for_images(
                    load,
                    mode,
                    output,
                    after[at]->FunctionCallOutput_output,
                    this,
                );
            },
            ResponseItem::CustomToolCallOutput { output, .. } => {
                prepared_output_is_the_same_but_for_images(
                    load,
                    mode,
                    output,
                    after[at]->CustomToolCallOutput_output,
                    this,
                );
            },
            _ => {},
        }
    } else {
        assert(after[at] == before[at]);
    }
}

proof fn prepared_output_is_the_same_but_for_images<
    E,
    F: Fn(&str, PromptImageMode) -> Result<LoadedImage, E>,
>(
    load: F,
    mode: PreparationMode,
    before: FunctionCallOutputPayload,
    after: FunctionCallOutputPayload,
    done: Result<(), ResponsesCodexStrictImagePreparationError<E>>,
)
    requires
        match done {
            Ok(()) => payload_prepared(load, mode, before, after),
            Err(error) => payload_refused(load, mode, before, after, error),
        },
    ensures
        same_output_but_for_images(before, after),
{
    if let Some(items) = before.content_items {
        let parts = items@;
        let new_parts = after.content_items->Some_0@;
        assert forall|i: int| 0 <= i < parts.len() implies {
            &&& (#[trigger] new_parts[i]) is InputImage <==> parts[i] is InputImage
            &&& !(parts[i] is InputImage) ==> new_parts[i] == parts[i]
        } by {
            assert(new_parts[i] == parts[i] || output_part_prepared(
                load,
                mode,
                parts[i],
                new_parts[i],
            ));
        }
    }
}

/// Whether an image was settled as an image is where nothing goes wrong. It stays as it is where
/// the preparation is of unprepared images only and it has been made ready before. Any other image
/// is a data URL with a detail other than low, and becomes the data URL of what the loader answers
/// for it, in the mode for its detail, without a detail.
pub open spec fn image_settled<E, F: Fn(&str, PromptImageMode) -> Result<LoadedImage, E>>(
    load: F,
    mode: PreparationMode,
    image: ImageView,
    new_image: ImageView,
) -> bool {
    if mode == PreparationMode::UnpreparedImagesOnly && made_ready_before(image) {
        new_image == image
    } else {
        &&& data_scheme().is_prefix_of(image.image_url)
        &&& image.detail != Some(ImageDetail::Low)
        &&& new_image.detail is None
        &&& exists|asked: &str, loaded: LoadedImage|
            asked@ == image.image_url && #[trigger] call_ensures(
                load,
                (asked, mode_for(image.detail)),
                Ok::<LoadedImage, E>(loaded),
            ) && new_image.image_url == data_scheme() + loaded.after_scheme@
    }
}

proof fn made_images_are_settled<E, F: Fn(&str, PromptImageMode) -> Result<LoadedImage, E>>(
    load: F,
    mode: PreparationMode,
    image: ImageView,
    new_image: ImageView,
)
    requires
        made(load, mode, image, new_image),
    ensures
        image_settled(load, mode, image, new_image),
{
    words_mean_what_they_say(load, mode, image);
    if mode == PreparationMode::AllImages || !made_ready_before(image) {
        let outcome = choose|outcome: Result<LoadedImage, E>|
            {
                &&& #[trigger] loads(
                    load,
                    image.image_url,
                    loading_mode(image.detail)->Some_0,
                    outcome,
                )
                &&& outcome is Ok
                &&& new_image.image_url == outcome->Ok_0.data_url()
            };
        assert(can_answer(load, image, outcome));
        let asked = choose|asked: &str|
            asked@ == image.image_url && #[trigger] call_ensures(
                load,
                (asked, mode_for(image.detail)),
                outcome,
            );
        let loaded = outcome->Ok_0;
        assert(outcome == Ok::<LoadedImage, E>(loaded));
        assert(call_ensures(
            load,
            (asked, mode_for(image.detail)),
            Ok::<LoadedImage, E>(loaded),
        ));
    }
}

/// Where a preparation succeeds, each image is settled as `image_settled` says. In a preparation of
/// all images this means that none is passed over: whatever its URL and its detail, it is loaded.
pub proof fn success_settles_each_image<
    E,
    F: Fn(&str, PromptImageMode) -> Result<LoadedImage, E>,
>(
    load: F,
    mode: PreparationMode,
    before: Seq<ResponseItem>,
    after: Seq<ResponseItem>,
    at: int,
    which: int,
)
    requires
        items_settled(load, mode, before, after, Ok(())),
        0 <= at < before.len(),
        0 <= which < images_in(before[at]).len(),
    ensures
        after.len() == before.len(),
        images_in(after[at]).len() == images_in(before[at]).len(),
        image_settled(load, mode, images_in(before[at])[which], images_in(after[at])[which]),
        mode == PreparationMode::AllImages ==> {
            let image = images_in(before[at])[which];
            let new_image = images_in(after[at])[which];
            exists|asked: &str, loaded: LoadedImage|
                asked@ == image.image_url && #[trigger] call_ensures(
                    load,
                    (asked, mode_for(image.detail)),
                    Ok::<LoadedImage, E>(loaded),
                ) && new_image.image_url == data_scheme() + loaded.after_scheme@
        },
{
    let stop = items_are_prepared_in_turn::<E, F>(load, mode, before, after, Ok(()));
    assert(item_settled::<E, F>(load, mode, before[at], after[at], Ok(())));
    settled_item_has_settled_parts::<E, F>(load, mode, before[at], after[at], Ok(()));
    settled_parts_are_settled_images::<E, F>(
        load,
        mode,
        item_slots(before[at]),
        item_slots(after[at]),
        Ok(()),
    );
    assert(made(load, mode, images_in(before[at])[which], images_in(after[at])[which]));
    made_images_are_settled(
        load,
        mode,
        images_in(before[at])[which],
        images_in(after[at])[which],
    );
}

/// A preparation does not succeed where it comes upon an image that it does not pass over and that
/// is no data URL, has a low detail, or for which the loader has nothing but errors.
pub proof fn bad_image_fails_the_preparation<
    E,
    F: Fn(&str, PromptImageMode) -> Result<LoadedImage, E>,
>(
    load: F,
    mode: PreparationMode,
    before: Seq<ResponseItem>,
    after: Seq<ResponseItem>,
    done: Result<(), ResponsesCodexStrictImagePreparationError<E>>,
    at: int,
    which: int,
)
    requires
        items_settled(load, mode, before, after, done),
        0 <= at < before.len(),
        0 <= which < images_in(before[at]).len(),
        mode == PreparationMode::AllImages || !made_ready_before(images_in(before[at])[which]),
        ({
            let image = images_in(before[at])[which];
            ||| !data_scheme().is_prefix_of(image.image_url)
            ||| image.detail == Some(ImageDetail::Low)
            ||| forall|asked: &str, outcome: Result<LoadedImage, E>|
                asked@ == image.image_url && #[trigger] call_ensures(
                    load,
                    (asked, mode_for(image.detail)),
                    outcome,
                ) ==> outcome is Err
        }),
    ensures
        done is Err,
{
    if done is Ok {
        success_settles_each_image(load, mode, before, after, at, which);
    }
}

/// Where a preparation fails, it fails at one image. Those ahead of it are settled as by a success,
/// it and those behind it stay as they are, and the error says what is wrong with it: that it is no
/// data URL, with the first 128 characters of its URL, or that it has a low detail, or what the
/// loader answered for it.
pub proof fn failure_is_that_of_one_image<
    E,
    F: Fn(&str, PromptImageMode) -> Result<LoadedImage, E>,
>(
    load: F,
    mode: PreparationMode,
    before: Seq<ResponseItem>,
    after: Seq<ResponseItem>,
    error: ResponsesCodexStrictImagePreparationError<E>,
) -> (found: (int, int))
    requires
        items_settled(load, mode, before, after, Err(error)),
    ensures
        after.len() == before.len(),
        0 <= found.0 < before.len(),
        0 <= found.1 < images_in(before[found.0]).len(),
        images_in(after[found.0]).len() == images_in(before[found.0]).len(),
        forall|i: int|
            0 <= i < found.0 ==> items_settled(
                load,
                mode,
                seq![before[i]],
                seq![#[trigger] after[i]],
                Ok(()),
            ),
        forall|i: int| found.0 < i < before.len() ==> #[trigger] after[i] == before[i],
        forall|i: int|
            0 <= i < found.1 ==> image_settled(
                load,
                mode,
                images_in(before[found.0])[i],
                #[trigger] images_in(after[found.0])[i],
            ),
        forall|i: int|
            found.1 <= i < images_in(before[found.0]).len() ==> #[trigger] images_in(
                after[found.0],
            )[i] == images_in(before[found.0])[i],
        ({
            let image = images_in(before[found.0])[found.1];
            &&& mode == PreparationMode::AllImages || !made_ready_before(image)
            &&& match error {
                ResponsesCodexStrictImagePreparationError::NonDataUrl { image_url_preview } => {
                    &&& !data_scheme().is_prefix_of(image.image_url)
                    &&& image_url_preview@.is_prefix_of(image.image_url)
                    &&& image_url_preview@.len() == if image.image_url.len() <= 128 {
                        image.image_url.len()
                    } else {
                        128
                    }
                },
                ResponsesCodexStrictImagePreparationError::UnsupportedLowDetail => {
                    &&& data_scheme().is_prefix_of(image.image_url)
                    &&& image.detail == Some(ImageDetail::Low)
                },
                ResponsesCodexStrictImagePreparationError::ImageProcessing(cause) => {
                    &&& data_scheme().is_prefix_of(image.image_url)
                    &&& image.detail != Some(ImageDetail::Low)
                    &&& exists|asked: &str|
                        asked@ == image.image_url && #[trigger] call_ensures(
                            load,
                            (asked, mode_for(image.detail)),
                            Err::<LoadedImage, E>(cause),
                        )
                },
            }
        }),
{
    let done = Err(error);
    let at = items_are_prepared_in_turn(load, mode, before, after, done);
    assert forall|i: int| 0 <= i < at implies items_settled::<E, F>(
        load,
        mode,
        seq![before[i]],
        seq![#[trigger] after[i]],
        Ok(()),
    ) by {
        assert(item_settled::<E, F>(load, mode, before[i], after[i], Ok(())));
    }
    settled_item_has_settled_parts(load, mode, before[at], after[at], done);
    settled_parts_are_settled_images(
        load,
        mode,
        item_slots(before[at]),
        item_slots(after[at]),
        done,
    );
    let which = stopped_at(load, mode, images_in(before[at]), images_in(after[at]), done);
    let image = images_in(before[at])[which];
    assert forall|i: int| 0 <= i < which implies image_settled(
        load,
        mode,
        images_in(before[at])[i],
        #[trigger] images_in(after[at])[i],
    ) by {
        made_images_are_settled(load, mode, images_in(before[at])[i], images_in(after[at])[i]);
    }
    words_mean_what_they_say(load, mode, image);
    if let ResponsesCodexStrictImagePreparationError::ImageProcessing(cause) = error {
        assert(loads(
            load,
            image.image_url,
            loading_mode(image.detail)->Some_0,
            Err::<LoadedImage, E>(cause),
        ));
        assert(can_answer(load, image, Err::<LoadedImage, E>(cause)));
    }
    (at, which)
}

} // verus!
