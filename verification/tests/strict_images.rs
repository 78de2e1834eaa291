use base64::engine::general_purpose::STANDARD as BASE64_STANDARD;
use base64::Engine;
use session_config::models::{
    ContentItem, FunctionCallOutputContentItem, FunctionCallOutputPayload, ImageDetail,
    ResponseItem,
};
use session_config::strict_images::{
    finish_image, plan_image, prepare_response_items_for_responses_codex_strict_mode,
    prepare_response_items_for_responses_codex_strict_mode_request_fallback, LoadedImage,
    PromptImageMode, ResponsesCodexStrictImagePreparationError,
};

const TINY_PNG_BYTES: &[u8] = &[
    137, 80, 78, 71, 13, 10, 26, 10, 0, 0, 0, 13, 73, 72, 68, 82, 0, 0, 0, 1, 0, 0, 0, 1, 8, 6, 0,
    0, 0, 31, 21, 196, 137, 0, 0, 0, 11, 73, 68, 65, 84, 120, 156, 99, 96, 0, 2, 0, 0, 5, 0, 1,
    122, 94, 171, 63, 0, 0, 0, 0, 73, 69, 78, 68, 174, 66, 96, 130,
];

fn tiny_png_data_url() -> String {
    format!(
        "data:image/png;base64,{}",
        BASE64_STANDARD.encode(TINY_PNG_BYTES)
    )
}

/// Loads a PNG data URL: decodes it and encodes it again.
fn load_png(image_url: &str, _mode: PromptImageMode) -> Result<LoadedImage, String> {
    let payload = image_url
        .strip_prefix("data:image/png;base64,")
        .ok_or_else(|| "no PNG".to_string())?;
    let bytes = BASE64_STANDARD
        .decode(payload)
        .map_err(|err| err.to_string())?;
    Ok(loaded(&format!(
        "image/png;base64,{}",
        BASE64_STANDARD.encode(bytes)
    )))
}

fn loaded(after_scheme: &str) -> LoadedImage {
    LoadedImage {
        after_scheme: after_scheme.to_string(),
    }
}

fn image(image_url: &str, detail: Option<ImageDetail>) -> ContentItem {
    ContentItem::InputImage {
        image_url: image_url.to_string(),
        detail,
    }
}

fn message(content: Vec<ContentItem>) -> ResponseItem {
    ResponseItem::Message {
        id: None,
        role: "user".to_string(),
        content,
        phase: None,
    }
}

#[test]
fn strict_preparation_strips_detail_from_message_images() {
    let mut items = vec![ResponseItem::Message {
        id: None,
        role: "user".to_string(),
        content: vec![ContentItem::InputImage {
            image_url: tiny_png_data_url(),
            detail: Some(ImageDetail::High),
        }],
        phase: None,
    }];

    prepare_response_items_for_responses_codex_strict_mode(&mut items, &load_png)
        .expect("strict image preparation should succeed");

    let ResponseItem::Message { content, .. } = &items[0] else {
        panic!("expected message item");
    };
    let [ContentItem::InputImage { image_url, detail }] = content.as_slice() else {
        panic!("expected one input image");
    };
    assert!(image_url.starts_with("data:image/png;base64,"));
    assert_eq!(*detail, None);
}

#[test]
fn strict_preparation_rejects_http_images() {
    let mut items = vec![ResponseItem::FunctionCallOutput {
        call_id: "call-1".to_string(),
        output: FunctionCallOutputPayload {
            text: None,
            content_items: Some(vec![FunctionCallOutputContentItem::InputImage {
                image_url: "https://example.com/image.png".to_string(),
                detail: Some(ImageDetail::Original),
            }]),
        },
    }];

    let err = prepare_response_items_for_responses_codex_strict_mode(&mut items, &load_png)
        .expect_err("HTTP image URL should fail");

    assert!(matches!(
        err,
        ResponsesCodexStrictImagePreparationError::NonDataUrl { .. }
    ));
}

#[test]
fn strict_preparation_request_fallback_skips_prepared_images() {
    let original_image_url = tiny_png_data_url();
    let mut items = vec![ResponseItem::Message {
        id: None,
        role: "user".to_string(),
        content: vec![ContentItem::InputImage {
            image_url: original_image_url.clone(),
            detail: None,
        }],
        phase: None,
    }];

    prepare_response_items_for_responses_codex_strict_mode_request_fallback(&mut items, &load_png)
        .expect("request fallback should succeed for already-prepared image");

    let ResponseItem::Message { content, .. } = &items[0] else {
        panic!("expected message item");
    };
    let [ContentItem::InputImage { image_url, detail }] = content.as_slice() else {
        panic!("expected one input image");
    };
    assert_eq!(image_url, &original_image_url);
    assert_eq!(*detail, None);
}

#[test]
fn strict_preparation_request_fallback_rejects_http_images_without_detail() {
    let mut items = vec![ResponseItem::Message {
        id: None,
        role: "user".to_string(),
        content: vec![ContentItem::InputImage {
            image_url: "https://example.com/image.png".to_string(),
            detail: None,
        }],
        phase: None,
    }];

    let err = prepare_response_items_for_responses_codex_strict_mode_request_fallback(
        &mut items, &load_png,
    )
    .expect_err("unprepared HTTP image URL should fail even without detail metadata");

    assert!(matches!(
        err,
        ResponsesCodexStrictImagePreparationError::NonDataUrl { .. }
    ));
}

#[test]
fn strict_preparation_rejects_low_detail() {
    let mut items = vec![ResponseItem::Message {
        id: None,
        role: "user".to_string(),
        content: vec![ContentItem::InputImage {
            image_url: tiny_png_data_url(),
            detail: Some(ImageDetail::Low),
        }],
        phase: None,
    }];

    let err = prepare_response_items_for_responses_codex_strict_mode(&mut items, &load_png)
        .expect_err("low detail should fail");

    assert!(matches!(
        err,
        ResponsesCodexStrictImagePreparationError::UnsupportedLowDetail
    ));
}

#[test]
fn strict_preparation_rejects_unsupported_url_schemes() {
    let mut items = vec![ResponseItem::Message {
        id: None,
        role: "user".to_string(),
        content: vec![ContentItem::InputImage {
            image_url: "file:///tmp/image.png".to_string(),
            detail: None,
        }],
        phase: None,
    }];

    let err = prepare_response_items_for_responses_codex_strict_mode(&mut items, &load_png)
        .expect_err("unsupported scheme should fail");

    assert!(matches!(
        err,
        ResponsesCodexStrictImagePreparationError::NonDataUrl { .. }
    ));
}

#[test]
fn refused_urls_are_shown_up_to_128_characters() {
    let long = format!("http://{}", "\u{fc}".repeat(200));
    let err = plan_image::<String>(&long, None).expect_err("should be refused");
    assert_eq!(
        err,
        ResponsesCodexStrictImagePreparationError::NonDataUrl {
            image_url_preview: format!("http://{}", "\u{fc}".repeat(121)),
        }
    );
    let err = plan_image::<String>("data", None).expect_err("should be refused");
    assert_eq!(
        err,
        ResponsesCodexStrictImagePreparationError::NonDataUrl {
            image_url_preview: "data".to_string(),
        }
    );
}

#[test]
fn details_decide_how_images_are_loaded() {
    let cases = [
        (None, PromptImageMode::Original),
        (Some(ImageDetail::Auto), PromptImageMode::Original),
        (Some(ImageDetail::Original), PromptImageMode::Original),
        (Some(ImageDetail::High), PromptImageMode::ResizeToFit),
    ];
    for (detail, mode) in cases {
        assert_eq!(plan_image::<String>("data:x", detail), Ok(mode));
    }
    assert_eq!(
        plan_image::<String>("data:x", Some(ImageDetail::Low)),
        Err(ResponsesCodexStrictImagePreparationError::UnsupportedLowDetail)
    );
}

#[test]
fn a_loaded_image_takes_its_place() {
    let mut url = "data:old".to_string();
    let mut detail = Some(ImageDetail::High);
    assert_eq!(
        finish_image(&mut url, &mut detail, Err::<LoadedImage, u8>(7)),
        Err(ResponsesCodexStrictImagePreparationError::ImageProcessing(7))
    );
    assert_eq!((url.as_str(), detail), ("data:old", Some(ImageDetail::High)));
    assert_eq!(
        finish_image(&mut url, &mut detail, Ok::<LoadedImage, u8>(loaded("new"))),
        Ok(())
    );
    assert_eq!((url.as_str(), detail), ("data:new", None));
}

#[test]
fn the_loader_gets_the_url_and_the_mode() {
    let load = |url: &str, mode: PromptImageMode| -> Result<LoadedImage, String> {
        Ok(loaded(&format!("{url}/{mode:?}")))
    };
    let mut items = vec![message(vec![
        ContentItem::InputText {
            text: "look".to_string(),
        },
        image("data:a", Some(ImageDetail::High)),
        image("data:b", None),
        ContentItem::OutputText {
            text: "seen".to_string(),
        },
    ])];
    prepare_response_items_for_responses_codex_strict_mode(&mut items, &load)
        .expect("should succeed");
    assert_eq!(
        items,
        vec![message(vec![
            ContentItem::InputText {
                text: "look".to_string(),
            },
            image("data:data:a/ResizeToFit", None),
            image("data:data:b/Original", None),
            ContentItem::OutputText {
                text: "seen".to_string(),
            },
        ])]
    );
}

#[test]
fn a_refusal_keeps_what_was_done_and_touches_nothing_more() {
    let load = |_: &str, _: PromptImageMode| -> Result<LoadedImage, String> {
        Ok(loaded("loaded"))
    };
    let custom = |url: &str, detail| ResponseItem::CustomToolCallOutput {
        call_id: "c".to_string(),
        output: FunctionCallOutputPayload {
            text: Some("t".to_string()),
            content_items: Some(vec![
                FunctionCallOutputContentItem::InputText {
                    text: "t".to_string(),
                },
                FunctionCallOutputContentItem::InputImage {
                    image_url: url.to_string(),
                    detail,
                },
            ]),
        },
    };
    let mut items = vec![
        custom("data:1", Some(ImageDetail::Auto)),
        ResponseItem::Other,
        message(vec![
            image("data:2", None),
            image("ftp://3", None),
            image("data:4", Some(ImageDetail::High)),
        ]),
        custom("data:5", Some(ImageDetail::Auto)),
    ];
    let err = prepare_response_items_for_responses_codex_strict_mode(&mut items, &load)
        .expect_err("should be refused");
    assert_eq!(
        err,
        ResponsesCodexStrictImagePreparationError::NonDataUrl {
            image_url_preview: "ftp://3".to_string(),
        }
    );
    assert_eq!(
        items,
        vec![
            custom("data:loaded", None),
            ResponseItem::Other,
            message(vec![
                image("data:loaded", None),
                image("ftp://3", None),
                image("data:4", Some(ImageDetail::High)),
            ]),
            custom("data:5", Some(ImageDetail::Auto)),
        ]
    );
}

#[test]
fn a_failed_load_is_reported() {
    let mut items = vec![message(vec![image("data:text/plain,x", None)])];
    assert_eq!(
        prepare_response_items_for_responses_codex_strict_mode(&mut items, &load_png),
        Err(ResponsesCodexStrictImagePreparationError::ImageProcessing(
            "no PNG".to_string()
        ))
    );
}

#[test]
fn the_fallback_prepares_images_that_carry_a_detail() {
    let mut items = vec![message(vec![image(
        &tiny_png_data_url(),
        Some(ImageDetail::Auto),
    )])];
    prepare_response_items_for_responses_codex_strict_mode_request_fallback(&mut items, &load_png)
        .expect("should succeed");
    assert_eq!(items, vec![message(vec![image(&tiny_png_data_url(), None)])]);
}

#[test]
fn prepared_items_pass_the_fallback_unchanged() {
    let mut items = vec![
        message(vec![image(&tiny_png_data_url(), Some(ImageDetail::High))]),
        ResponseItem::FunctionCallOutput {
            call_id: "c".to_string(),
            output: FunctionCallOutputPayload {
                text: Some("plain".to_string()),
                content_items: None,
            },
        },
    ];
    prepare_response_items_for_responses_codex_strict_mode(&mut items, &load_png)
        .expect("should succeed");
    let never = |_: &str, _: PromptImageMode| -> Result<LoadedImage, String> {
        Err("asked again".to_string())
    };
    let mut again = vec![
        message(vec![image(&tiny_png_data_url(), None)]),
        ResponseItem::FunctionCallOutput {
            call_id: "c".to_string(),
            output: FunctionCallOutputPayload {
                text: Some("plain".to_string()),
                content_items: None,
            },
        },
    ];
    assert_eq!(items, again);
    prepare_response_items_for_responses_codex_strict_mode_request_fallback(&mut again, &never)
        .expect("should succeed");
    assert_eq!(items, again);
}

/// A message, the output of a function and that of a custom tool with the same images.
fn in_every_kind(images: &[(&str, Option<ImageDetail>)]) -> [ResponseItem; 3] {
    let mut content = vec![ContentItem::InputText {
        text: "look".to_string(),
    }];
    content.extend(images.iter().map(|(url, detail)| image(url, *detail)));
    let output = || FunctionCallOutputPayload {
        text: None,
        content_items: Some(
            images
                .iter()
                .map(|(url, detail)| FunctionCallOutputContentItem::InputImage {
                    image_url: url.to_string(),
                    detail: *detail,
                })
                .collect(),
        ),
    };
    [
        message(content),
        ResponseItem::FunctionCallOutput {
            call_id: "f".to_string(),
            output: output(),
        },
        ResponseItem::CustomToolCallOutput {
            call_id: "c".to_string(),
            output: output(),
        },
    ]
}

#[test]
fn images_fare_alike_in_every_kind_of_item() {
    let load = |url: &str, mode: PromptImageMode| -> Result<LoadedImage, String> {
        match url {
            "data:bad" => Err("bad".to_string()),
            _ => Ok(loaded(&format!("{url}/{mode:?}"))),
        }
    };
    let high = Some(ImageDetail::High);

    for item in in_every_kind(&[("data:a", high), ("data:b", None)]) {
        let expected = in_every_kind(&[
            ("data:data:a/ResizeToFit", None),
            ("data:data:b/Original", None),
        ]);
        let mut items = vec![item];
        prepare_response_items_for_responses_codex_strict_mode(&mut items, &load)
            .expect("should succeed");
        assert!(expected.contains(&items[0]));
    }

    for item in in_every_kind(&[("data:a", high), ("data:bad", high), ("data:c", high)]) {
        let expected = in_every_kind(&[
            ("data:data:a/ResizeToFit", None),
            ("data:bad", high),
            ("data:c", high),
        ]);
        let mut items = vec![item];
        assert_eq!(
            prepare_response_items_for_responses_codex_strict_mode(&mut items, &load),
            Err(ResponsesCodexStrictImagePreparationError::ImageProcessing(
                "bad".to_string()
            ))
        );
        assert!(expected.contains(&items[0]));
    }
}

#[test]
fn a_loaded_image_is_a_data_url() {
    assert_eq!(loaded("image/png;base64,AA==").into_data_url(), "data:image/png;base64,AA==");
    assert_eq!(loaded("").into_data_url(), "data:");
}
