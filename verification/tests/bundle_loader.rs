use session_config::bundle_loader::{
    defaults_from_bundle, defaults_from_fragments, fetch_product_defaults,
    product_defaults_eligible_auth, response_fragments, settle_bundle_task, AuthSnapshot,
    CloudConfigBundle, CloudConfigBundleLoadError, CloudConfigBundleLoadErrorCode,
    CloudConfigFragment, CloudConfigTomlBundle, ConfigBundleResponse, ConfigTomlResponse,
    FetchAction, FetchEvent, FetchState, MissingDefaults, RefresherSlot,
};
use session_config::product_defaults::ProductDefaults;
use session_config::toml_value::TomlValue;

fn fragment(contents: &str) -> CloudConfigFragment {
    CloudConfigFragment {
        id: "id".to_string(),
        name: "name".to_string(),
        contents: contents.to_string(),
    }
}

fn response(fragments: Vec<CloudConfigFragment>) -> ConfigBundleResponse {
    ConfigBundleResponse {
        config_toml: Some(Some(ConfigTomlResponse {
            product_defaults: Some(Some(fragments)),
        })),
    }
}

const WORKSPACE: AuthSnapshot = AuthSnapshot {
    uses_codex_backend: true,
    workspace_plan: Some(true),
};

fn finished_empty(next: (FetchState, FetchAction)) -> bool {
    matches!(
        next,
        (FetchState::Done, FetchAction::Finish(defaults, None)) if defaults.is_empty()
    )
}

#[test]
fn bundles_bring_defaults_in_precedence_order() {
    let bundle = CloudConfigBundle {
        config_toml: CloudConfigTomlBundle {
            product_defaults: vec![
                CloudConfigFragment {
                    id: "cfg_default_high".to_string(),
                    name: "High priority defaults".to_string(),
                    contents: "[features]\nplugin_sharing = false\n".to_string(),
                },
                CloudConfigFragment {
                    id: "cfg_default_low".to_string(),
                    name: "Low priority defaults".to_string(),
                    contents: "[features]\nplugin_sharing = true\n".to_string(),
                },
            ],
            enterprise_managed: Vec::new(),
        },
    };
    let (defaults, missing) = defaults_from_bundle(Ok::<_, String>(Some(&bundle)));
    assert!(missing.is_none());
    assert_eq!(
        defaults
            .config()
            .get("features")
            .and_then(TomlValue::as_table)
            .and_then(|features| features.get("plugin_sharing"))
            .and_then(TomlValue::as_bool),
        Some(false)
    );
}

#[test]
fn missing_bundles_bring_nothing() {
    let (defaults, missing) = defaults_from_bundle(Ok::<_, String>(None));
    assert_eq!(defaults, ProductDefaults::default());
    assert!(missing.is_none());

    let (defaults, missing) = defaults_from_bundle(Err("down".to_string()));
    assert_eq!(defaults, ProductDefaults::default());
    assert!(matches!(missing, Some(MissingDefaults::LoadFailed(err)) if err == "down"));
}

#[test]
fn unreadable_fragments_bring_nothing() {
    let fragments = vec![fragment("a = 1"), fragment("b ="), fragment("c = 1")];
    let expected = toml::from_str::<toml::Value>("b =").expect_err("should be refused");
    let (defaults, failure) = defaults_from_fragments(&fragments);
    assert_eq!(defaults, ProductDefaults::default());
    assert_eq!(failure.expect("should be reported").source, expected);

    let bundle = CloudConfigBundle {
        config_toml: CloudConfigTomlBundle {
            product_defaults: fragments,
            enterprise_managed: Vec::new(),
        },
    };
    let (defaults, missing) = defaults_from_bundle(Ok::<_, String>(Some(&bundle)));
    assert_eq!(defaults, ProductDefaults::default());
    assert!(
        matches!(missing, Some(MissingDefaults::Unreadable(error)) if error.source == expected)
    );
}

#[test]
fn only_workspace_accounts_on_the_backend_are_eligible() {
    for (uses_codex_backend, workspace_plan, expected) in [
        (true, Some(true), true),
        (true, Some(false), false),
        (true, None, false),
        (false, Some(true), false),
    ] {
        assert_eq!(
            product_defaults_eligible_auth(&AuthSnapshot {
                uses_codex_backend,
                workspace_plan,
            }),
            expected
        );
    }
}

#[test]
fn absent_and_null_fields_mean_no_fragments() {
    assert!(response_fragments(ConfigBundleResponse { config_toml: None }).is_empty());
    assert!(response_fragments(ConfigBundleResponse {
        config_toml: Some(None)
    })
    .is_empty());
    for product_defaults in [None, Some(None)] {
        assert!(response_fragments(ConfigBundleResponse {
            config_toml: Some(Some(ConfigTomlResponse { product_defaults })),
        })
        .is_empty());
    }
    assert_eq!(
        response_fragments(response(vec![fragment("a"), fragment("b")])),
        vec![fragment("a"), fragment("b")]
    );
}

#[test]
fn a_complete_fetch_brings_the_fragments() {
    let (state, action) =
        fetch_product_defaults(FetchState::Auth, FetchEvent::Auth(Some(WORKSPACE)));
    assert_eq!(state, FetchState::Client);
    assert!(matches!(action, FetchAction::BuildClient));
    let (state, action) = fetch_product_defaults(state, FetchEvent::ClientBuilt);
    assert_eq!(state, FetchState::Response);
    assert!(matches!(action, FetchAction::RequestBundle));
    let (state, action) = fetch_product_defaults(
        state,
        FetchEvent::Responded(response(vec![fragment("a = 1"), fragment("a = 2\nb = 3")])),
    );
    assert_eq!(state, FetchState::Done);
    let FetchAction::Finish(defaults, None) = action else {
        panic!("expected readable defaults");
    };
    assert_eq!(
        defaults,
        ProductDefaults::from_toml_str("a = 1\nb = 3").expect("should parse")
    );
}

#[test]
fn an_interrupted_fetch_ends_without_defaults() {
    let plain = AuthSnapshot {
        uses_codex_backend: true,
        workspace_plan: None,
    };
    for auth in [None, Some(plain)] {
        assert!(finished_empty(fetch_product_defaults(
            FetchState::Auth,
            FetchEvent::Auth(auth)
        )));
    }
    assert!(finished_empty(fetch_product_defaults(
        FetchState::Client,
        FetchEvent::ClientFailed
    )));
    for event in [FetchEvent::RequestFailed, FetchEvent::TimedOut] {
        assert!(finished_empty(fetch_product_defaults(FetchState::Response, event)));
    }
    let (_, action) = fetch_product_defaults(
        FetchState::Response,
        FetchEvent::Responded(response(vec![fragment("oops")])),
    );
    assert!(
        matches!(action, FetchAction::Finish(defaults, Some(_)) if defaults.is_empty())
    );
}

#[test]
fn a_broken_task_is_an_internal_failure() {
    assert_eq!(settle_bundle_task(Ok(Ok(5))), Ok(5));
    let reported = || CloudConfigBundleLoadError {
        code: CloudConfigBundleLoadErrorCode::Service("timeout".to_string()),
        status_code: Some(504),
        message: "slow".to_string(),
    };
    assert_eq!(settle_bundle_task::<u8>(Ok(Err(reported()))), Err(reported()));
    assert_eq!(
        settle_bundle_task::<u8>(Err("task panicked".to_string())),
        Err(CloudConfigBundleLoadError {
            code: CloudConfigBundleLoadErrorCode::Internal,
            status_code: None,
            message: "cloud config bundle load failed: task panicked".to_string(),
        })
    );
}

#[test]
fn a_new_refresher_supersedes_the_old_one() {
    let mut slot = RefresherSlot::new();
    assert_eq!(slot.install(1), None);
    assert_eq!(slot.install(2), Some(1));
    assert_eq!(slot.install(3), Some(2));
}
