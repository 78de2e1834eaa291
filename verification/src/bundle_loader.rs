//! How the product defaults come out of what the backend delivers.
//!
//! Defaults are a convenience: whatever goes wrong on the way to them, a session starts without
//! them rather than not at all.
use vstd::prelude::*;

use crate::product_defaults::{
    all_readable, empty_table, first_met_error, fragment_trees, layered, texts, ProductDefaults,
    ProductDefaultsError,
};
use crate::toml_value::TomlTree;

verus! {

/// A piece of configuration that the backend delivers.
#[derive(Debug, PartialEq, Eq)]
pub struct CloudConfigFragment {
    pub id: String,
    pub name: String,
    /// TOML text.
    pub contents: String,
}

/// The configuration in a bundle, each list ordered highest precedence first.
#[derive(Debug, PartialEq, Eq)]
pub struct CloudConfigTomlBundle {
    pub product_defaults: Vec<CloudConfigFragment>,
    pub enterprise_managed: Vec<CloudConfigFragment>,
}

/// What the backend delivers for a workspace.
#[derive(Debug, PartialEq, Eq)]
pub struct CloudConfigBundle {
    pub config_toml: CloudConfigTomlBundle,
}

/// The configuration in a response of the backend, where a field can be absent or null.
#[derive(Debug, PartialEq, Eq)]
pub struct ConfigTomlResponse {
    pub product_defaults: Option<Option<Vec<CloudConfigFragment>>>,
}

/// A response of the backend, where a field can be absent or null.
#[derive(Debug, PartialEq, Eq)]
pub struct ConfigBundleResponse {
    pub config_toml: Option<Option<ConfigTomlResponse>>,
}

/// What matters of the credentials of a session.
#[derive(Clone, Copy, Debug, PartialEq, Eq, Structural)]
pub struct AuthSnapshot {
    /// Whether they are for the backend.
    pub uses_codex_backend: bool,
    /// Whether the plan of the account is that of a workspace, where the plan is known.
    pub workspace_plan: Option<bool>,
}

/// What kind of failure kept a bundle from being loaded.
#[derive(Debug, PartialEq, Eq)]
pub enum CloudConfigBundleLoadErrorCode {
    /// The loader itself failed.
    Internal,
    /// The service reported a failure under this code.
    Service(String),
}

/// Why a bundle could not be loaded.
#[derive(Debug, PartialEq, Eq)]
pub struct CloudConfigBundleLoadError {
    pub code: CloudConfigBundleLoadErrorCode,
    pub status_code: Option<u16>,
    pub message: String,
}

/// The texts of fragments.
pub open spec fn contents_of(fragments: Seq<CloudConfigFragment>) -> Seq<Seq<char>> {
    fragments.map_values(|fragment: CloudConfigFragment| fragment.contents@)
}

/// What the defaults say that come of fragments: nothing where one of them cannot be read.
pub open spec fn defaults_tree(contents: Seq<Seq<char>>) -> TomlTree {
    if all_readable(contents) {
        layered(fragment_trees(contents))
    } else {
        empty_table()
    }
}

/// Whether `failure` reports what kept fragments from being read.
pub open spec fn reports(
    contents: Seq<Seq<char>>,
    failure: Option<ProductDefaultsError>,
) -> bool {
    match failure {
        Some(error) => first_met_error(contents, error),
        None => all_readable(contents),
    }
}

/// The defaults that come of fragments, and what kept the fragments from being read.
pub fn defaults_from_fragments(fragments: &[CloudConfigFragment]) -> (settled: (
    ProductDefaults,
    Option<ProductDefaultsError>,
))
    ensures
        settled.0@ == defaults_tree(contents_of(fragments@)),
        reports(contents_of(fragments@), settled.1),
{
    let mut contents: Vec<&str> = Vec::new();
    let mut i: usize = 0;
    while i < fragments.len()
        invariant
            i <= fragments@.len(),
            contents@.len() == i,
            forall|j: int| 0 <= j < i ==> (#[trigger] contents@[j])@ == fragments@[j].contents@,
        decreases fragments@.len() - i,
    {
        contents.push(fragments[i].contents.as_str());
        i += 1;
    }
    assert(texts(contents@) =~= contents_of(fragments@));
    match ProductDefaults::from_toml_fragments(contents.as_slice()) {
        Ok(defaults) => (defaults, None),
        Err(error) => (ProductDefaults::default(), Some(error)),
    }
}

/// Why defaults are missing that a bundle was to bring.
#[derive(Debug)]
pub enum MissingDefaults<E> {
    /// The bundle could not be loaded.
    LoadFailed(E),
    /// A fragment in it could not be read.
    Unreadable(ProductDefaultsError),
}

/// The texts of the defaults in a bundle that was or was not loaded.
pub open spec fn bundle_contents<E>(loaded: Result<Option<&CloudConfigBundle>, E>) -> Seq<
    Seq<char>,
> {
    match loaded {
        Ok(Some(bundle)) => contents_of(bundle.config_toml.product_defaults@),
        _ => Seq::empty(),
    }
}

/// The defaults that a bundle brings, and why they are missing where they are.
pub fn defaults_from_bundle<E>(loaded: Result<Option<&CloudConfigBundle>, E>) -> (settled: (
    ProductDefaults,
    Option<MissingDefaults<E>>,
))
    ensures
        settled.0@ == defaults_tree(bundle_contents(loaded)),
        settled.1 is Some ==> settled.0@ == empty_table(),
        match settled.1 {
            Some(MissingDefaults::LoadFailed(error)) => loaded == Err::<
                Option<&CloudConfigBundle>,
                _,
            >(error),
            Some(MissingDefaults::Unreadable(error)) => loaded is Ok && first_met_error(
                bundle_contents(loaded),
                error,
            ),
            None => loaded is Ok && all_readable(bundle_contents(loaded)),
        },
{
    match loaded {
        Ok(Some(bundle)) => {
            let (defaults, failure) = defaults_from_fragments(
                bundle.config_toml.product_defaults.as_slice(),
            );
            match failure {
                Some(error) => (defaults, Some(MissingDefaults::Unreadable(error))),
                None => (defaults, None),
            }
        },
        Ok(None) => {
            assert(fragment_trees(bundle_contents(loaded)) =~= Seq::empty());
            (ProductDefaults::default(), None)
        },
        Err(error) => {
            assert(fragment_trees(bundle_contents(loaded)) =~= Seq::empty());
            (ProductDefaults::default(), Some(MissingDefaults::LoadFailed(error)))
        },
    }
}

/// The fragments in a response: none where a field on the way to them is absent or null.
pub open spec fn fragments_in(response: ConfigBundleResponse) -> Seq<CloudConfigFragment> {
    match response.config_toml {
        Some(Some(config_toml)) => match config_toml.product_defaults {
            Some(Some(fragments)) => fragments@,
            _ => Seq::empty(),
        },
        _ => Seq::empty(),
    }
}

/// Takes the fragments out of a response.
pub fn response_fragments(response: ConfigBundleResponse) -> (fragments: Vec<CloudConfigFragment>)
    ensures
        fragments@ == fragments_in(response),
{
    match response.config_toml {
        Some(Some(config_toml)) => match config_toml.product_defaults {
            Some(Some(fragments)) => fragments,
            _ => Vec::new(),
        },
        _ => Vec::new(),
    }
}

/// Whether defaults are fetched with these credentials.
pub open spec fn eligible(auth: AuthSnapshot) -> bool {
    auth.uses_codex_backend && auth.workspace_plan == Some(true)
}

/// Tells whether defaults are fetched with these credentials: those of a workspace account that
/// uses the backend.
pub fn product_defaults_eligible_auth(auth: &AuthSnapshot) -> (answer: bool)
    ensures
        answer == eligible(*auth),
        answer == (auth.uses_codex_backend && auth.workspace_plan == Some(true)),
{
    auth.uses_codex_backend && match auth.workspace_plan {
        Some(workspace) => workspace,
        None => false,
    }
}

/// What a fetch of the defaults is waiting for.
#[derive(Clone, Copy, Debug, PartialEq, Eq, Structural)]
pub enum FetchState {
    /// The credentials of the session.
    Auth,
    /// A client of the backend.
    Client,
    /// A response of the backend.
    Response,
    /// Nothing any more.
    Done,
}

/// What a fetch of the defaults can hear of.
#[derive(Debug, PartialEq, Eq)]
pub enum FetchEvent {
    /// The credentials of the session, where it has any.
    Auth(Option<AuthSnapshot>),
    /// There is a client of the backend.
    ClientBuilt,
    /// There is none.
    ClientFailed,
    /// The backend responded.
    Responded(ConfigBundleResponse),
    /// The request failed.
    RequestFailed,
    /// The request took too long.
    TimedOut,
}

/// What is to be done next for a fetch of the defaults.
#[derive(Debug)]
pub enum FetchAction {
    /// Build a client of the backend.
    BuildClient,
    /// Ask the backend for the bundle.
    RequestBundle,
    /// Go on with these defaults. Where fragments could not be read, the error says why.
    Finish(ProductDefaults, Option<ProductDefaultsError>),
}

/// Whether an event is what a state waits for.
pub open spec fn awaited(state: FetchState, event: FetchEvent) -> bool {
    match state {
        FetchState::Auth => event is Auth,
        FetchState::Client => event is ClientBuilt || event is ClientFailed,
        FetchState::Response => event is Responded || event is RequestFailed || event is TimedOut,
        FetchState::Done => false,
    }
}

/// What a step of a fetch leads to.
pub enum FetchStep {
    /// Build a client, and wait for it.
    BuildClient,
    /// Ask for the bundle, and wait for the response.
    RequestBundle,
    /// Be done, with the defaults that these texts make up.
    Finish(Seq<Seq<char>>),
}

/// What follows an event that was waited for: the next thing to wait for as long as nothing went
/// wrong, and the end without defaults once something has.
pub open spec fn next_step(event: FetchEvent) -> FetchStep {
    match event {
        FetchEvent::Auth(Some(auth)) => if eligible(auth) {
            FetchStep::BuildClient
        } else {
            FetchStep::Finish(Seq::empty())
        },
        FetchEvent::ClientBuilt => FetchStep::RequestBundle,
        FetchEvent::Responded(response) => FetchStep::Finish(contents_of(fragments_in(response))),
        _ => FetchStep::Finish(Seq::empty()),
    }
}

/// Whether a state and an action are what a step leads to.
pub open spec fn carries_out(step: FetchStep, state: FetchState, action: FetchAction) -> bool {
    match step {
        FetchStep::BuildClient => state == FetchState::Client && action is BuildClient,
        FetchStep::RequestBundle => state == FetchState::Response && action is RequestBundle,
        FetchStep::Finish(contents) => {
            &&& state == FetchState::Done
            &&& action is Finish
            &&& action->Finish_0@ == defaults_tree(contents)
            &&& reports(contents, action->Finish_1)
        },
    }
}

/// The end of a fetch without defaults.
fn finish_without() -> (action: FetchAction)
    ensures
        carries_out(FetchStep::Finish(Seq::empty()), FetchState::Done, action),
{
    assert(fragment_trees(Seq::empty()) =~= Seq::empty());
    FetchAction::Finish(ProductDefaults::default(), None)
}

/// Decides what follows when a fetch of the defaults hears of what it waited for.
pub fn fetch_product_defaults(state: FetchState, event: FetchEvent) -> (next: (
    FetchState,
    FetchAction,
))
    requires
        awaited(state, event),
    ensures
        carries_out(next_step(event), next.0, next.1),
        next.1 is BuildClient <==> (event matches FetchEvent::Auth(Some(auth))
            && auth.uses_codex_backend && auth.workspace_plan == Some(true)),
        next.1 is BuildClient ==> next.0 == FetchState::Client,
        next.1 is RequestBundle <==> event is ClientBuilt,
        next.1 is RequestBundle ==> next.0 == FetchState::Response,
        next.1 is Finish ==> next.0 == FetchState::Done,
        next.1 is Finish && !(event is Responded) ==> next.1->Finish_0@ == empty_table()
            && next.1->Finish_1 is None,
{
    assert(fragment_trees(Seq::empty()) =~= Seq::empty());
    match (state, event) {
        (FetchState::Auth, FetchEvent::Auth(Some(auth))) => if product_defaults_eligible_auth(
            &auth,
        ) {
            (FetchState::Client, FetchAction::BuildClient)
        } else {
            (FetchState::Done, finish_without())
        },
        (FetchState::Client, FetchEvent::ClientBuilt) => (
            FetchState::Response,
            FetchAction::RequestBundle,
        ),
        (FetchState::Response, FetchEvent::Responded(response)) => {
            let fragments = response_fragments(response);
            let (defaults, failure) = defaults_from_fragments(fragments.as_slice());
            (FetchState::Done, FetchAction::Finish(defaults, failure))
        },
        _ => (FetchState::Done, finish_without()),
    }
}

/// Holds the one task that refreshes the bundle in the background.
#[derive(Debug)]
pub struct RefresherSlot<T> {
    current: Option<T>,
}

impl<T> View for RefresherSlot<T> {
    type V = Option<T>;

    closed spec fn view(&self) -> Option<T> {
        self.current
    }
}

impl<T> RefresherSlot<T> {
    /// A slot without a task.
    pub fn new() -> (slot: Self)
        ensures
            slot@ == None::<T>,
    {
        RefresherSlot { current: None }
    }

    /// Puts a task in the slot and hands out the one that was there, which is to be aborted.
    pub fn install(&mut self, task: T) -> (superseded: Option<T>)
        ensures
            superseded == old(self)@,
            final(self)@ == Some(task),
    {
        let superseded = self.current.take();
        self.current = Some(task);
        superseded
    }
}

/// The outcome of a task that loads a bundle. `failure` stands for a task that did not run to its
/// end.
pub fn settle_bundle_task<T>(
    joined: Result<Result<T, CloudConfigBundleLoadError>, String>,
) -> (outcome: Result<T, CloudConfigBundleLoadError>)
    ensures
        match joined {
            Ok(inner) => outcome == inner,
            Err(failure) => {
                &&& outcome is Err
                &&& outcome->Err_0.code is Internal
                &&& outcome->Err_0.status_code is None
                &&& outcome->Err_0.message@ == "cloud config bundle load failed: "@ + failure@
            },
        },
{
    match joined {
        Ok(inner) => inner,
        Err(failure) => {
            let mut message = "cloud config bundle load failed: ".to_owned();
            message.append(failure.as_str());
            Err(
                CloudConfigBundleLoadError {
                    code: CloudConfigBundleLoadErrorCode::Internal,
                    status_code: None,
                    message,
                },
            )
        },
    }
}

} // verus!
