//! What holds of every configuration: which fragment wins, and what switching a feature leaves
//! alone.
use vstd::prelude::*;
use vstd::std_specs::cmp::PartialEqSpec;

use crate::bundle_loader::{
    awaited, bundle_contents, carries_out, contents_of, defaults_tree, eligible, fragments_in,
    next_step, reports, AuthSnapshot, CloudConfigBundle, CloudConfigFragment, ConfigBundleResponse,
    ConfigTomlResponse, FetchAction, FetchEvent, FetchState, FetchStep,
};
use crate::product_defaults::{
    all_readable, configures_nothing, empty_table, features_key, first_met_error, fragment_tree,
    fragment_trees, layered, texts, trees_of, with_feature, ProductDefaults, ProductDefaultsError,
};
use crate::text::{blank, is_white_space};
use crate::toml_parse::document;
use crate::toml_value::{
    merge_trees, no_entries, trees_agree, TomlTable, TomlTree, TomlValue,
};

verus! {

/// What `tree` says at `path`, a list of keys from the root down.
pub open spec fn lookup(tree: TomlTree, path: Seq<Seq<char>>) -> Option<TomlTree>
    decreases path.len(),
{
    if path.len() == 0 {
        Some(tree)
    } else {
        match tree {
            TomlTree::Table(entries) => if entries.dom().contains(path[0]) {
                lookup(entries[path[0]], path.drop_first())
            } else {
                None
            },
            _ => None,
        }
    }
}

/// Whether `tree` leaves open what stands at `path`: on the way down a table lacks the next key.
pub open spec fn silent(tree: TomlTree, path: Seq<Seq<char>>) -> bool
    decreases path.len(),
{
    match tree {
        TomlTree::Table(entries) => path.len() > 0 && (entries.dom().contains(path[0]) ==> silent(
            entries[path[0]],
            path.drop_first(),
        )),
        _ => false,
    }
}

/// Where both values say something at a path, the merged value says there what the one merged
/// over the other says.
pub proof fn merge_works_path_by_path(base: TomlTree, overlay: TomlTree, path: Seq<Seq<char>>)
    requires
        lookup(base, path) is Some,
        lookup(overlay, path) is Some,
    ensures
        lookup(merge_trees(base, overlay), path) == Some(
            merge_trees(lookup(base, path)->Some_0, lookup(overlay, path)->Some_0),
        ),
    decreases path.len(),
{
    if path.len() > 0 {
        merge_works_path_by_path(
            base->Table_0[path[0]],
            overlay->Table_0[path[0]],
            path.drop_first(),
        );
    }
}

/// Anything but a table in the overlay stands in the merged value as it is.
pub proof fn overlay_leaf_wins(base: TomlTree, overlay: TomlTree, path: Seq<Seq<char>>)
    requires
        lookup(overlay, path) is Some,
        !(lookup(overlay, path)->Some_0 is Table),
    ensures
        lookup(merge_trees(base, overlay), path) == lookup(overlay, path),
    decreases path.len(),
{
    if path.len() > 0 {
        if base is Table && base->Table_0.dom().contains(path[0]) {
            overlay_leaf_wins(
                base->Table_0[path[0]],
                overlay->Table_0[path[0]],
                path.drop_first(),
            );
        }
    }
}

/// What the overlay leaves open stands in the merged value as it stood in the base.
pub proof fn overlay_keeps_what_it_leaves_open(
    base: TomlTree,
    overlay: TomlTree,
    path: Seq<Seq<char>>,
)
    requires
        silent(overlay, path),
    ensures
        lookup(merge_trees(base, overlay), path) == lookup(base, path),
    decreases path.len(),
{
    lookup_of_silent(overlay, path);
    if base is Table && base->Table_0.dom().contains(path[0])
        && overlay->Table_0.dom().contains(path[0]) {
        overlay_keeps_what_it_leaves_open(
            base->Table_0[path[0]],
            overlay->Table_0[path[0]],
            path.drop_first(),
        );
    }
}

proof fn lookup_of_silent(tree: TomlTree, path: Seq<Seq<char>>)
    requires
        silent(tree, path),
    ensures
        lookup(tree, path) is None,
    decreases path.len(),
{
    if tree->Table_0.dom().contains(path[0]) {
        lookup_of_silent(tree->Table_0[path[0]], path.drop_first());
    }
}

/// Fragments are ordered highest precedence first: at every path the first fragment that does not
/// leave the path open decides, where it holds anything but a table there.
pub proof fn first_fragment_that_speaks_decides(
    trees: Seq<TomlTree>,
    at: int,
    path: Seq<Seq<char>>,
)
    requires
        0 <= at < trees.len(),
        forall|i: int| 0 <= i < at ==> silent(#[trigger] trees[i], path),
        lookup(trees[at], path) is Some,
        !(lookup(trees[at], path)->Some_0 is Table),
    ensures
        lookup(layered(trees), path) == lookup(trees[at], path),
    decreases at,
{
    let lower = trees.drop_first();
    if at == 0 {
        overlay_leaf_wins(layered(lower), trees[0], path);
    } else {
        assert forall|i: int| 0 <= i < at - 1 implies silent(#[trigger] lower[i], path) by {
            assert(silent(trees[i + 1], path));
        }
        first_fragment_that_speaks_decides(lower, at - 1, path);
        overlay_keeps_what_it_leaves_open(layered(lower), trees[0], path);
    }
}

/// What every fragment leaves open, the merged configuration does not say.
pub proof fn nothing_comes_from_nowhere(trees: Seq<TomlTree>, path: Seq<Seq<char>>)
    requires
        path.len() > 0,
        forall|i: int| 0 <= i < trees.len() ==> silent(#[trigger] trees[i], path),
    ensures
        lookup(layered(trees), path) is None,
    decreases trees.len(),
{
    if trees.len() > 0 {
        let lower = trees.drop_first();
        assert forall|i: int| 0 <= i < lower.len() implies silent(#[trigger] lower[i], path) by {
            assert(silent(trees[i + 1], path));
        }
        nothing_comes_from_nowhere(lower, path);
        overlay_keeps_what_it_leaves_open(layered(lower), trees[0], path);
    }
}

/// An empty fragment among the others changes nothing. Ahead of them all it does so provided that
/// what they say together is a table.
pub proof fn empty_fragment_changes_nothing(trees: Seq<TomlTree>, at: int)
    requires
        0 <= at <= trees.len(),
        at == 0 ==> layered(trees) is Table,
    ensures
        layered(trees.insert(at, empty_table())) == layered(trees),
    decreases at,
{
    let more = trees.insert(at, empty_table());
    if at == 0 {
        assert(more.drop_first() =~= trees);
        assert(merge_trees(layered(trees), empty_table())->Table_0 =~= layered(trees)->Table_0);
    } else {
        let lower = trees.drop_first();
        assert(more.drop_first() =~= lower.insert(at - 1, empty_table()));
        if at > 1 || layered(lower) is Table {
            empty_fragment_changes_nothing(lower, at - 1);
        } else {
            assert(lower.insert(0, empty_table()).drop_first() =~= lower);
            assert(layered(lower.insert(0, empty_table())) == empty_table());
            assert(trees[0] is Table ==> merge_trees(empty_table(), trees[0])->Table_0
                =~= trees[0]->Table_0);
        }
    }
}

/// A blank text among the fragments changes nothing: neither whether all of them can be read, nor
/// which error is reported, nor what they say. Ahead of them all it leaves what they say provided
/// that this is a table.
pub proof fn blank_fragment_changes_nothing(
    contents: Seq<Seq<char>>,
    at: int,
    text: Seq<char>,
    error: ProductDefaultsError,
)
    requires
        0 <= at <= contents.len(),
        blank(text),
    ensures
        all_readable(contents.insert(at, text)) == all_readable(contents),
        first_met_error(contents.insert(at, text), error) == first_met_error(contents, error),
        (at == 0 ==> layered(fragment_trees(contents)) is Table) ==> layered(
            fragment_trees(contents.insert(at, text)),
        ) == layered(fragment_trees(contents)),
{
    let more = contents.insert(at, text);
    assert(fragment_tree(more[at]) is Ok);
    assert(forall|i: int|
        0 <= i < contents.len() ==> #[trigger] contents[i] == more[if i < at {
            i
        } else {
            i + 1
        }]);
    assert(forall|i: int|
        0 <= i < more.len() && i != at ==> #[trigger] more[i] == contents[if i < at {
            i
        } else {
            i - 1
        }]);
    assert(fragment_trees(more) =~= fragment_trees(contents).insert(at, empty_table()));
    if at == 0 ==> layered(fragment_trees(contents)) is Table {
        empty_fragment_changes_nothing(fragment_trees(contents), at);
    }
}

/// One fragment alone says what it says as a whole configuration.
pub proof fn single_fragment_stands_alone(contents: Seq<char>)
    ensures
        fragment_tree(contents) is Ok ==> layered(fragment_trees(seq![contents]))
            == fragment_tree(contents)->Ok_0,
{
    let trees = fragment_trees(seq![contents]);
    let tree = fragment_tree(contents)->Ok_0;
    assert(trees.drop_first() =~= Seq::empty());
    assert(trees[0] == tree);
    assert(layered(trees.drop_first()) == empty_table());
    if tree is Table {
        assert(merge_trees(empty_table(), tree)->Table_0 =~= tree->Table_0);
    }
}

/// No fragment at all configures nothing.
pub proof fn no_fragment_configures_nothing()
    ensures
        configures_nothing(layered(Seq::empty())),
{
}

/// A feature reads as it was last switched, and its configuration is a layer.
pub proof fn feature_reads_as_switched(tree: TomlTree, feature_key: Seq<char>, enabled: bool)
    ensures
        lookup(with_feature(tree, feature_key, enabled), seq!["features"@, feature_key])
            == Some(TomlTree::Boolean(enabled)),
        !configures_nothing(with_feature(tree, feature_key, enabled)),
{
    let path = seq![features_key(), feature_key];
    let switched = with_feature(tree, feature_key, enabled);
    assert(path.drop_first() =~= seq![feature_key]);
    assert(path.drop_first().drop_first() =~= Seq::empty());
    let features = switched->Table_0[features_key()];
    assert(lookup(features, path.drop_first()) == Some(TomlTree::Boolean(enabled))) by {
        assert(lookup(
            features->Table_0[feature_key],
            path.drop_first().drop_first(),
        ) == Some(TomlTree::Boolean(enabled)));
    }
    assert(switched->Table_0.dom().contains(features_key()));
    assert(!no_entries().dom().contains(features_key()));
}

/// Switching a feature leaves alone everything that stands outside the features table.
pub proof fn switching_keeps_other_keys(
    tree: TomlTree,
    feature_key: Seq<char>,
    enabled: bool,
    path: Seq<Seq<char>>,
)
    requires
        path.len() > 0,
        path[0] != "features"@,
    ensures
        lookup(with_feature(tree, feature_key, enabled), path) == lookup(tree, path),
{
}

/// Switching a feature leaves alone every other entry of the features table.
pub proof fn switching_keeps_other_features(
    tree: TomlTree,
    feature_key: Seq<char>,
    enabled: bool,
    path: Seq<Seq<char>>,
)
    requires
        path.len() > 1,
        path[0] == "features"@,
        path[1] != feature_key,
    ensures
        lookup(with_feature(tree, feature_key, enabled), path) == lookup(tree, path),
{
    let rest = path.drop_first();
    let switched = with_feature(tree, feature_key, enabled);
    reveal_with_fuel(lookup, 3);
    assert(rest[0] == path[1]);
    assert(lookup(switched, path) == lookup(switched->Table_0[features_key()], rest));
}

/// Of two switches of one feature the later one alone counts.
pub proof fn last_switch_counts(
    tree: TomlTree,
    feature_key: Seq<char>,
    earlier: bool,
    later: bool,
)
    ensures
        with_feature(with_feature(tree, feature_key, earlier), feature_key, later)
            == with_feature(tree, feature_key, later),
{
    let twice = with_feature(with_feature(tree, feature_key, earlier), feature_key, later);
    let once = with_feature(tree, feature_key, later);
    assert(twice->Table_0[features_key()]->Table_0 =~= once->Table_0[features_key()]->Table_0);
    assert(twice->Table_0 =~= once->Table_0);
}

/// Two features can be switched in either order.
pub proof fn switches_commute(
    tree: TomlTree,
    first_key: Seq<char>,
    first: bool,
    second_key: Seq<char>,
    second: bool,
)
    requires
        first_key != second_key,
    ensures
        with_feature(with_feature(tree, first_key, first), second_key, second) == with_feature(
            with_feature(tree, second_key, second),
            first_key,
            first,
        ),
{
    let one = with_feature(with_feature(tree, first_key, first), second_key, second);
    let other = with_feature(with_feature(tree, second_key, second), first_key, first);
    assert(one->Table_0[features_key()]->Table_0 =~= other->Table_0[features_key()]->Table_0);
    assert(one->Table_0 =~= other->Table_0);
}

/// The texts that a fetch ends with, given what it hears of in turn.
pub open spec fn fetched_contents(
    auth: FetchEvent,
    client: FetchEvent,
    response: FetchEvent,
) -> Seq<Seq<char>> {
    match next_step(auth) {
        FetchStep::BuildClient => match next_step(client) {
            FetchStep::RequestBundle => next_step(response)->Finish_0,
            step => step->Finish_0,
        },
        step => step->Finish_0,
    }
}

/// A fetch brings the fragments of the response if the credentials are eligible, there is a client
/// and the backend responds, and nothing otherwise.
pub proof fn only_a_complete_fetch_brings_fragments(
    auth: FetchEvent,
    client: FetchEvent,
    response: FetchEvent,
)
    requires
        auth is Auth,
        client is ClientBuilt || client is ClientFailed,
        response is Responded || response is RequestFailed || response is TimedOut,
    ensures
        fetched_contents(auth, client, response) == (if auth->Auth_0 is Some
            && auth->Auth_0->Some_0.uses_codex_backend && auth->Auth_0->Some_0.workspace_plan
            == Some(true) && client is ClientBuilt && response is Responded {
            contents_of(fragments_in(response->Responded_0))
        } else {
            Seq::empty()
        }),
{
}

/// Without fragments, or with one that cannot be read, the defaults configure nothing.
pub proof fn missing_fragments_configure_nothing(contents: Seq<Seq<char>>)
    ensures
        contents.len() == 0 || !all_readable(contents) ==> configures_nothing(
            defaults_tree(contents),
        ),
{
    if contents.len() == 0 {
        assert(fragment_trees(contents) =~= Seq::empty());
    }
}

/// A text of white space alone is the empty table, and any other text is what the TOML parser makes
/// of it, be it a document or an error.
pub proof fn only_white_space_is_kept_from_the_parser(contents: Seq<char>)
    ensures
        (forall|i: int| 0 <= i < contents.len() ==> is_white_space(#[trigger] contents[i]))
            ==> fragment_tree(contents) is Ok && fragment_tree(contents)->Ok_0 is Table && forall|
            key: Seq<char>,
        |
            !#[trigger] fragment_tree(contents)->Ok_0->Table_0.dom().contains(key),
        !(forall|i: int| 0 <= i < contents.len() ==> is_white_space(#[trigger] contents[i]))
            ==> fragment_tree(contents) == document(contents),
{
}

/// A text that holds a character other than white space is left to the parser, wherever the
/// character stands and whatever it is.
pub proof fn one_character_makes_a_document(contents: Seq<char>, at: int)
    requires
        0 <= at < contents.len(),
        !is_white_space(contents[at]),
    ensures
        fragment_tree(contents) == document(contents),
{
}

/// What a merged value says at every path: what the base says where the overlay leaves the path
/// open, and otherwise what the overlay says: nothing where that is nothing, the same where it is
/// no table, and a table where it is one.
pub proof fn merged_value_at_every_path(base: TomlTree, overlay: TomlTree, path: Seq<Seq<char>>)
    ensures
        silent(overlay, path) ==> lookup(merge_trees(base, overlay), path) == lookup(base, path),
        !silent(overlay, path) ==> match lookup(overlay, path) {
            None => lookup(merge_trees(base, overlay), path) is None,
            Some(TomlTree::Table(_)) => lookup(merge_trees(base, overlay), path) is Some && lookup(
                merge_trees(base, overlay),
                path,
            )->Some_0 is Table,
            Some(leaf) => lookup(merge_trees(base, overlay), path) == Some(leaf),
        },
    decreases path.len(),
{
    if silent(overlay, path) {
        overlay_keeps_what_it_leaves_open(base, overlay, path);
    } else if path.len() > 0 && overlay is Table && overlay->Table_0.dom().contains(path[0])
        && base is Table && base->Table_0.dom().contains(path[0]) {
        merged_value_at_every_path(
            base->Table_0[path[0]],
            overlay->Table_0[path[0]],
            path.drop_first(),
        );
    }
}

/// Merging over a value that is no table gives the overlay itself.
pub proof fn overlay_replaces_what_is_no_table(base: TomlTree, overlay: TomlTree)
    requires
        !(base is Table) || !(overlay is Table),
    ensures
        merge_trees(base, overlay) == overlay,
{
}

/// What fragments say together at every path is settled by the first of them that does not leave
/// the path open: nothing where it says nothing, the same where it says what is no table, and a
/// table where it says one. `nothing_comes_from_nowhere` is the case where there is no such
/// fragment.
pub proof fn first_fragment_that_speaks_settles_the_path(
    trees: Seq<TomlTree>,
    at: int,
    path: Seq<Seq<char>>,
)
    requires
        0 <= at < trees.len(),
        forall|i: int| 0 <= i < at ==> silent(#[trigger] trees[i], path),
        !silent(trees[at], path),
    ensures
        match lookup(trees[at], path) {
            None => lookup(layered(trees), path) is None,
            Some(TomlTree::Table(_)) => lookup(layered(trees), path) is Some && lookup(
                layered(trees),
                path,
            )->Some_0 is Table,
            Some(leaf) => lookup(layered(trees), path) == Some(leaf),
        },
    decreases at,
{
    let lower = trees.drop_first();
    merged_value_at_every_path(layered(lower), trees[0], path);
    if at > 0 {
        assert(silent(trees[0], path));
        assert forall|i: int| 0 <= i < at - 1 implies silent(#[trigger] lower[i], path) by {
            assert(silent(trees[i + 1], path));
        }
        assert(lower[at - 1] == trees[at]);
        first_fragment_that_speaks_settles_the_path(lower, at - 1, path);
    }
}

/// One more fragment of the highest precedence is merged over what the others say together.
pub proof fn highest_fragment_is_merged_last(trees: Seq<TomlTree>, highest: TomlTree)
    ensures
        layered(seq![highest] + trees) == merge_trees(layered(trees), highest),
{
    assert((seq![highest] + trees).drop_first() =~= trees);
}

/// Every fragment counts, in its own place: the trees of fragments are those of their texts, one
/// for one, and so are the texts of slices, of fragments of a bundle, and the trees of values.
pub proof fn every_fragment_counts(
    contents: Seq<Seq<char>>,
    slices: Seq<&str>,
    fragments: Seq<CloudConfigFragment>,
    values: Seq<TomlValue>,
    at: int,
)
    ensures
        fragment_trees(contents).len() == contents.len(),
        texts(slices).len() == slices.len(),
        contents_of(fragments).len() == fragments.len(),
        trees_of(values).len() == values.len(),
        0 <= at < contents.len() && fragment_tree(contents[at]) is Ok ==> fragment_trees(
            contents,
        )[at] == fragment_tree(contents[at])->Ok_0,
        0 <= at < slices.len() ==> texts(slices)[at] == slices[at]@,
        0 <= at < fragments.len() ==> contents_of(fragments)[at] == fragments[at].contents@,
        0 <= at < values.len() ==> trees_of(values)[at] == values[at]@,
{
}

/// Fragments can all be read exactly where each of them can, be it as white space alone or as a
/// document.
pub proof fn all_are_readable_where_each_is(contents: Seq<Seq<char>>)
    ensures
        all_readable(contents) <==> forall|i: int|
            0 <= i < contents.len() ==> (forall|j: int|
                0 <= j < contents[i].len() ==> is_white_space(#[trigger] contents[i][j]))
                || document(#[trigger] contents[i]) is Ok,
{
    assert forall|i: int| 0 <= i < contents.len() implies (fragment_tree(
        #[trigger] contents[i],
    ) is Ok <==> (forall|j: int|
        0 <= j < contents[i].len() ==> is_white_space(#[trigger] contents[i][j])) || document(
        contents[i],
    ) is Ok) by {
        only_white_space_is_kept_from_the_parser(contents[i]);
    }
    if all_readable(contents) {
        assert(forall|i: int|
            0 <= i < contents.len() ==> fragment_tree(#[trigger] contents[i]) is Ok);
    } else {
        let i = choose|i: int|
            0 <= i < contents.len() && !(fragment_tree(#[trigger] contents[i]) is Ok);
        assert(!(document(contents[i]) is Ok));
    }
}

/// One more fragment of the lowest precedence: where the parser refuses it, its error is the one
/// that is reported, whatever comes before it. Where it can be read, the fragments before it
/// decide. Without fragments there is nothing to report.
pub proof fn error_of_the_lowest_fragment_is_reported(
    contents: Seq<Seq<char>>,
    lowest: Seq<char>,
    error: ProductDefaultsError,
    failure: Option<ProductDefaultsError>,
)
    ensures
        !first_met_error(Seq::empty(), error),
        fragment_tree(lowest) is Ok ==> first_met_error(contents.push(lowest), error)
            == first_met_error(contents, error),
        fragment_tree(lowest) is Err ==> first_met_error(contents.push(lowest), error) == (
        document(lowest) == Err::<TomlTree, _>(error.source)),
        reports(contents, failure) == match failure {
            Some(error) => first_met_error(contents, error),
            None => forall|i: int|
                0 <= i < contents.len() ==> fragment_tree(#[trigger] contents[i]) is Ok,
        },
{
    let more = contents.push(lowest);
    only_white_space_is_kept_from_the_parser(lowest);
    assert(forall|i: int| 0 <= i < contents.len() ==> #[trigger] more[i] == contents[i]);
    assert(forall|i: int| 0 <= i < contents.len() ==> #[trigger] contents[i] == more[i]);
    assert(more[contents.len() as int] == lowest);
}

/// Where a fragment cannot be read, some error is reported.
pub proof fn some_error_is_reported(contents: Seq<Seq<char>>) -> (error: ProductDefaultsError)
    requires
        !all_readable(contents),
    ensures
        first_met_error(contents, error),
    decreases contents.len(),
{
    let lowest = contents.last();
    let others = contents.drop_last();
    assert(others.push(lowest) =~= contents);
    if fragment_tree(lowest) is Err {
        let error = ProductDefaultsError { source: fragment_tree(lowest)->Err_0 };
        error_of_the_lowest_fragment_is_reported(others, lowest, error, None);
        only_white_space_is_kept_from_the_parser(lowest);
        error
    } else {
        assert(!all_readable(others)) by {
            let i = choose|i: int|
                0 <= i < contents.len() && !(fragment_tree(#[trigger] contents[i]) is Ok);
            assert(others[i] == contents[i]);
        }
        let error = some_error_is_reported(others);
        error_of_the_lowest_fragment_is_reported(others, lowest, error, None);
        error
    }
}

/// The defaults that come of fragments say what these say together, where all of them can be read,
/// and are the empty table where one cannot.
pub proof fn defaults_are_all_or_nothing(contents: Seq<Seq<char>>)
    ensures
        (forall|i: int| 0 <= i < contents.len() ==> fragment_tree(#[trigger] contents[i]) is Ok)
            ==> defaults_tree(contents) == layered(fragment_trees(contents)),
        (exists|i: int| 0 <= i < contents.len() && fragment_tree(#[trigger] contents[i]) is Err)
            ==> defaults_tree(contents) is Table && forall|key: Seq<char>|
            !#[trigger] defaults_tree(contents)->Table_0.dom().contains(key),
{
}

/// Defaults configure nothing exactly where they say nothing at any path below the root.
pub proof fn configuring_nothing_is_saying_nothing(tree: TomlTree)
    ensures
        configures_nothing(tree) <==> forall|path: Seq<Seq<char>>|
            path.len() > 0 ==> #[trigger] lookup(tree, path) is None,
{
    if configures_nothing(tree) {
        assert forall|path: Seq<Seq<char>>| path.len() > 0 implies #[trigger] lookup(
            tree,
            path,
        ) is None by {
            assert(!no_entries().dom().contains(path[0]));
        }
    } else {
        let entries = tree->Table_0;
        assert(exists|key: Seq<char>| entries.dom().contains(key)) by {
            if forall|key: Seq<char>| !entries.dom().contains(key) {
                assert(entries =~= no_entries());
            }
        }
        let key = choose|key: Seq<char>| entries.dom().contains(key);
        let path = seq![key];
        assert(path.drop_first() =~= Seq::empty());
        assert(lookup(entries[key], path.drop_first()) is Some);
        assert(lookup(tree, path) is Some);
    }
}

/// What configuration says once a feature is switched, at every path: the state of the feature
/// under its key, a table above it, nothing below it, and everywhere else what was said before.
pub proof fn switching_changes_the_feature_alone(
    tree: TomlTree,
    feature_key: Seq<char>,
    enabled: bool,
    path: Seq<Seq<char>>,
)
    ensures
        with_feature(tree, feature_key, enabled) is Table,
        path == seq!["features"@] ==> lookup(with_feature(tree, feature_key, enabled), path) is Some
            && lookup(with_feature(tree, feature_key, enabled), path)->Some_0 is Table,
        path == seq!["features"@, feature_key] ==> lookup(
            with_feature(tree, feature_key, enabled),
            path,
        ) == Some(TomlTree::Boolean(enabled)),
        path.len() > 2 && path[0] == "features"@ && path[1] == feature_key ==> lookup(
            with_feature(tree, feature_key, enabled),
            path,
        ) is None,
        path.len() > 1 && path[0] == "features"@ && path[1] != feature_key ==> lookup(
            with_feature(tree, feature_key, enabled),
            path,
        ) == lookup(tree, path),
        path.len() > 0 && path[0] != "features"@ ==> lookup(
            with_feature(tree, feature_key, enabled),
            path,
        ) == lookup(tree, path),
{
    reveal_with_fuel(lookup, 3);
    let switched = with_feature(tree, feature_key, enabled);
    if path.len() > 1 && path[0] == "features"@ && path[1] != feature_key {
        switching_keeps_other_features(tree, feature_key, enabled, path);
    }
    if path.len() > 0 && path[0] != "features"@ {
        switching_keeps_other_keys(tree, feature_key, enabled, path);
    }
    if path == seq!["features"@, feature_key] {
        feature_reads_as_switched(tree, feature_key, enabled);
    }
    if path.len() > 2 && path[0] == "features"@ && path[1] == feature_key {
        assert(path.drop_first()[0] == path[1]);
        assert(lookup(switched, path) == lookup(
            switched->Table_0["features"@],
            path.drop_first(),
        ));
        assert(lookup(switched->Table_0["features"@], path.drop_first()) == lookup(
            TomlTree::Boolean(enabled),
            path.drop_first().drop_first(),
        ));
    }
}

/// A fetch goes on to build a client exactly where the credentials are there, use the backend, and
/// are known to be those of a workspace. Otherwise it ends there, without a fragment.
pub proof fn only_workspace_credentials_on_the_backend_go_on(auth: Option<AuthSnapshot>)
    ensures
        next_step(FetchEvent::Auth(auth)) is BuildClient <==> auth is Some
            && auth->Some_0.uses_codex_backend && auth->Some_0.workspace_plan == Some(true),
        !(next_step(FetchEvent::Auth(auth)) is BuildClient) ==> next_step(FetchEvent::Auth(auth))
            is Finish && next_step(FetchEvent::Auth(auth))->Finish_0.len() == 0,
        auth is Some ==> (eligible(auth->Some_0) <==> auth->Some_0.uses_codex_backend
            && auth->Some_0.workspace_plan == Some(true)),
{
}

/// A session that does not use the backend never fetches defaults, whatever its plan, nor does one
/// whose plan is unknown or is that of no workspace, whether it uses the backend or not.
pub proof fn each_condition_on_credentials_is_needed(auth: AuthSnapshot)
    ensures
        !auth.uses_codex_backend ==> !(next_step(FetchEvent::Auth(Some(auth))) is BuildClient),
        auth.workspace_plan is None ==> !(next_step(FetchEvent::Auth(Some(auth))) is BuildClient),
        auth.workspace_plan == Some(false) ==> !(next_step(
            FetchEvent::Auth(Some(auth)),
        ) is BuildClient),
{
}

/// What follows the other events: with a client the bundle is requested, with a response the fetch
/// ends with every fragment in it, and after any failure without one.
pub proof fn failures_end_a_fetch_without_fragments(event: FetchEvent)
    requires
        !(event is Auth),
    ensures
        next_step(event) is RequestBundle <==> event is ClientBuilt,
        !(next_step(event) is BuildClient),
        event is ClientFailed || event is RequestFailed || event is TimedOut ==> next_step(event)
            is Finish && next_step(event)->Finish_0.len() == 0,
        event is Responded ==> next_step(event) is Finish && next_step(event)->Finish_0
            == contents_of(fragments_in(event->Responded_0)),
{
}

/// Whatever comes of an action is awaited in the state that the fetch is then in, and a fetch
/// begins with the credentials, whatever they are.
pub proof fn whatever_comes_of_an_action_is_awaited(
    event: FetchEvent,
    state: FetchState,
    action: FetchAction,
    auth: Option<AuthSnapshot>,
    response: ConfigBundleResponse,
)
    requires
        carries_out(next_step(event), state, action),
    ensures
        awaited(FetchState::Auth, FetchEvent::Auth(auth)),
        action is BuildClient ==> awaited(state, FetchEvent::ClientBuilt) && awaited(
            state,
            FetchEvent::ClientFailed,
        ),
        action is RequestBundle ==> awaited(state, FetchEvent::Responded(response)) && awaited(
            state,
            FetchEvent::RequestFailed,
        ) && awaited(state, FetchEvent::TimedOut),
        action is Finish <==> state == FetchState::Done,
        action is BuildClient <==> next_step(event) is BuildClient,
        action is RequestBundle <==> next_step(event) is RequestBundle,
        action is Finish ==> action->Finish_0@ == defaults_tree(next_step(event)->Finish_0)
            && reports(next_step(event)->Finish_0, action->Finish_1),
{
}

/// A response has fragments where it has a configuration with a list of them, and then it has all
/// of these, in order. Where one of the two is absent or null it has none.
pub proof fn response_has_the_fragments_in_it(response: ConfigBundleResponse)
    ensures
        response.config_toml is None ==> fragments_in(response).len() == 0,
        response.config_toml == Some(None::<ConfigTomlResponse>) ==> fragments_in(response).len()
            == 0,
        response.config_toml is Some && response.config_toml->Some_0 is Some ==> match
            response.config_toml->Some_0->Some_0.product_defaults {
            Some(Some(fragments)) => fragments_in(response) == fragments@,
            _ => fragments_in(response).len() == 0,
        },
{
}

/// A bundle that was loaded brings the texts of all its defaults, in order, and nothing else in it
/// counts. Without one there are none.
pub proof fn bundle_brings_the_texts_in_it<E>(loaded: Result<Option<&CloudConfigBundle>, E>)
    ensures
        loaded is Err || loaded->Ok_0 is None ==> bundle_contents(loaded).len() == 0,
        loaded is Ok && loaded->Ok_0 is Some ==> bundle_contents(loaded) == Seq::new(
            loaded->Ok_0->Some_0.config_toml.product_defaults@.len(),
            |i: int| loaded->Ok_0->Some_0.config_toml.product_defaults@[i].contents@,
        ),
{
    if loaded is Ok && loaded->Ok_0 is Some {
        assert(bundle_contents(loaded) =~= Seq::new(
            loaded->Ok_0->Some_0.config_toml.product_defaults@.len(),
            |i: int| loaded->Ok_0->Some_0.config_toml.product_defaults@[i].contents@,
        ));
    }
}

/// A value says what it holds, item by item and entry by entry.
pub proof fn values_say_what_they_hold(value: TomlValue)
    ensures
        match value {
            TomlValue::String(text) => value@ == TomlTree::String(text@),
            TomlValue::Integer(number) => value@ == TomlTree::Integer(number),
            TomlValue::Float(bits) => value@ is Float,
            TomlValue::Boolean(flag) => value@ == TomlTree::Boolean(flag),
            TomlValue::Datetime(datetime) => value@ == TomlTree::Datetime(datetime),
            TomlValue::Array(items) => value@ is Array && value@->Array_0.len() == items@.len()
                && forall|i: int|
                0 <= i < items@.len() ==> #[trigger] value@->Array_0[i] == items@[i]@,
            TomlValue::Table(table) => value@ == TomlTree::Table(table@),
        },
{
}

/// Two floats are equal exactly where neither is no number and they have the same bits, or none but
/// that of the sign. Two that say the same have the same sign, and the same bits unless both are no
/// number.
pub proof fn floats_are_equal_as_numbers(left: u64, right: u64)
    ensures
        trees_agree(
            TomlValue::Float(left)@,
            TomlValue::Float(right)@,
        ) <==> left % 0x8000_0000_0000_0000 <= 0x7ff0_0000_0000_0000 && right
            % 0x8000_0000_0000_0000 <= 0x7ff0_0000_0000_0000 && (left == right || (left
            % 0x8000_0000_0000_0000 == 0 && right % 0x8000_0000_0000_0000 == 0)),
        TomlValue::Float(left)@ == TomlValue::Float(right)@ <==> left == right || (left
            % 0x8000_0000_0000_0000 > 0x7ff0_0000_0000_0000 && right % 0x8000_0000_0000_0000
            > 0x7ff0_0000_0000_0000 && (left >= 0x8000_0000_0000_0000 <==> right
            >= 0x8000_0000_0000_0000)),
{
}

/// Equality of values is symmetric.
pub proof fn equality_is_symmetric(left: TomlTree, right: TomlTree)
    ensures
        trees_agree(left, right) == trees_agree(right, left),
    decreases left,
{
    match (left, right) {
        (TomlTree::Array(a), TomlTree::Array(b)) => {
            if a.len() == b.len() {
                assert forall|i: int| 0 <= i < a.len() implies trees_agree(
                    #[trigger] a[i],
                    b[i],
                ) == trees_agree(b[i], a[i]) by {
                    assert(decreases_to!(left => left->Array_0));
                    assert(decreases_to!(a => a[i]));
                    equality_is_symmetric(a[i], b[i]);
                }
                assert(forall|i: int|
                    0 <= i < b.len() ==> trees_agree(#[trigger] b[i], a[i]) == trees_agree(
                        a[i],
                        b[i],
                    ));
            }
        },
        (TomlTree::Table(a), TomlTree::Table(b)) => {
            if a.dom() == b.dom() {
                assert forall|key: Seq<char>| #[trigger] a.dom().contains(key) implies trees_agree(
                    a[key],
                    b[key],
                ) == trees_agree(b[key], a[key]) by {
                    assert(decreases_to!(left => left->Table_0[key]));
                    equality_is_symmetric(a[key], b[key]);
                }
            }
        },
        _ => {},
    }
}

/// Equal values are alike all the way down: at every path both say something or neither does, and
/// what they say there is equal. Where it is neither a float nor holds values, it is the same.
pub proof fn equal_values_are_alike_at_every_path(
    left: TomlTree,
    right: TomlTree,
    path: Seq<Seq<char>>,
)
    requires
        trees_agree(left, right),
    ensures
        lookup(left, path) is Some <==> lookup(right, path) is Some,
        lookup(left, path) is Some ==> trees_agree(
            lookup(left, path)->Some_0,
            lookup(right, path)->Some_0,
        ) && (lookup(left, path)->Some_0 is Float || lookup(left, path)->Some_0 is Array || lookup(
            left,
            path,
        )->Some_0 is Table || lookup(left, path) == lookup(right, path)),
        left is Float <==> right is Float,
        left is Table <==> right is Table,
        left is Array <==> right is Array,
        left is Array ==> left->Array_0.len() == right->Array_0.len() && forall|i: int|
            0 <= i < left->Array_0.len() ==> trees_agree(
                #[trigger] left->Array_0[i],
                right->Array_0[i],
            ),
    decreases path.len(),
{
    if path.len() > 0 && left is Table && left->Table_0.dom().contains(path[0]) {
        assert(right->Table_0.dom().contains(path[0]));
        equal_values_are_alike_at_every_path(
            left->Table_0[path[0]],
            right->Table_0[path[0]],
            path.drop_first(),
        );
    }
}

/// Values that are alike in every item or entry are equal: values that hold no others where they
/// are the same, arrays of one length item by item, tables with the same keys key by key.
pub proof fn values_alike_are_equal(left: TomlTree, right: TomlTree)
    ensures
        left == right && !(left is Float || left is Array || left is Table) ==> trees_agree(
            left,
            right,
        ),
        left is Array && right is Array && left->Array_0.len() == right->Array_0.len() && (forall|
            i: int,
        |
            0 <= i < left->Array_0.len() ==> trees_agree(
                #[trigger] left->Array_0[i],
                right->Array_0[i],
            )) ==> trees_agree(left, right),
        left is Table && right is Table && (forall|key: Seq<char>|
            left->Table_0.dom().contains(key) <==> #[trigger] right->Table_0.dom().contains(key))
            && (forall|key: Seq<char>| #[trigger]
            left->Table_0.dom().contains(key) ==> trees_agree(
                left->Table_0[key],
                right->Table_0[key],
            )) ==> trees_agree(left, right),
{
    if left is Table && right is Table && (forall|key: Seq<char>|
        left->Table_0.dom().contains(key) <==> #[trigger] right->Table_0.dom().contains(key)) {
        assert(left->Table_0.dom() =~= right->Table_0.dom());
    }
}

/// `==` compares defaults, values and tables by what they say, all of it and nothing else.
pub proof fn equality_is_that_of_what_is_said(
    one: ProductDefaults,
    other: ProductDefaults,
    left: TomlValue,
    right: TomlValue,
    first: TomlTable,
    second: TomlTable,
)
    ensures
        one.eq_spec(&other) == trees_agree(one@, other@),
        left.eq_spec(&right) == trees_agree(left@, right@),
        first.eq_spec(&second) == trees_agree(TomlTree::Table(first@), TomlTree::Table(second@)),
{
}

/// Each state of a fetch awaits what can come of the last action, and nothing else. Once it is done
/// it awaits nothing.
pub proof fn each_state_awaits_its_own_events(event: FetchEvent)
    ensures
        awaited(FetchState::Auth, event) <==> event is Auth,
        awaited(FetchState::Client, event) <==> event is ClientBuilt || event is ClientFailed,
        awaited(FetchState::Response, event) <==> event is Responded || event is RequestFailed
            || event is TimedOut,
        !awaited(FetchState::Done, event),
{
}

} // verus!
