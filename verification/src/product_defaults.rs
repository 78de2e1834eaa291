//! Default configuration that the product owner supplies.
//!
//! The defaults are an ordinary configuration layer, so that the usual merging of layers and the
//! usual enforcement of requirements decide what finally applies.
use vstd::prelude::*;

use crate::text::{blank, is_blank, is_white_space};
use crate::toml_parse::{document, parse_document};
use crate::toml_value::{
    merge_toml_values, merge_trees, no_entries, trees_agree, TomlTable, TomlTree, TomlValue,
};

verus! {

/// Where a configuration layer comes from.
#[derive(Clone, Copy, Debug, PartialEq, Eq, Structural)]
pub enum ConfigLayerSource {
    /// The defaults that the product owner supplies.
    ProductDefaults,
}

/// One layer of configuration.
#[derive(Debug, PartialEq)]
pub struct ConfigLayerEntry {
    /// Where the layer comes from.
    pub source: ConfigLayerSource,
    /// What the layer configures.
    pub config: TomlValue,
}

impl ConfigLayerEntry {
    /// A layer that comes from `source` and says `config`.
    pub fn new(source: ConfigLayerSource, config: TomlValue) -> (entry: Self)
        ensures
            entry.source == source,
            entry.config == config,
    {
        ConfigLayerEntry { source, config }
    }
}

/// A fragment of the defaults is no TOML document.
#[derive(Debug)]
pub struct ProductDefaultsError {
    /// What the TOML parser reported.
    pub source: toml::de::Error,
}

/// Default configuration that the product owner supplies.
#[derive(Debug)]
pub struct ProductDefaults {
    config: TomlValue,
}

impl View for ProductDefaults {
    type V = TomlTree;

    closed spec fn view(&self) -> TomlTree {
        self.config@
    }
}

/// The table without entries.
pub open spec fn empty_table() -> TomlTree {
    TomlTree::Table(no_entries())
}

/// What one fragment says: a blank one is the empty table, any other a TOML document.
pub open spec fn fragment_tree(contents: Seq<char>) -> Result<TomlTree, toml::de::Error> {
    if blank(contents) {
        Ok(empty_table())
    } else {
        document(contents)
    }
}

/// What fragments say together, ordered highest precedence first.
pub open spec fn layered(trees: Seq<TomlTree>) -> TomlTree
    decreases trees.len(),
{
    if trees.len() == 0 {
        empty_table()
    } else {
        merge_trees(layered(trees.drop_first()), trees[0])
    }
}

/// What each fragment says, given that all of them can be read.
pub open spec fn fragment_trees(fragments: Seq<Seq<char>>) -> Seq<TomlTree> {
    fragments.map_values(|contents: Seq<char>| fragment_tree(contents)->Ok_0)
}

/// Whether every fragment can be read.
pub open spec fn all_readable(contents: Seq<Seq<char>>) -> bool {
    forall|i: int| 0 <= i < contents.len() ==> fragment_tree(#[trigger] contents[i]) is Ok
}

/// Whether `error` is what the fragment with the lowest precedence among those that cannot be
/// read makes the parser report.
pub open spec fn first_met_error(contents: Seq<Seq<char>>, error: ProductDefaultsError) -> bool {
    exists|i: int|
        {
            &&& 0 <= i < contents.len()
            &&& fragment_tree(#[trigger] contents[i]) == Err::<TomlTree, _>(error.source)
            &&& forall|j: int|
                i < j < contents.len() ==> fragment_tree(#[trigger] contents[j]) is Ok
        }
}

/// The texts behind a list of string slices.
pub open spec fn texts(slices: Seq<&str>) -> Seq<Seq<char>> {
    slices.map_values(|slice: &str| slice@)
}

/// What a list of values says, in the same order.
pub open spec fn trees_of(values: Seq<TomlValue>) -> Seq<TomlTree> {
    values.map_values(|value: TomlValue| value@)
}

/// The key under which features are switched.
pub open spec fn features_key() -> Seq<char> {
    "features"@
}

/// The entries of a table, and none for anything else.
pub open spec fn entries_or_none(tree: TomlTree) -> Map<Seq<char>, TomlTree> {
    match tree {
        TomlTree::Table(entries) => entries,
        _ => no_entries(),
    }
}

/// The entries of the table under `key`, and none where there is no such table.
pub open spec fn sub_entries(
    entries: Map<Seq<char>, TomlTree>,
    key: Seq<char>,
) -> Map<Seq<char>, TomlTree> {
    if entries.dom().contains(key) {
        entries_or_none(entries[key])
    } else {
        no_entries()
    }
}

/// What configuration `tree` says once the feature under `feature_key` is switched to `enabled`.
/// Anything but a table is given up, at the root and under the features key.
pub open spec fn with_feature(tree: TomlTree, feature_key: Seq<char>, enabled: bool) -> TomlTree {
    let root = entries_or_none(tree);
    let features = sub_entries(root, features_key());
    TomlTree::Table(
        root.insert(
            features_key(),
            TomlTree::Table(features.insert(feature_key, TomlTree::Boolean(enabled))),
        ),
    )
}

/// Whether configuration `tree` configures nothing: it is no table, or one without entries.
pub open spec fn configures_nothing(tree: TomlTree) -> bool {
    entries_or_none(tree) == no_entries()
}

/// Switches the feature under `feature_key` to `enabled` in the table under the features key,
/// which takes the place of anything else there.
fn set_in_features(root: &mut TomlTable, feature_key: &str, enabled: bool)
    ensures
        final(root)@ == old(root)@.insert(
            features_key(),
            TomlTree::Table(
                sub_entries(old(root)@, features_key()).insert(
                    feature_key@,
                    TomlTree::Boolean(enabled),
                ),
            ),
        ),
{
    if let Some(TomlValue::Table(features)) = root.get_mut("features") {
        features.insert(feature_key.to_owned(), TomlValue::Boolean(enabled));
    } else {
        let mut features = TomlTable::new();
        features.insert(feature_key.to_owned(), TomlValue::Boolean(enabled));
        root.insert("features".to_owned(), TomlValue::Table(features));
    }
}

impl Default for ProductDefaults {
    fn default() -> (defaults: Self)
        ensures
            defaults@ == empty_table(),
    {
        ProductDefaults { config: TomlValue::Table(TomlTable::new()) }
    }
}

impl Clone for ProductDefaults {
    fn clone(&self) -> (copy: Self)
        ensures
            copy@ == self@,
    {
        ProductDefaults { config: self.config.clone() }
    }
}

impl PartialEq for ProductDefaults {
    fn eq(&self, other: &Self) -> (answer: bool) {
        self.config == other.config
    }
}

impl vstd::std_specs::cmp::PartialEqSpecImpl for ProductDefaults {
    open spec fn obeys_eq_spec() -> bool {
        true
    }

    open spec fn eq_spec(&self, other: &Self) -> bool {
        trees_agree(self@, other@)
    }
}

impl ProductDefaults {
    /// The defaults that say `config`.
    pub fn from_config(config: TomlValue) -> (defaults: Self)
        ensures
            defaults@ == config@,
    {
        ProductDefaults { config }
    }

    /// Reads the defaults from TOML text. A blank text is the empty configuration.
    pub fn from_toml_str(contents: &str) -> (read: Result<Self, ProductDefaultsError>)
        ensures
            match read {
                Ok(defaults) => fragment_tree(contents@) == Ok::<_, toml::de::Error>(defaults@),
                Err(error) => fragment_tree(contents@) == Err::<TomlTree, _>(error.source),
            },
            (forall|i: int| 0 <= i < contents@.len() ==> is_white_space(#[trigger] contents@[i]))
                ==> read is Ok && read->Ok_0@ == TomlTree::Table(no_entries()),
            !(forall|i: int| 0 <= i < contents@.len() ==> is_white_space(#[trigger] contents@[i]))
                ==> match document(contents@) {
                Ok(tree) => read is Ok && read->Ok_0@ == tree,
                Err(error) => read is Err && read->Err_0.source == error,
            },
    {
        let config = if is_blank(contents) {
            TomlValue::Table(TomlTable::new())
        } else {
            match parse_document(contents) {
                Ok(config) => config,
                Err(source) => {
                    return Err(ProductDefaultsError { source });
                },
            }
        };
        Ok(Self::from_config(config))
    }

    /// Merges fragments that have been read, ordered lowest precedence first.
    pub fn from_fragments(fragments: Vec<TomlValue>) -> (defaults: Self)
        ensures
            defaults@ == layered(trees_of(fragments@).reverse()),
    {
        let ghost trees = trees_of(fragments@);
        let mut config = TomlValue::Table(TomlTable::new());
        assert(trees.take(0).reverse() =~= Seq::empty());
        for fragment in it: fragments
            invariant
                trees == trees_of(it.seq()),
                config@ == layered(trees.take(it.index() as int).reverse()),
        {
            let ghost at = it.index() as int;
            assert(trees[at] == fragment@);
            merge_toml_values(&mut config, fragment);
            assert(trees.take(at + 1).reverse().drop_first() =~= trees.take(at).reverse());
        }
        assert(trees.take(trees.len() as int) =~= trees);
        Self::from_config(config)
    }

    /// Reads and merges fragments of TOML text, ordered highest precedence first. Where some
    /// cannot be read, the error is that of the one with the lowest precedence.
    pub fn from_toml_fragments(fragments: &[&str]) -> (read: Result<Self, ProductDefaultsError>)
        ensures
            match read {
                Ok(defaults) => {
                    &&& all_readable(texts(fragments@))
                    &&& defaults@ == layered(fragment_trees(texts(fragments@)))
                },
                Err(error) => first_met_error(texts(fragments@), error),
            },
    {
        let ghost contents = texts(fragments@);
        let ghost trees = fragment_trees(contents);
        let mut rising: Vec<TomlValue> = Vec::new();
        let mut left: usize = fragments.len();
        while left > 0
            invariant
                left <= fragments@.len(),
                contents == texts(fragments@),
                trees == fragment_trees(contents),
                forall|j: int|
                    left <= j < contents.len() ==> fragment_tree(#[trigger] contents[j]) is Ok,
                rising@.len() == trees.len() - left,
                forall|j: int|
                    0 <= j < rising@.len() ==> (#[trigger] rising@[j])@ == trees[trees.len() - 1
                        - j],
            decreases left,
        {
            left -= 1;
            assert(contents[left as int] == fragments@[left as int]@);
            rising.push(Self::from_toml_str(fragments[left])?.config);
        }
        assert(trees_of(rising@).reverse() =~= trees);
        Ok(Self::from_fragments(rising))
    }

    /// Switches the feature under `feature_key` to `enabled`.
    pub fn set_feature_enabled(&mut self, feature_key: &str, enabled: bool) -> (this: &mut Self)
        ensures
            this@ == with_feature(old(self)@, feature_key@, enabled),
            *final(self) == *final(this),
    {
        if !self.config.is_table() {
            self.config = TomlValue::Table(TomlTable::new());
        }
        if let TomlValue::Table(root) = &mut self.config {
            set_in_features(root, feature_key, enabled);
        }
        self
    }

    /// Tells whether the defaults configure nothing.
    pub fn is_empty(&self) -> (empty: bool)
        ensures
            empty == configures_nothing(self@),
            empty == !(self@ is Table && self@->Table_0 != no_entries()),
    {
        match self.config.as_table() {
            Some(table) => table.is_empty(),
            None => true,
        }
    }

    /// What the defaults configure.
    pub fn config(&self) -> (config: &TomlValue)
        ensures
            config@ == self@,
    {
        &self.config
    }

    /// The defaults as a configuration layer, unless they configure nothing.
    pub fn into_config_layer(self) -> (layer: Option<ConfigLayerEntry>)
        ensures
            match layer {
                Some(entry) => {
                    &&& !configures_nothing(self@)
                    &&& entry.source == ConfigLayerSource::ProductDefaults
                    &&& entry.config@ == self@
                },
                None => configures_nothing(self@),
            },
            layer is Some <==> self@ is Table && self@->Table_0 != no_entries(),
    {
        if self.is_empty() {
            None
        } else {
            Some(ConfigLayerEntry::new(ConfigLayerSource::ProductDefaults, self.config))
        }
    }
}

} // verus!
