//! TOML values: what they say, when two of them are equal, and how one is merged over another.
use vstd::prelude::*;

verus! {

/// What a float says: that it is no number, with its sign, or which number it is, by its bits.
pub enum FloatTree {
    NotANumber { negative: bool },
    Number(u64),
}

/// A date.
#[derive(Clone, Copy, Debug, PartialEq, Eq, Structural)]
pub struct TomlDate {
    pub year: u16,
    pub month: u8,
    pub day: u8,
}

/// A time of day.
#[derive(Clone, Copy, Debug, PartialEq, Eq, Structural)]
pub struct TomlTime {
    pub hour: u8,
    pub minute: u8,
    pub second: u8,
    pub nanosecond: u32,
}

/// How far a time is off UTC.
#[derive(Clone, Copy, Debug, PartialEq, Eq, Structural)]
pub enum TomlOffset {
    /// Not at all, as `Z` says.
    Z,
    /// By so many minutes.
    Custom { minutes: i16 },
}

/// A date, a time or both.
#[derive(Clone, Copy, Debug, PartialEq, Eq, Structural)]
pub struct TomlDatetime {
    pub date: Option<TomlDate>,
    pub time: Option<TomlTime>,
    pub offset: Option<TomlOffset>,
}

/// What a TOML value says.
///
/// A table is held as the map from its keys to what the values under them say.
#[verifier::ext_equal]
pub enum TomlTree {
    String(Seq<char>),
    Integer(i64),
    Float(FloatTree),
    Boolean(bool),
    Datetime(TomlDatetime),
    Array(Seq<TomlTree>),
    Table(Map<Seq<char>, TomlTree>),
}

/// A TOML value.
#[derive(Debug)]
pub enum TomlValue {
    /// A string.
    String(String),
    /// An integer.
    Integer(i64),
    /// A float, by the bits of its IEEE 754 double format: the sign, the exponent, the fraction.
    Float(u64),
    /// A boolean.
    Boolean(bool),
    /// A date, a time or both.
    Datetime(TomlDatetime),
    /// An array.
    Array(Vec<TomlValue>),
    /// A table.
    Table(TomlTable),
}

/// The entries of a TOML table, held in a `toml::map::Map`.
///
/// The values in the map hold maps in turn, so the map is kept out of sight here, and
/// `table_entries` stands for what it holds.
#[verifier::external_body]
#[derive(Debug)]
pub struct TomlTable {
    map: toml::map::Map<String, TomlValue>,
}

/// What a `TomlTable` holds: for each key what the value under it says.
pub uninterp spec fn table_entries(table: TomlTable) -> Map<Seq<char>, TomlTree>;

impl View for TomlTable {
    type V = Map<Seq<char>, TomlTree>;

    open spec fn view(&self) -> Map<Seq<char>, TomlTree> {
        table_entries(*self)
    }
}

/// The bits of a float without its sign.
pub open spec fn float_magnitude(bits: u64) -> int {
    bits as int % 0x8000_0000_0000_0000
}

/// What the float with these bits says. One that is no number has every bit of the exponent set
/// and a fraction other than zero; which fraction makes no difference.
pub open spec fn float_tree(bits: u64) -> FloatTree {
    if float_magnitude(bits) > 0x7ff0_0000_0000_0000 {
        FloatTree::NotANumber { negative: bits >= 0x8000_0000_0000_0000 }
    } else {
        FloatTree::Number(bits)
    }
}

/// Whether two floats are equal: both are numbers, and the same one, or zero with either sign.
pub open spec fn floats_agree(left: FloatTree, right: FloatTree) -> bool {
    match (left, right) {
        (FloatTree::Number(a), FloatTree::Number(b)) => a == b || (float_magnitude(a) == 0
            && float_magnitude(b) == 0),
        _ => false,
    }
}

/// Whether two values are equal: of one kind, arrays item by item and tables key by key. A value
/// that holds a float that is no number equals no value, not even itself.
pub open spec fn trees_agree(left: TomlTree, right: TomlTree) -> bool
    decreases left,
{
    match (left, right) {
        (TomlTree::String(a), TomlTree::String(b)) => a == b,
        (TomlTree::Integer(a), TomlTree::Integer(b)) => a == b,
        (TomlTree::Float(a), TomlTree::Float(b)) => floats_agree(a, b),
        (TomlTree::Boolean(a), TomlTree::Boolean(b)) => a == b,
        (TomlTree::Datetime(a), TomlTree::Datetime(b)) => a == b,
        (TomlTree::Array(a), TomlTree::Array(b)) => a.len() == b.len() && forall|i: int|
            0 <= i < a.len() ==> trees_agree(#[trigger] a[i], b[i]),
        (TomlTree::Table(a), TomlTree::Table(b)) => a.dom() == b.dom() && forall|key: Seq<char>|
            #[trigger] a.dom().contains(key) ==> trees_agree(a[key], b[key]),
        _ => false,
    }
}

/// What a `TomlValue` says.
pub open spec fn tree_of(value: TomlValue) -> TomlTree
    decreases value,
{
    match value {
        TomlValue::String(text) => TomlTree::String(text@),
        TomlValue::Integer(number) => TomlTree::Integer(number),
        TomlValue::Float(bits) => TomlTree::Float(float_tree(bits)),
        TomlValue::Boolean(flag) => TomlTree::Boolean(flag),
        TomlValue::Datetime(datetime) => TomlTree::Datetime(datetime),
        TomlValue::Array(items) => TomlTree::Array(
            Seq::new(
                items@.len(),
                |i: int|
                    if 0 <= i < items@.len() {
                        tree_of(items@[i])
                    } else {
                        TomlTree::Boolean(false)
                    },
            ),
        ),
        TomlValue::Table(table) => TomlTree::Table(table@),
    }
}

impl View for TomlValue {
    type V = TomlTree;

    open spec fn view(&self) -> TomlTree {
        tree_of(*self)
    }
}

/// What `overlay` merged over `base` says: tables are merged key by key, and anything else in
/// `overlay` takes the place of what `base` says.
pub open spec fn merge_trees(base: TomlTree, overlay: TomlTree) -> TomlTree
    decreases overlay,
{
    match (base, overlay) {
        (TomlTree::Table(lower), TomlTree::Table(upper)) => TomlTree::Table(
            Map::new(
                |key: Seq<char>| lower.dom().contains(key) || upper.dom().contains(key),
                |key: Seq<char>|
                    if !upper.dom().contains(key) {
                        lower[key]
                    } else if !lower.dom().contains(key) {
                        upper[key]
                    } else {
                        merge_trees(lower[key], upper[key])
                    },
            ),
        ),
        _ => overlay,
    }
}

/// The entries of an empty table.
pub open spec fn no_entries() -> Map<Seq<char>, TomlTree> {
    Map::empty()
}

/// Whether `pairs` lists exactly the entries of `entries`, each key once.
pub open spec fn lists_entries(
    pairs: Seq<(Seq<char>, TomlTree)>,
    entries: Map<Seq<char>, TomlTree>,
) -> bool {
    &&& forall|i: int, j: int| 0 <= i < j < pairs.len() ==> pairs[i].0 != pairs[j].0
    &&& forall|i: int|
        0 <= i < pairs.len() ==> entries.dom().contains((#[trigger] pairs[i]).0)
            && entries[pairs[i].0] == pairs[i].1
    &&& forall|key: Seq<char>| #[trigger]
        entries.dom().contains(key) ==> exists|i: int| 0 <= i < pairs.len() && pairs[i].0 == key
}

/// What a list of keys and values says, in the same order.
pub open spec fn said_pairs(pairs: Seq<(String, TomlValue)>) -> Seq<(Seq<char>, TomlTree)> {
    pairs.map_values(|pair: (String, TomlValue)| (pair.0@, pair.1@))
}

/// What a list of lent keys and values says, in the same order.
pub open spec fn lent_pairs(pairs: Seq<(&String, &TomlValue)>) -> Seq<(Seq<char>, TomlTree)> {
    pairs.map_values(|pair: (&String, &TomlValue)| (pair.0@, pair.1@))
}

/// Calls `toml::map::Map::new`, which makes a map without entries.
#[verifier::external_body]
fn map_new() -> (table: TomlTable)
    ensures
        table_entries(table) == no_entries(),
{
    TomlTable { map: toml::map::Map::new() }
}

/// Calls `toml::map::Map::is_empty`, which tells whether the map has no entry.
#[verifier::external_body]
fn map_is_empty(table: &TomlTable) -> (empty: bool)
    ensures
        empty == (table_entries(*table) == no_entries()),
{
    table.map.is_empty()
}

/// Calls `toml::map::Map::get`, which hands out the value under `key` if there is one.
#[verifier::external_body]
fn map_get<'a>(table: &'a TomlTable, key: &str) -> (found: Option<&'a TomlValue>)
    ensures
        match found {
            Some(value) => table_entries(*table).dom().contains(key@)
                && table_entries(*table)[key@] == value@,
            None => !table_entries(*table).dom().contains(key@),
        },
{
    table.map.get(key)
}

/// Calls `toml::map::Map::get_mut`, which lends the value under `key` if there is one: what the
/// borrower leaves there is what the map then holds under `key`, and nothing else changes.
#[verifier::external_body]
fn map_get_mut<'a>(table: &'a mut TomlTable, key: &str) -> (found: Option<&'a mut TomlValue>)
    ensures
        match found {
            Some(value) => {
                &&& table_entries(*old(table)).dom().contains(key@)
                &&& table_entries(*old(table))[key@] == value@
                &&& table_entries(*final(table)) == table_entries(*old(table)).insert(
                    key@,
                    final(value)@,
                )
            },
            None => !table_entries(*old(table)).dom().contains(key@) && *final(table) == *old(
                table,
            ),
        },
{
    table.map.get_mut(key)
}

/// Calls `toml::map::Map::insert`, which puts `value` under `key` in place of what was there.
#[verifier::external_body]
fn map_insert(table: &mut TomlTable, key: String, value: TomlValue)
    ensures
        table_entries(*final(table)) == table_entries(*old(table)).insert(key@, value@),
{
    table.map.insert(key, value);
}

/// Calls `into_iter` on a `toml::map::Map`, which hands out every entry once.
#[verifier::external_body]
fn map_into_entries(table: TomlTable) -> (pairs: Vec<(String, TomlValue)>)
    ensures
        lists_entries(said_pairs(pairs@), table_entries(table)),
{
    table.map.into_iter().collect()
}

/// Calls `iter` on a `toml::map::Map`, which lends every entry once.
#[verifier::external_body]
fn map_entries(table: &TomlTable) -> (pairs: Vec<(&String, &TomlValue)>)
    ensures
        lists_entries(lent_pairs(pairs@), table_entries(*table)),
{
    table.map.iter().collect()
}

impl TomlTable {
    /// Makes a table without entries.
    pub fn new() -> (table: Self)
        ensures
            table@ == no_entries(),
    {
        map_new()
    }

    /// Tells whether the table has no entry.
    pub fn is_empty(&self) -> (empty: bool)
        ensures
            empty == (self@ == no_entries()),
    {
        map_is_empty(self)
    }

    /// The value under `key`, if there is one.
    pub fn get(&self, key: &str) -> (found: Option<&TomlValue>)
        ensures
            match found {
                Some(value) => self@.dom().contains(key@) && self@[key@] == value@,
                None => !self@.dom().contains(key@),
            },
    {
        map_get(self, key)
    }

    /// Puts `value` under `key`, in place of what was there.
    pub fn insert(&mut self, key: String, value: TomlValue)
        ensures
            final(self)@ == old(self)@.insert(key@, value@),
    {
        map_insert(self, key, value)
    }

    /// Lends the value under `key`, if there is one.
    pub fn get_mut(&mut self, key: &str) -> (found: Option<&mut TomlValue>)
        ensures
            match found {
                Some(value) => {
                    &&& old(self)@.dom().contains(key@)
                    &&& old(self)@[key@] == value@
                    &&& final(self)@ == old(self)@.insert(key@, final(value)@)
                },
                None => !old(self)@.dom().contains(key@) && *final(self) == *old(self),
            },
    {
        map_get_mut(self, key)
    }

    /// Hands out the entries, each once.
    pub fn into_entries(self) -> (pairs: Vec<(String, TomlValue)>)
        ensures
            lists_entries(said_pairs(pairs@), self@),
    {
        map_into_entries(self)
    }
}

impl TomlValue {
    /// The table that the value is, if it is one.
    pub fn as_table(&self) -> (table: Option<&TomlTable>)
        ensures
            match table {
                Some(table) => self@ == TomlTree::Table(table@),
                None => !(self@ is Table),
            },
    {
        match self {
            TomlValue::Table(table) => Some(table),
            _ => None,
        }
    }

    /// Tells whether the value is a table.
    pub fn is_table(&self) -> (answer: bool)
        ensures
            answer == self@ is Table,
    {
        self.as_table().is_some()
    }

    /// The boolean that the value is, if it is one.
    pub fn as_bool(&self) -> (flag: Option<bool>)
        ensures
            match flag {
                Some(flag) => self@ == TomlTree::Boolean(flag),
                None => !(self@ is Boolean),
            },
    {
        match self {
            TomlValue::Boolean(flag) => Some(*flag),
            _ => None,
        }
    }

    /// The value under `key`, if the value is a table that has one.
    pub fn get(&self, key: &str) -> (found: Option<&TomlValue>)
        ensures
            match found {
                Some(value) => self@ is Table && self@->Table_0.dom().contains(key@)
                    && self@->Table_0[key@] == value@,
                None => !(self@ is Table && self@->Table_0.dom().contains(key@)),
            },
    {
        match self {
            TomlValue::Table(table) => table.get(key),
            _ => None,
        }
    }
}

/// Copies a value.
fn copy_value(value: &TomlValue) -> (copy: TomlValue)
    ensures
        copy@ == value@,
    decreases value@, 1int,
{
    match value {
        TomlValue::String(text) => TomlValue::String(text.clone()),
        TomlValue::Integer(number) => TomlValue::Integer(*number),
        TomlValue::Float(bits) => TomlValue::Float(*bits),
        TomlValue::Boolean(flag) => TomlValue::Boolean(*flag),
        TomlValue::Datetime(datetime) => TomlValue::Datetime(*datetime),
        TomlValue::Array(items) => {
            let ghost trees = value@->Array_0;
            let mut copies: Vec<TomlValue> = Vec::new();
            let mut i: usize = 0;
            while i < items.len()
                invariant
                    i <= items@.len(),
                    copies@.len() == i,
                    *value == TomlValue::Array(*items),
                    value@ == TomlTree::Array(trees),
                    trees.len() == items@.len(),
                    forall|j: int| 0 <= j < i ==> (#[trigger] copies@[j])@ == trees[j],
                decreases items.len() - i,
            {
                assert(trees[i as int] == items@[i as int]@);
                assert(decreases_to!(value@ => value@->Array_0));
                assert(decreases_to!(trees => trees[i as int]));
                copies.push(copy_value(&items[i]));
                i += 1;
            }
            let copy = TomlValue::Array(copies);
            assert(copy@->Array_0 =~= trees);
            copy
        },
        TomlValue::Table(table) => TomlValue::Table(copy_table(table)),
    }
}

/// Copies a table, entry by entry.
fn copy_table(table: &TomlTable) -> (copy: TomlTable)
    ensures
        copy@ == table@,
    decreases TomlTree::Table(table@), 0int,
{
    let pairs = map_entries(table);
    let ghost tree = TomlTree::Table(table@);
    let ghost said = lent_pairs(pairs@);
    let mut copy = TomlTable::new();
    let mut i: usize = 0;
    while i < pairs.len()
        invariant
            i <= pairs@.len(),
            tree == TomlTree::Table(table@),
            said == lent_pairs(pairs@),
            lists_entries(said, table@),
            forall|j: int|
                0 <= j < i ==> copy@.dom().contains((#[trigger] said[j]).0) && copy@[said[j].0]
                    == said[j].1,
            forall|key: Seq<char>| #[trigger]
                copy@.dom().contains(key) ==> table@.dom().contains(key),
        decreases pairs.len() - i,
    {
        let (key, value) = pairs[i];
        assert(said[i as int] == (key@, value@));
        assert(tree->Table_0.dom().contains(said[i as int].0));
        assert(decreases_to!(tree => tree->Table_0[key@]));
        copy.insert(key.clone(), copy_value(value));
        i += 1;
    }
    assert(copy@ =~= table@);
    copy
}

impl Clone for TomlTable {
    fn clone(&self) -> (copy: Self)
        ensures
            copy@ == self@,
    {
        copy_table(self)
    }
}

impl Clone for TomlValue {
    fn clone(&self) -> (copy: Self)
        ensures
            copy@ == self@,
    {
        copy_value(self)
    }
}

/// Tells whether two floats are equal, given their bits.
fn equal_floats(left: u64, right: u64) -> (answer: bool)
    ensures
        answer == floats_agree(float_tree(left), float_tree(right)),
{
    let left_magnitude: u64 = left % 0x8000_0000_0000_0000;
    let right_magnitude: u64 = right % 0x8000_0000_0000_0000;
    left_magnitude <= 0x7ff0_0000_0000_0000 && right_magnitude <= 0x7ff0_0000_0000_0000 && (left
        == right || (left_magnitude == 0 && right_magnitude == 0))
}

/// Tells whether two values are equal.
fn equal_values(left: &TomlValue, right: &TomlValue) -> (answer: bool)
    ensures
        answer == trees_agree(left@, right@),
    decreases left@, 1int,
{
    match (left, right) {
        (TomlValue::String(a), TomlValue::String(b)) => *a == *b,
        (TomlValue::Integer(a), TomlValue::Integer(b)) => *a == *b,
        (TomlValue::Float(a), TomlValue::Float(b)) => equal_floats(*a, *b),
        (TomlValue::Boolean(a), TomlValue::Boolean(b)) => *a == *b,
        (TomlValue::Datetime(a), TomlValue::Datetime(b)) => *a == *b,
        (TomlValue::Array(a), TomlValue::Array(b)) => {
            if a.len() != b.len() {
                return false;
            }
            let ghost lefts = left@->Array_0;
            let ghost rights = right@->Array_0;
            let mut i: usize = 0;
            while i < a.len()
                invariant
                    i <= a@.len(),
                    a@.len() == b@.len(),
                    left@ == TomlTree::Array(lefts),
                    right@ == TomlTree::Array(rights),
                    lefts.len() == a@.len(),
                    rights.len() == b@.len(),
                    *left == TomlValue::Array(*a),
                    *right == TomlValue::Array(*b),
                    forall|j: int| 0 <= j < i ==> trees_agree(#[trigger] lefts[j], rights[j]),
                decreases a.len() - i,
            {
                assert(lefts[i as int] == a@[i as int]@);
                assert(rights[i as int] == b@[i as int]@);
                assert(decreases_to!(left@ => left@->Array_0));
                assert(decreases_to!(lefts => lefts[i as int]));
                if !equal_values(&a[i], &b[i]) {
                    assert(!trees_agree(lefts[i as int], rights[i as int]));
                    return false;
                }
                i += 1;
            }
            true
        },
        (TomlValue::Table(a), TomlValue::Table(b)) => equal_tables(a, b),
        _ => false,
    }
}

/// Tells whether two tables are equal.
fn equal_tables(left: &TomlTable, right: &TomlTable) -> (answer: bool)
    ensures
        answer == trees_agree(TomlTree::Table(left@), TomlTree::Table(right@)),
    decreases TomlTree::Table(left@), 0int,
{
    let lefts = map_entries(left);
    let rights = map_entries(right);
    let ghost tree = TomlTree::Table(left@);
    let ghost left_said = lent_pairs(lefts@);
    let ghost right_said = lent_pairs(rights@);
    let mut i: usize = 0;
    while i < lefts.len()
        invariant
            i <= lefts@.len(),
            tree == TomlTree::Table(left@),
            left_said == lent_pairs(lefts@),
            lists_entries(left_said, left@),
            forall|j: int|
                0 <= j < i ==> right@.dom().contains((#[trigger] left_said[j]).0) && trees_agree(
                    left@[left_said[j].0],
                    right@[left_said[j].0],
                ),
        decreases lefts.len() - i,
    {
        let (key, value) = lefts[i];
        assert(left_said[i as int] == (key@, value@));
        assert(tree->Table_0.dom().contains(left_said[i as int].0));
        assert(decreases_to!(tree => tree->Table_0[key@]));
        match right.get(key.as_str()) {
            Some(other) => {
                if !equal_values(value, other) {
                    assert(!trees_agree(left@[key@], right@[key@]));
                    return false;
                }
            },
            None => {
                return false;
            },
        }
        i += 1;
    }
    let mut k: usize = 0;
    while k < rights.len()
        invariant
            k <= rights@.len(),
            right_said == lent_pairs(rights@),
            lists_entries(right_said, right@),
            forall|j: int| 0 <= j < k ==> left@.dom().contains((#[trigger] right_said[j]).0),
        decreases rights.len() - k,
    {
        let (key, value) = rights[k];
        assert(right_said[k as int] == (key@, value@));
        if left.get(key.as_str()).is_none() {
            return false;
        }
        k += 1;
    }
    assert(left@.dom() =~= right@.dom());
    true
}

impl PartialEq for TomlValue {
    fn eq(&self, other: &Self) -> (answer: bool) {
        equal_values(self, other)
    }
}

impl vstd::std_specs::cmp::PartialEqSpecImpl for TomlValue {
    open spec fn obeys_eq_spec() -> bool {
        true
    }

    open spec fn eq_spec(&self, other: &Self) -> bool {
        trees_agree(self@, other@)
    }
}

impl PartialEq for TomlTable {
    fn eq(&self, other: &Self) -> (answer: bool) {
        equal_tables(self, other)
    }
}

impl vstd::std_specs::cmp::PartialEqSpecImpl for TomlTable {
    open spec fn obeys_eq_spec() -> bool {
        true
    }

    open spec fn eq_spec(&self, other: &Self) -> bool {
        trees_agree(TomlTree::Table(self@), TomlTree::Table(other@))
    }
}

/// Merges `overlay` into `base`, giving `overlay` precedence.
pub fn merge_toml_values(base: &mut TomlValue, overlay: TomlValue)
    ensures
        final(base)@ == merge_trees(old(base)@, overlay@),
    decreases overlay@, 1int,
{
    match overlay {
        TomlValue::Table(upper) => match base {
            TomlValue::Table(lower) => {
                merge_tables(lower, upper);
            },
            _ => {
                *base = TomlValue::Table(upper);
            },
        },
        _ => {
            *base = overlay;
        },
    }
}

/// Merges the entries of `upper` into `lower`, giving `upper` precedence.
fn merge_tables(lower: &mut TomlTable, upper: TomlTable)
    ensures
        TomlTree::Table(final(lower)@) == merge_trees(
            TomlTree::Table(old(lower)@),
            TomlTree::Table(upper@),
        ),
    decreases TomlTree::Table(upper@), 0int,
{
    let ghost before = lower@;
    let ghost goal = merge_trees(TomlTree::Table(lower@), TomlTree::Table(upper@))->Table_0;
    let mut pairs = upper.into_entries();
    let ghost all = pairs@;
    let ghost said = said_pairs(all);
    while pairs.len() > 0
        invariant
            said == said_pairs(all),
            lists_entries(said, upper@),
            pairs@.len() <= all.len(),
            pairs@ == all.take(pairs@.len() as int),
            TomlTree::Table(goal) == merge_trees(TomlTree::Table(before), TomlTree::Table(upper@)),
            forall|key: Seq<char>|
                !upper@.dom().contains(key) ==> (lower@.dom().contains(key)
                    <==> #[trigger] before.dom().contains(key)) && lower@[key] == before[key],
            forall|j: int|
                0 <= j < pairs@.len() ==> (lower@.dom().contains((#[trigger] said[j]).0)
                    <==> before.dom().contains(said[j].0)) && lower@[said[j].0]
                    == before[said[j].0],
            forall|j: int|
                pairs@.len() <= j < said.len() ==> lower@.dom().contains((#[trigger] said[j]).0)
                    && lower@[said[j].0] == goal[said[j].0],
        decreases pairs.len(),
    {
        let ghost last = pairs@.len() - 1;
        if let Some((key, value)) = pairs.pop() {
            assert(said[last] == (key@, value@));
            assert(decreases_to!(TomlTree::Table(upper@) => upper@[key@]));
            match lower.get_mut(key.as_str()) {
                Some(existing) => merge_toml_values(existing, value),
                None => lower.insert(key, value),
            }
        }
    }
    assert(lower@ =~= goal);
}

} // verus!
