use session_config::product_defaults::{ConfigLayerSource, ProductDefaults};
use session_config::text::is_blank;
use session_config::toml_value::{
    merge_toml_values, TomlDate, TomlDatetime, TomlOffset, TomlTable, TomlTime, TomlValue,
};

fn feature(defaults: &ProductDefaults, key: &str) -> Option<bool> {
    defaults
        .config()
        .get("features")
        .and_then(TomlValue::as_table)
        .and_then(|features| features.get(key))
        .and_then(TomlValue::as_bool)
}

fn table(entries: Vec<(&str, TomlValue)>) -> TomlValue {
    let mut table = TomlTable::new();
    for (key, value) in entries {
        table.insert(key.to_string(), value);
    }
    TomlValue::Table(table)
}

#[test]
fn product_default_fragments_preserve_backend_precedence_order() {
    let defaults = ProductDefaults::from_toml_fragments(&[
        "[features]\nplugin_sharing = false\n",
        "[features]\nplugin_sharing = true\n",
    ])
    .expect("fragments should parse");

    assert_eq!(
        defaults
            .config()
            .get("features")
            .and_then(TomlValue::as_table)
            .and_then(|features| features.get("plugin_sharing"))
            .and_then(TomlValue::as_bool),
        Some(false)
    );
}

#[test]
fn every_kind_of_value_is_read() {
    let defaults = ProductDefaults::from_toml_str(concat_lines(&[
        "name = \"x\"",
        "count = -3",
        "ratio = 1.5",
        "on = true",
        "day = 1979-05-27",
        "list = [1, [false], {a = 2}]",
        "[nested.deep]",
        "leaf = 0",
    ])
    .as_str())
    .expect("document should parse");
    let config = defaults.config();
    assert_eq!(config.get("name"), Some(&TomlValue::String("x".to_string())));
    assert_eq!(config.get("count"), Some(&TomlValue::Integer(-3)));
    assert_eq!(config.get("ratio"), Some(&TomlValue::Float(1.5f64.to_bits())));
    assert_eq!(config.get("on"), Some(&TomlValue::Boolean(true)));
    assert_eq!(
        config.get("day"),
        Some(&TomlValue::Datetime(TomlDatetime {
            date: Some(TomlDate {
                year: 1979,
                month: 5,
                day: 27
            }),
            time: None,
            offset: None,
        }))
    );
    assert_eq!(
        config.get("list"),
        Some(&TomlValue::Array(vec![
            TomlValue::Integer(1),
            TomlValue::Array(vec![TomlValue::Boolean(false)]),
            table(vec![("a", TomlValue::Integer(2))]),
        ]))
    );
    let deep = config.get("nested").and_then(|nested| nested.get("deep"));
    assert_eq!(deep, Some(&table(vec![("leaf", TomlValue::Integer(0))])));
}

fn concat_lines(lines: &[&str]) -> String {
    lines.join("\n")
}

#[test]
fn blank_text_is_the_empty_configuration() {
    for blank in ["", " ", "\n\t \r\n", "\u{a0}\u{2003}"] {
        let defaults = ProductDefaults::from_toml_str(blank).expect("blank text should be accepted");
        assert_eq!(defaults, ProductDefaults::default());
        assert!(defaults.is_empty());
    }
}

#[test]
fn text_that_is_not_toml_is_refused() {
    let error = ProductDefaults::from_toml_str("[features\n").expect_err("should be refused");
    let expected = toml::from_str::<toml::Value>("[features\n").expect_err("should be refused");
    assert_eq!(error.source, expected);
}

#[test]
fn the_lowest_precedence_error_is_reported() {
    let error = ProductDefaults::from_toml_fragments(&["a = 1", "b =", "", "c", "d = 1"])
        .expect_err("should be refused");
    let expected = toml::from_str::<toml::Value>("c").expect_err("should be refused");
    assert_eq!(error.source, expected);
}

#[test]
fn fragments_are_merged_table_by_table() {
    let defaults = ProductDefaults::from_toml_fragments(&[
        "[features]\na = true\n[model]\nname = \"high\"\n",
        "",
        "model = 3\n[features]\na = false\nb = true\n",
        "top = 1\n[features]\nc = false\n",
    ])
    .expect("fragments should parse");
    assert_eq!(feature(&defaults, "a"), Some(true));
    assert_eq!(feature(&defaults, "b"), Some(true));
    assert_eq!(feature(&defaults, "c"), Some(false));
    assert_eq!(
        defaults.config().get("model"),
        Some(&table(vec![("name", TomlValue::String("high".to_string()))]))
    );
    assert_eq!(defaults.config().get("top"), Some(&TomlValue::Integer(1)));
    assert_eq!(defaults.config().get("absent"), None);
}

#[test]
fn read_fragments_merge_like_their_texts() {
    let high = "[features]\na = true\n";
    let low = "x = [1]\n[features]\na = false\nb = 2\n";
    let from_texts =
        ProductDefaults::from_toml_fragments(&[high, low]).expect("fragments should parse");
    let values = [low, high]
        .iter()
        .map(|text| {
            ProductDefaults::from_toml_str(text)
                .expect("fragment should parse")
                .config()
                .clone()
        })
        .collect();
    assert_eq!(ProductDefaults::from_fragments(values), from_texts);
}

#[test]
fn a_single_fragment_stands_alone() {
    let text = "a = 1\n[b]\nc = \"d\"\n";
    assert_eq!(
        ProductDefaults::from_toml_fragments(&[text]).expect("fragment should parse"),
        ProductDefaults::from_toml_str(text).expect("fragment should parse")
    );
}

#[test]
fn no_fragment_makes_no_layer() {
    let defaults = ProductDefaults::from_toml_fragments(&[]).expect("nothing to refuse");
    assert!(defaults.is_empty());
    assert!(defaults.into_config_layer().is_none());
}

#[test]
fn overlay_takes_the_place_of_what_is_no_table() {
    let mut base = TomlValue::Integer(1);
    merge_toml_values(&mut base, table(vec![]));
    assert_eq!(base, table(vec![]));

    let mut base = table(vec![("k", table(vec![("x", TomlValue::Boolean(true))]))]);
    merge_toml_values(&mut base, table(vec![("k", TomlValue::Boolean(false))]));
    assert_eq!(base, table(vec![("k", TomlValue::Boolean(false))]));
}

#[test]
fn empty_overlay_changes_nothing() {
    let mut base = table(vec![("k", TomlValue::Integer(7))]);
    let before = base.clone();
    merge_toml_values(&mut base, table(vec![]));
    assert_eq!(base, before);
}

#[test]
fn features_are_switched() {
    let mut defaults = ProductDefaults::default();
    assert!(defaults.is_empty());
    defaults
        .set_feature_enabled("plugin_sharing", true)
        .set_feature_enabled("other", false)
        .set_feature_enabled("plugin_sharing", false);
    assert!(!defaults.is_empty());
    assert_eq!(feature(&defaults, "plugin_sharing"), Some(false));
    assert_eq!(feature(&defaults, "other"), Some(false));
}

#[test]
fn switching_keeps_everything_else() {
    let mut defaults =
        ProductDefaults::from_toml_str("a = 1\n[features]\nkept = true\nnumber = 3\n")
            .expect("document should parse");
    defaults.set_feature_enabled("new", true);
    assert_eq!(
        defaults,
        ProductDefaults::from_toml_str("a = 1\n[features]\nkept = true\nnumber = 3\nnew = true\n")
            .expect("document should parse")
    );
}

#[test]
fn switching_gives_up_what_is_no_table() {
    let expected = table(vec![(
        "features",
        table(vec![("f", TomlValue::Boolean(true))]),
    )]);

    let mut defaults = ProductDefaults::from_config(TomlValue::String("scalar".to_string()));
    assert!(defaults.is_empty());
    defaults.set_feature_enabled("f", true);
    assert_eq!(defaults.config(), &expected);

    let mut defaults = ProductDefaults::from_toml_str("features = 4").expect("should parse");
    defaults.set_feature_enabled("f", true);
    assert_eq!(defaults.config(), &expected);
}

#[test]
fn features_can_be_switched_in_either_order() {
    let mut one = ProductDefaults::default();
    one.set_feature_enabled("a", true).set_feature_enabled("b", false);
    let mut other = ProductDefaults::default();
    other.set_feature_enabled("b", false).set_feature_enabled("a", true);
    assert_eq!(one, other);
}

#[test]
fn defaults_become_a_layer() {
    let defaults = ProductDefaults::from_toml_str("a = 1").expect("should parse");
    let config = defaults.config().clone();
    let layer = defaults.into_config_layer().expect("should be a layer");
    assert_eq!(layer.source, ConfigLayerSource::ProductDefaults);
    assert_eq!(layer.config, config);
}

#[test]
fn a_copy_says_the_same() {
    let defaults = ProductDefaults::from_toml_str("a = [1.25, {b = \"c\"}]\n[d]\ne = 1979-05-27")
        .expect("should parse");
    assert_eq!(defaults.clone(), defaults);
}

#[test]
fn table_entries_are_handed_out_once() {
    let mut table = TomlTable::new();
    assert!(table.is_empty());
    table.insert("b".to_string(), TomlValue::Integer(1));
    table.insert("a".to_string(), TomlValue::Integer(2));
    table.insert("b".to_string(), TomlValue::Integer(3));
    if let Some(value) = table.get_mut("a") {
        *value = TomlValue::Boolean(true);
    }
    assert!(table.get_mut("c").is_none());
    let mut entries = table.into_entries();
    entries.sort_by(|one, other| one.0.cmp(&other.0));
    assert_eq!(
        entries,
        vec![
            ("a".to_string(), TomlValue::Boolean(true)),
            ("b".to_string(), TomlValue::Integer(3)),
        ]
    );
}

#[test]
fn exactly_white_space_is_blank() {
    let white_space = [
        '\t', '\n', '\u{b}', '\u{c}', '\r', ' ', '\u{85}', '\u{a0}', '\u{1680}', '\u{2000}',
        '\u{2001}', '\u{2002}', '\u{2003}', '\u{2004}', '\u{2005}', '\u{2006}', '\u{2007}',
        '\u{2008}', '\u{2009}', '\u{200a}', '\u{2028}', '\u{2029}', '\u{202f}', '\u{205f}',
        '\u{3000}',
    ];
    let mut buffer = [0; 4];
    for c in '\0'..=char::MAX {
        assert_eq!(is_blank(c.encode_utf8(&mut buffer)), white_space.contains(&c));
    }
}

#[test]
fn an_ideographic_space_and_a_newline_are_blank() {
    let defaults = ProductDefaults::from_toml_str("\u{3000}\n").expect("should be accepted");
    assert!(defaults.is_empty());
}

#[test]
fn floats_are_compared_as_numbers() {
    let read = |text: &str| ProductDefaults::from_toml_str(text).expect("should parse");
    for (one, other) in [
        ("x = 1.5", "x = 15e-1"),
        ("x = 0.0", "x = -0.0"),
        ("x = [inf, {y = 0.0}]", "x = [+inf, {y = -0.0}]"),
    ] {
        assert_eq!(read(one), read(other));
    }
    for (one, other) in [
        ("x = 1.5", "x = -1.5"),
        ("x = inf", "x = -inf"),
        ("x = nan", "x = nan"),
        ("x = [{y = nan}]", "x = [{y = nan}]"),
        ("x = 1.0", "x = 1"),
    ] {
        assert_ne!(read(one), read(other));
    }
}

#[test]
fn floats_keep_their_sign() {
    let read = |text: &str| {
        let defaults = ProductDefaults::from_toml_str(text).expect("should parse");
        match defaults.config().get("x") {
            Some(TomlValue::Float(bits)) => f64::from_bits(*bits),
            other => panic!("no float: {other:?}"),
        }
    };
    assert!(read("x = nan").is_nan() && read("x = nan").is_sign_positive());
    assert!(read("x = -nan").is_nan() && read("x = -nan").is_sign_negative());
    assert!(read("x = -0.0").is_sign_negative());
    assert_eq!(read("x = -2.25"), -2.25);
}

#[test]
fn values_are_compared_by_kind_and_content() {
    let read = |text: &str| ProductDefaults::from_toml_str(text).expect("should parse");
    let whole = "a = \"s\"\nb = [1, true]\nc = 1979-05-27\n[t]\nx = 1\n";
    assert_eq!(read(whole), read(whole));
    for other in [
        "",
        "a = \"s\"\nb = [1, true]\nc = 1979-05-27\n[t]\nx = 2\n",
        "a = \"s\"\nb = [1, true]\nc = 1979-05-27\n[t]\nx = 1\ny = 1\n",
        "a = \"s\"\nb = [1, true]\nc = 1979-05-28\n[t]\nx = 1\n",
        "a = \"s\"\nb = [1]\nc = 1979-05-27\n[t]\nx = 1\n",
        "a = \"t\"\nb = [1, true]\nc = 1979-05-27\n[t]\nx = 1\n",
        "a = \"s\"\nb = [1, false]\nc = 1979-05-27\n[t]\nx = 1\n",
    ] {
        assert_ne!(read(whole), read(other));
        assert_ne!(read(other), read(whole));
    }
}

#[test]
fn blank_fragments_change_nothing() {
    let without = ["[t]\na = 1\n", "[t]\na = 2\nb = 3\n"];
    let expected = ProductDefaults::from_toml_fragments(&without).expect("should parse");
    for at in 0..3 {
        let mut with = without.to_vec();
        with.insert(at, " \n\u{2003}");
        assert_eq!(
            ProductDefaults::from_toml_fragments(&with).expect("should parse"),
            expected
        );
    }
}

#[test]
fn a_scalar_below_other_fragments_is_given_up() {
    let datetime = "\"$__toml_private_datetime\" = \"1979-05-27\"";
    let high = "a = 1";
    let expected = ProductDefaults::from_toml_str(high).expect("should parse");
    for fragments in [vec![high, datetime], vec![high, "", datetime]] {
        assert_eq!(
            ProductDefaults::from_toml_fragments(&fragments).expect("should parse"),
            expected
        );
    }
}

#[test]
fn date_times_are_read_field_by_field() {
    let read = |text: &str| {
        let defaults = ProductDefaults::from_toml_str(text).expect("should parse");
        match defaults.config().get("x") {
            Some(TomlValue::Datetime(datetime)) => *datetime,
            other => panic!("no date-time: {other:?}"),
        }
    };
    let date = Some(TomlDate {
        year: 1987,
        month: 7,
        day: 5,
    });
    let time = Some(TomlTime {
        hour: 17,
        minute: 45,
        second: 1,
        nanosecond: 120_000_000,
    });
    for (text, offset) in [
        ("x = 1987-07-05T17:45:01.12Z", Some(TomlOffset::Z)),
        (
            "x = 1987-07-05T17:45:01.12-01:30",
            Some(TomlOffset::Custom { minutes: -90 }),
        ),
        ("x = 1987-07-05T17:45:01.12", None),
    ] {
        assert_eq!(read(text), TomlDatetime { date, time, offset });
    }
    assert_eq!(
        read("x = 17:45:01.120"),
        TomlDatetime {
            date: None,
            time,
            offset: None
        }
    );
}
