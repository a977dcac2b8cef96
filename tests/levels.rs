use loudspin::levels::{validate_levels, InvalidLevel, LevelTable, NoSuchLevel};
use loudspin::text::decimal_string;

fn raw(entries: &[(&str, i64)]) -> Vec<(String, i64)> {
    entries.iter().map(|(n, v)| (n.to_string(), *v)).collect()
}

fn lines(t: &LevelTable) -> Vec<String> {
    t.list_lines()
}

#[test]
fn builtins_resolve_with_empty_levels() {
    let t = LevelTable::from_config(&raw(&[])).unwrap();
    assert_eq!(t.translate(&"loud".to_string()), Ok(254));
    assert_eq!(t.translate(&"quiet".to_string()), Ok(128));
    assert_eq!(lines(&t), vec!["loud = 254".to_string(), "quiet = 128".to_string()]);
}

#[test]
fn builtins_can_be_overridden() {
    let t = LevelTable::from_config(&raw(&[("loud", 200), ("quiet", 130)])).unwrap();
    assert_eq!(t.translate(&"loud".to_string()), Ok(200));
    assert_eq!(t.translate(&"quiet".to_string()), Ok(130));
    assert_eq!(t.len(), 2);
}

#[test]
fn configured_level_resolves_case_sensitively() {
    let t = LevelTable::from_config(&raw(&[("medium", 190)])).unwrap();
    assert_eq!(t.lookup(&"medium".to_string()), Some(190));
    assert_eq!(t.lookup(&"Medium".to_string()), None);
    assert_eq!(
        t.translate(&"Medium".to_string()),
        Err(NoSuchLevel { name: "Medium".to_string() })
    );
    assert_eq!(
        lines(&t),
        vec!["medium = 190".to_string(), "loud = 254".to_string(), "quiet = 128".to_string()]
    );
}

#[test]
fn repeated_name_keeps_last_value() {
    let t = LevelTable::from_config(&raw(&[("a", 150), ("a", 160)])).unwrap();
    assert_eq!(t.lookup(&"a".to_string()), Some(160));
    assert_eq!(t.len(), 3);
}

#[test]
fn range_edges_are_accepted() {
    assert_eq!(validate_levels(&raw(&[("low", 128), ("high", 254)])), Ok(()));
}

#[test]
fn value_below_range_is_rejected() {
    assert_eq!(
        validate_levels(&raw(&[("ok", 200), ("low", 127), ("neg", -1)])),
        Err(InvalidLevel { name: "low".to_string(), value: 127 })
    );
}

#[test]
fn value_above_range_is_rejected() {
    let r = LevelTable::from_config(&raw(&[("high", 255)]));
    assert_eq!(r.err(), Some(InvalidLevel { name: "high".to_string(), value: 255 }));
}

#[test]
fn overriding_builtin_out_of_range_is_rejected() {
    let r = LevelTable::from_config(&raw(&[("loud", 300)]));
    assert_eq!(r.err(), Some(InvalidLevel { name: "loud".to_string(), value: 300 }));
}

#[test]
fn unknown_level_is_reported() {
    let t = LevelTable::defaults();
    assert_eq!(
        t.translate(&"turbo".to_string()),
        Err(NoSuchLevel { name: "turbo".to_string() })
    );
}

#[test]
fn set_and_set_default() {
    let mut t = LevelTable::new();
    t.set("x".to_string(), 140);
    t.set_default("x".to_string(), 150);
    assert_eq!(t.lookup(&"x".to_string()), Some(140));
    t.set("x".to_string(), 150);
    assert_eq!(t.lookup(&"x".to_string()), Some(150));
    assert_eq!(t.len(), 1);
    let (name, value) = t.entry(0);
    assert_eq!(name, "x");
    assert_eq!(value, 150);
}

#[test]
fn decimal_rendering() {
    assert_eq!(decimal_string(0), "0");
    assert_eq!(decimal_string(7), "7");
    assert_eq!(decimal_string(42), "42");
    assert_eq!(decimal_string(100), "100");
    assert_eq!(decimal_string(128), "128");
    assert_eq!(decimal_string(255), "255");
}
