use awsmfa::{ConfError, Profile};

fn build() -> Profile {
    Profile::new("test")
        .unwrap()
        .set("region", "us-east-1")
        .set("output", "json")
}

#[test]
fn it_formats_to_string() {
    let p = build();
    let fmt = |p: &str| format!("[{p}]");
    assert_eq!(p.format(fmt), "[test]\nregion = us-east-1\noutput = json");
}

#[test]
fn it_gets_value_from_key() {
    let p = build();
    assert_eq!(p.get("region"), Some("us-east-1"));
    assert_eq!(p.get("output"), Some("json"));
    assert_eq!(p.get("unknown"), None);
}

#[test]
fn it_sets_value() {
    let p = build();
    let p = p.set("foo", "bar");

    assert_eq!(p.get("foo"), Some("bar"));

    let p = p.set("foo", "foobar");

    assert_eq!(p.get("foo"), Some("foobar"));
}

#[test]
fn it_removes_value() {
    let p = build();
    assert_eq!(p.get("region"), Some("us-east-1"));

    let p = p.remove("region");
    assert_eq!(p.get("region"), None);
}

#[test]
fn it_equals_when_profile_and_key_values_are_all_matched() {
    let base = build();
    let reordered = Profile::new("test")
        .unwrap()
        .set("output", "json")
        .set("region", "us-east-1");

    let fmt = |p: &str| format!("[{p}]");

    assert_ne!(base.format(fmt), reordered.format(fmt));

    assert_eq!(base, reordered);

    let renamed = Profile::new("test_v2")
        .unwrap()
        .set("region", "us-east-1")
        .set("output", "json");

    assert_ne!(base, renamed);

    let extended = Profile::new("test")
        .unwrap()
        .set("output", "json")
        .set("region", "us-east-1")
        .set("foo", "bar");

    assert_ne!(base, extended);
}

#[test]
fn new_refuses_the_empty_name() {
    assert!(matches!(Profile::new(""), Err(ConfError::InvalidInput)));
    assert_eq!(Profile::new("a").unwrap().name(), "a");
    assert!(Profile::new("a").unwrap().lines().is_empty());
}

#[test]
fn push_keeps_the_line_as_it_is() {
    let p = Profile::new("test")
        .unwrap()
        .push("  region=us-east-1  ")
        .push("no pair here");
    assert_eq!(
        p.lines(),
        vec!["  region=us-east-1  ".to_string(), "no pair here".to_string()]
    );
    assert_eq!(p.get("region"), Some("us-east-1"));
    assert_eq!(p.get("no pair here"), None);
}

#[test]
fn rename_changes_the_name_only() {
    let p = build().rename("other");
    assert_eq!(p.name(), "other");
    assert_eq!(
        p.lines(),
        vec!["region = us-east-1".to_string(), "output = json".to_string()]
    );
}

#[test]
fn first_assignment_wins_on_lookup() {
    let p = Profile::new("test")
        .unwrap()
        .push("region = first")
        .push("region = second");
    assert_eq!(p.get("region"), Some("first"));
    assert_eq!(
        p.pairs(),
        vec![("region".to_string(), "first".to_string())]
    );
}

#[test]
fn set_removes_every_earlier_assignment() {
    let p = Profile::new("test")
        .unwrap()
        .push("region = first")
        .push("output = json")
        .push("region=second")
        .set("region", "third");
    assert_eq!(
        p.lines(),
        vec!["output = json".to_string(), "region = third".to_string()]
    );
}

#[test]
fn set_twice_changes_nothing() {
    let once = build().set("foo", "bar");
    let twice = build().set("foo", "bar").set("foo", "bar");
    assert_eq!(once.lines(), twice.lines());
    assert_eq!(once, twice);
}

#[test]
fn remove_of_an_absent_key_changes_nothing() {
    let p = build().remove("unknown");
    assert_eq!(p.lines(), build().lines());
}

#[test]
fn value_splits_at_the_first_equals_sign() {
    let p = Profile::new("test").unwrap().push("key = a = b");
    assert_eq!(p.get("key"), Some("a = b"));
    let p = Profile::new("test").unwrap().set("token", "abc==");
    assert_eq!(p.get("token"), Some("abc=="));
}

#[test]
fn values_are_trimmed_on_lookup() {
    let p = Profile::new("test").unwrap().set("key", "  spaced out \t");
    assert_eq!(p.lines(), vec!["key =   spaced out \t".to_string()]);
    assert_eq!(p.get("key"), Some("spaced out"));
}

#[test]
fn equality_ignores_lines_without_a_pair() {
    let a = build().push("# a remark");
    let b = build();
    assert_eq!(a, b);
    assert!(a.equals(&b));
}

#[test]
fn format_under_joins_header_and_lines() {
    assert_eq!(build().format_under("<h>"), "<h>\nregion = us-east-1\noutput = json");
    assert_eq!(Profile::new("x").unwrap().format_under("[x]"), "[x]\n");
}

#[test]
fn pairs_lists_keys_in_line_order() {
    let p = build().push("plain").push("output = yaml");
    assert_eq!(
        p.pairs(),
        vec![
            ("region".to_string(), "us-east-1".to_string()),
            ("output".to_string(), "json".to_string()),
        ]
    );
}

#[test]
fn clone_keeps_name_and_lines() {
    let p = build();
    let q = p.clone();
    assert_eq!(q.name(), "test");
    assert_eq!(q.lines(), p.lines());
}
