use awsmfa::{capture, ConfError, Content, ContentBuilder, HeaderStyle, Setting};
use awsmfa::{PROFILE_CONFIG, PROFILE_CREDENTIALS};

const TEST_CONFIG: &str = "[default]
region = us-east-1
output = yaml

[profile test]
region = ap-northeast-1
output = json
";

fn build_content() -> Content {
    ContentBuilder::new()
        .set_path("mock/test_config")
        .set_reg_profile(PROFILE_CONFIG)
        .load(TEST_CONFIG)
        .unwrap()
}

#[test]
fn it_gets_file_content_from_builder() {
    let content = build_content();
    assert_eq!(content.len(), 2);

    let fragment = content.fragment(0).unwrap();
    assert_eq!(fragment.name(), "default");
    assert_eq!(
        fragment.lines(),
        vec!["region = us-east-1".to_owned(), "output = yaml".to_owned(),]
    );

    let fragment = content.fragment(1).unwrap();
    assert_eq!(fragment.name(), "test");
    assert_eq!(
        fragment.lines(),
        vec![
            "region = ap-northeast-1".to_owned(),
            "output = json".to_owned(),
        ]
    );
}

#[test]
fn it_gets_profile_value_from_key() {
    let content = build_content();
    assert_eq!(content.get("test", "region").unwrap(), "ap-northeast-1");
    assert!(content.get("unknown", "region").is_err());
    assert!(content.get("test", "unknown").is_err());
}

#[test]
fn it_adds_empty_profile() {
    let content = build_content().add("test_v2").unwrap();

    assert_eq!(content.len(), 3);

    let fragment = content.fragment(2).unwrap();
    assert_eq!(fragment.name(), "test_v2");
    assert!(fragment.lines().is_empty());
}

#[test]
fn it_sets_profile_value() {
    let content = build_content()
        .set("default", "mfa_serial", "ABCDEFGHIJKLMNOPQRST")
        .unwrap();

    assert_eq!(
        content.get("default", "mfa_serial").unwrap(),
        "ABCDEFGHIJKLMNOPQRST",
    );
}

#[test]
fn it_removes_profile_value() {
    let content = build_content().remove("test", "region").unwrap();
    assert!(content.get("test", "region").is_err());
}

#[test]
fn it_copies_profile() {
    let content = build_content().copy("test", "test_v2").unwrap();

    assert_eq!(content.len(), 3);

    let fragment = content.fragment(2).unwrap();
    assert_eq!(fragment.name(), "test_v2");
    assert_eq!(
        fragment.lines(),
        vec![
            "region = ap-northeast-1".to_owned(),
            "output = json".to_owned(),
        ]
    );
}

#[test]
fn it_capture_profile_line_from_credentials() {
    let pattern = PROFILE_CREDENTIALS;

    let profile = "[default]";
    assert_eq!(capture(pattern, profile).unwrap(), Some("default"));

    let profile = "[tanaka]";
    assert_eq!(capture(pattern, profile).unwrap(), Some("tanaka"));

    let profile = "[suzuki]";
    assert_eq!(capture(pattern, profile).unwrap(), Some("suzuki"));

    let profile = " [satoh]   ";
    assert_eq!(capture(pattern, profile).unwrap(), Some("satoh"));

    let non_profile = "access_key_id = AAAAAAAAAAAAAAAAAA";
    assert_eq!(capture(pattern, non_profile).unwrap(), None);

    let non_profile = "session_token = abcde[fghijk]lmn";
    assert_eq!(capture(pattern, non_profile).unwrap(), None);
}

#[test]
fn it_capture_profile_line_from_config() {
    let pattern = PROFILE_CONFIG;

    let profile = "[default]";
    assert_eq!(capture(pattern, profile).unwrap(), Some("default"));

    let profile = "[profile tanaka]";
    assert_eq!(capture(pattern, profile).unwrap(), Some("tanaka"));

    let profile = "[profile suzuki]";
    assert_eq!(capture(pattern, profile).unwrap(), Some("suzuki"));

    let profile = " [profile satoh]   ";
    assert_eq!(capture(pattern, profile).unwrap(), Some("satoh"));

    let non_profile = "region = ap-northeast-1";
    assert_eq!(capture(pattern, non_profile).unwrap(), None);

    let non_profile = "foo = bar[profile baz]foobar";
    assert_eq!(capture(pattern, non_profile).unwrap(), None);
}

#[test]
fn end_to_end_example() {
    let text = "[default]\nregion = us-east-1\noutput = yaml\n\n[profile test]\nregion = ap-northeast-1\noutput = json";
    let content = ContentBuilder::new()
        .set_path("config")
        .set_reg_profile(PROFILE_CONFIG)
        .load(text)
        .unwrap();
    assert_eq!(content.len(), 2);
    assert_eq!(content.fragment(0).unwrap().name(), "default");
    assert_eq!(content.fragment(1).unwrap().name(), "test");
    assert_eq!(content.get("test", "region").unwrap(), "ap-northeast-1");
    match content.get("unknown", "region") {
        Err(ConfError::NotFound { profile, key, file }) => {
            assert_eq!(profile, "unknown");
            assert_eq!(key, None);
            assert_eq!(file, None);
        }
        other => panic!("unexpected: {:?}", other),
    }
}

#[test]
fn default_header_is_read_under_the_config_pattern() {
    let content = ContentBuilder::new()
        .set_path("config")
        .set_reg_profile(PROFILE_CONFIG)
        .load("[default]\nregion = us-east-1")
        .unwrap();
    assert_eq!(content.len(), 1);
    assert_eq!(content.fragment(0).unwrap().name(), "default");
    assert_eq!(content.get("default", "region").unwrap(), "us-east-1");
    assert_eq!(capture("not a header pattern", "  [default]\t").unwrap(), Some("default"));
}

#[test]
fn missing_key_is_reported_with_profile_and_key() {
    match build_content().get("test", "unknown") {
        Err(ConfError::NotFound { profile, key, file }) => {
            assert_eq!(profile, "test");
            assert_eq!(key, Some("unknown".to_string()));
            assert_eq!(file, None);
        }
        other => panic!("unexpected: {:?}", other),
    }
}

#[test]
fn add_refuses_the_empty_name() {
    assert!(matches!(build_content().add(""), Err(ConfError::InvalidInput)));
}

#[test]
fn add_clears_a_profile_that_is_there() {
    let content = build_content().add("default").unwrap();
    assert_eq!(content.len(), 2);
    assert_eq!(content.fragment(0).unwrap().name(), "test");
    assert_eq!(content.fragment(1).unwrap().name(), "default");
    assert!(content.fragment(1).unwrap().lines().is_empty());
}

#[test]
fn set_moves_the_profile_to_the_end() {
    let content = build_content().set("default", "region", "eu-west-1").unwrap();
    assert_eq!(content.len(), 2);
    assert_eq!(content.fragment(0).unwrap().name(), "test");
    let last = content.fragment(1).unwrap();
    assert_eq!(last.name(), "default");
    assert_eq!(
        last.lines(),
        vec!["output = yaml".to_owned(), "region = eu-west-1".to_owned()]
    );
}

#[test]
fn operations_on_an_absent_profile_fail() {
    assert!(matches!(
        build_content().set("nobody", "a", "b"),
        Err(ConfError::NotFound { .. })
    ));
    assert!(matches!(
        build_content().remove("nobody", "a"),
        Err(ConfError::NotFound { .. })
    ));
    assert!(matches!(
        build_content().copy("nobody", "test"),
        Err(ConfError::NotFound { .. })
    ));
}

#[test]
fn copy_keeps_the_source_and_overwrites_the_target() {
    let content = build_content().copy("test", "default").unwrap();
    assert_eq!(content.len(), 2);
    assert_eq!(content.get("default", "region").unwrap(), "ap-northeast-1");
    assert_eq!(content.get("default", "output").unwrap(), "json");
    assert_eq!(content.get("test", "region").unwrap(), "ap-northeast-1");
    assert_eq!(content.get("test", "output").unwrap(), "json");
}

#[test]
fn write_renders_sections_with_an_empty_line_between() {
    let content = build_content();
    let fmt = |p: &str| format!("<{p}>");
    assert_eq!(
        content.write(&fmt),
        "<default>\nregion = us-east-1\noutput = yaml\n\n<test>\nregion = ap-northeast-1\noutput = json"
    );
    assert_eq!(
        content.write_as(HeaderStyle::Prefixed),
        "[default]\nregion = us-east-1\noutput = yaml\n\n[profile test]\nregion = ap-northeast-1\noutput = json"
    );
    assert_eq!(
        content.write_as(HeaderStyle::Bare),
        "[default]\nregion = us-east-1\noutput = yaml\n\n[test]\nregion = ap-northeast-1\noutput = json"
    );
}

#[test]
fn a_store_without_sections_renders_as_nothing() {
    let content = ContentBuilder::new()
        .set_path("config")
        .set_reg_profile(PROFILE_CONFIG)
        .load("")
        .unwrap();
    assert_eq!(content.len(), 0);
    assert_eq!(content.write_as(HeaderStyle::Prefixed), "");
    assert!(content.fragment(0).is_none());
}

#[test]
fn builder_reports_what_is_missing() {
    assert!(matches!(
        ContentBuilder::new().load("x"),
        Err(ConfError::ParseMisconfigured(Setting::Pattern))
    ));
    assert!(matches!(
        ContentBuilder::new().set_path("p").load("x"),
        Err(ConfError::ParseMisconfigured(Setting::Pattern))
    ));
    assert!(matches!(
        ContentBuilder::new().set_reg_profile(PROFILE_CONFIG).load("x"),
        Err(ConfError::ParseMisconfigured(Setting::Path))
    ));
    assert!(matches!(
        ContentBuilder::new().set_reg_profile(PROFILE_CONFIG).source(),
        Err(ConfError::ParseMisconfigured(Setting::Path))
    ));
    assert_eq!(
        ContentBuilder::new()
            .set_reg_profile(PROFILE_CONFIG)
            .set_path("some/where")
            .source()
            .unwrap(),
        "some/where"
    );
}

#[test]
fn a_pattern_that_is_no_regular_expression_is_refused() {
    assert!(matches!(
        ContentBuilder::new()
            .set_path("p")
            .set_reg_profile("[(")
            .load("[a]\nk = v"),
        Err(ConfError::InvalidPattern)
    ));
    assert!(matches!(capture("[(", "[a]"), Err(ConfError::InvalidPattern)));
}

#[test]
fn lines_before_the_first_header_belong_to_no_section() {
    let content = ContentBuilder::new()
        .set_path("credentials")
        .set_reg_profile(PROFILE_CREDENTIALS)
        .load("stray = line\n\n[a]\nk = v\nopaque line\n\n\n[b]\n")
        .unwrap();
    assert_eq!(content.len(), 2);
    assert_eq!(
        content.fragment(0).unwrap().lines(),
        vec!["k = v".to_owned(), "opaque line".to_owned()]
    );
    assert_eq!(content.fragment(1).unwrap().name(), "b");
    assert!(content.fragment(1).unwrap().lines().is_empty());
}

#[test]
fn carriage_returns_before_line_breaks_are_dropped() {
    let content = ContentBuilder::new()
        .set_path("credentials")
        .set_reg_profile(PROFILE_CREDENTIALS)
        .load("[a]\r\nk = v\r\nlast = x\r")
        .unwrap();
    assert_eq!(
        content.fragment(0).unwrap().lines(),
        vec!["k = v".to_owned(), "last = x\r".to_owned()]
    );
    assert_eq!(content.get("a", "last").unwrap(), "x");
}

#[test]
fn a_header_that_captures_nothing_named_opens_no_section() {
    let content = ContentBuilder::new()
        .set_path("p")
        .set_reg_profile(r"^\[(.*)\]$")
        .load("[a]\nk = v\n[]\nlost = line\n[b]\nx = y")
        .unwrap();
    assert_eq!(content.len(), 2);
    assert_eq!(content.fragment(0).unwrap().name(), "a");
    assert_eq!(content.fragment(0).unwrap().lines(), vec!["k = v".to_owned()]);
    assert_eq!(content.fragment(1).unwrap().name(), "b");
    assert_eq!(content.fragment(1).unwrap().lines(), vec!["x = y".to_owned()]);
}

#[test]
fn round_trip_gives_the_store_back() {
    let content = build_content()
        .add("empty")
        .unwrap()
        .set("test", "mfa_serial", "arn:aws:iam::1:mfa/u")
        .unwrap();
    let text = content.write_as(HeaderStyle::Prefixed);
    let again = ContentBuilder::new()
        .set_path("config")
        .set_reg_profile(PROFILE_CONFIG)
        .load(&text)
        .unwrap();
    assert_eq!(again.len(), content.len());
    for i in 0..content.len() {
        let a = content.fragment(i).unwrap();
        let b = again.fragment(i).unwrap();
        assert_eq!(a.name(), b.name());
        assert_eq!(a.lines(), b.lines());
    }
    let text = content.write_as(HeaderStyle::Bare);
    let again = ContentBuilder::new()
        .set_path("credentials")
        .set_reg_profile(PROFILE_CREDENTIALS)
        .load(&text)
        .unwrap();
    assert_eq!(again.len(), content.len());
    for i in 0..content.len() {
        let a = content.fragment(i).unwrap();
        let b = again.fragment(i).unwrap();
        assert_eq!(a.name(), b.name());
        assert_eq!(a.lines(), b.lines());
    }
}
