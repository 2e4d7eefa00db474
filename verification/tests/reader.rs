use awsmfa::aws::Dialect;
use awsmfa::parser::{parse_sections, Reader};
use awsmfa::{ConfError, Content, ContentBuilder, HeaderStyle, Profile, Setting};
use awsmfa::{PROFILE_CONFIG, PROFILE_CREDENTIALS};

fn names(sections: &[Profile]) -> Vec<String> {
    sections.iter().map(|p| p.name().to_string()).collect()
}

#[test]
fn reader_collects_lines_below_headers() {
    let sections = Reader::new()
        .feed("stray", None)
        .feed("[a]", Some("a"))
        .feed("k = v", None)
        .feed("", None)
        .feed("opaque", None)
        .feed("whatever the line", Some("b"))
        .finish();
    assert_eq!(names(&sections), vec!["a", "b"]);
    assert_eq!(sections[0].lines(), vec!["k = v", "opaque"]);
    assert!(sections[1].lines().is_empty());
}

#[test]
fn reader_treats_the_empty_name_as_no_section() {
    let sections = Reader::new()
        .feed("[a]", Some("a"))
        .feed("k = v", None)
        .feed("[]", Some(""))
        .feed("lost", None)
        .finish();
    assert_eq!(names(&sections), vec!["a"]);
    assert_eq!(sections[0].lines(), vec!["k = v"]);
    assert!(Reader::new().finish().is_empty());
    assert!(Reader::new().feed("x", None).finish().is_empty());
}

#[test]
fn reader_keeps_sections_of_one_name_apart() {
    let sections = Reader::new()
        .feed("[a]", Some("a"))
        .feed("k = 1", None)
        .feed("[a]", Some("a"))
        .feed("k = 2", None)
        .finish();
    assert_eq!(names(&sections), vec!["a", "a"]);
    assert_eq!(sections[1].lines(), vec!["k = 2"]);
}

#[test]
fn parse_sections_reads_both_formats() {
    let sections = parse_sections(PROFILE_CREDENTIALS, "[a]\nk = v\n\n[profile b]\n").unwrap();
    assert_eq!(names(&sections), vec!["a", "profile b"]);
    let sections = parse_sections(PROFILE_CONFIG, "[a]\nk = v\n\n[profile \t b]\nx").unwrap();
    assert_eq!(names(&sections), vec!["b"]);
    assert_eq!(sections[0].lines(), vec!["x"]);
    assert!(matches!(
        parse_sections("(", ""),
        Err(ConfError::InvalidPattern)
    ));
}

#[test]
fn dialects_name_pattern_style_and_file() {
    assert_eq!(Dialect::Config.pattern(), r"^\[profile\s+(.+)\]$");
    assert_eq!(Dialect::Credentials.pattern(), r"^\[(.+)\]$");
    assert_eq!(Dialect::Config.style(), HeaderStyle::Prefixed);
    assert_eq!(Dialect::Credentials.style(), HeaderStyle::Bare);
    assert_eq!(Dialect::Config.filename(), "config");
    assert_eq!(Dialect::Credentials.filename(), "credentials");
}

#[test]
fn dialects_read_back_what_they_write() {
    for dialect in [Dialect::Config, Dialect::Credentials] {
        let file = dialect
            .load("[default]\na = 1\n")
            .unwrap()
            .set(Profile::new("work").unwrap().set("region", "eu-west-1"))
            .set(Profile::new("empty").unwrap())
            .set(Profile::new("with space").unwrap().push("opaque line"));
        let again = dialect.load(&file.write()).unwrap();
        assert_eq!(again.len(), 4);
        assert_eq!(again, file);
        assert_eq!(again.write(), file.write());
    }
}

#[test]
fn a_name_with_leading_space_is_not_read_back_from_a_config_header() {
    let file = Dialect::Config
        .load("")
        .unwrap()
        .set(Profile::new(" padded").unwrap());
    assert_eq!(file.write(), "[profile  padded]\n");
    let again = Dialect::Config.load(&file.write()).unwrap();
    assert!(again.profile(" padded").is_none());
    assert!(again.profile("padded").is_some());
}

#[test]
fn messages_name_what_is_missing() {
    let content: Content = ContentBuilder::new()
        .set_path("p")
        .set_reg_profile(PROFILE_CONFIG)
        .load("[default]\na = 1")
        .unwrap();
    assert_eq!(
        content.get("x", "a").unwrap_err().message(),
        "Cannot find profile: x"
    );
    assert_eq!(
        content.get("default", "b").unwrap_err().message(),
        "Not Found key: b in profile: default"
    );
    assert_eq!(content.get_fragment("default").unwrap().name(), "default");
    assert_eq!(
        content.get_fragment("x").unwrap_err().message(),
        "Cannot find profile: x"
    );
    let config = awsmfa::aws::Config::new("[default]\na = 1").unwrap();
    assert_eq!(
        config.mfa_serial("x").unwrap_err().message(),
        "Not Found profile: x at config"
    );
    assert_eq!(
        config.mfa_serial("default").unwrap_err().message(),
        "Not Found mfa_serial in profile default at config"
    );
    assert_eq!(
        ConfError::ParseMisconfigured(Setting::Pattern).message(),
        "reg_profile is not set"
    );
    assert_eq!(
        ConfError::ParseMisconfigured(Setting::Path).message(),
        "path is not set"
    );
    assert_eq!(
        ConfError::ParseMisconfigured(Setting::Formatter).message(),
        "formatter is not set"
    );
    assert_eq!(
        ConfError::InvalidPattern.message(),
        "reg_profile is not a regular expression"
    );
    assert_eq!(ConfError::InvalidInput.message(), "profile name is empty");
    assert_eq!(Setting::Path.name(), "path");
}

#[test]
fn fragments_can_be_set_and_removed_by_name() {
    let content = ContentBuilder::new()
        .set_path("p")
        .set_reg_profile(PROFILE_CREDENTIALS)
        .load("[a]\nk = 1\n[b]\nk = 2\n[a]\nk = 3")
        .unwrap();
    assert_eq!(content.len(), 3);
    let content = content.set_fragment(Profile::new("a").unwrap().set("k", "4"));
    assert_eq!(content.len(), 2);
    assert_eq!(content.fragment(0).unwrap().name(), "b");
    assert_eq!(content.get("a", "k").unwrap(), "4");
    let content = content.remove_fragment("b").remove_fragment("nobody");
    assert_eq!(content.len(), 1);
    assert_eq!(content.fragment(0).unwrap().name(), "a");
}
