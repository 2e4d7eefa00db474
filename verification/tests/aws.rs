use awsmfa::aws::{AwsConfigs, Config, Credentials};
use awsmfa::sts::{GetSessionToken, StsCredential, Timestamp};
use awsmfa::ConfError;

const TEST_CONFIG: &str = "[default]
region = us-east-1
output = yaml

[profile test]
region = ap-northeast-1
output = json
mfa_serial = arn:aws:iam::999999999999:mfa/user
";

const TEST_CREDENTIALS: &str = "[default]
aws_access_key_id = AAAAAAAAAAAAAAAAAAAA
aws_secret_access_key = aaaaaaaaaaaaaaaaaaaaaaaaaaaaaaaaaaaaaaaa

[tanaka]
aws_access_key_id = ABCDEFGHIJKLMNOPQRST
aws_secret_access_key = abcdefghijklmnopqrstuvwxyz+-#$1234567890
";

fn build_config() -> Config {
    Config::load(TEST_CONFIG).unwrap()
}

fn build_credentials() -> Credentials {
    Credentials::load(TEST_CREDENTIALS).unwrap()
}

fn sts_credential() -> StsCredential {
    let mut cred = StsCredential::default();
    cred.access_key_id = "access_key_id".to_string();
    cred.secret_access_key = "secret_access_key".to_string();
    cred.session_token = "session_token".to_string();
    cred
}

#[test]
fn it_gets_mfa_serial_from_profile() {
    let config = build_config();

    let result = config.mfa_serial("test");
    assert!(result.is_ok());

    let mfa_serial = result.unwrap();
    assert_eq!(mfa_serial, "arn:aws:iam::999999999999:mfa/user");

    let result = config.mfa_serial("default");
    assert!(result.is_err());
}

#[test]
fn it_copies_profile_without_mfa_serial() {
    let config = build_config();

    let result = config.set_mfa_profile("test", "test_v2");
    assert!(result.is_ok());

    let config = result.unwrap();
    assert_eq!(
        config.mfa_serial("test").unwrap(),
        "arn:aws:iam::999999999999:mfa/user"
    );
    assert!(config.mfa_serial("test_v2").is_err());

    let test = config.content().profile("test").unwrap();
    let test_v2 = config.content().profile("test_v2").unwrap();

    assert_eq!(test.get("region"), test_v2.get("region"));
    assert_eq!(test.get("output"), test_v2.get("output"));
}

#[test]
fn config_it_writes_to_file() {
    let config0 = build_config();

    let written = config0.write();

    let config1 = Config::load(&written).unwrap();

    assert_eq!(config0.content(), config1.content());
}

#[test]
fn it_loads_credentials() {
    let creds = build_credentials();
    let result = creds.content().profile("tanaka");
    assert!(result.is_some());

    let profile = result.unwrap();
    assert_eq!(
        profile.get("aws_access_key_id"),
        Some("ABCDEFGHIJKLMNOPQRST")
    );
    assert_eq!(
        profile.get("aws_secret_access_key"),
        Some("abcdefghijklmnopqrstuvwxyz+-#$1234567890")
    );
}

#[test]
fn it_sets_profile_from_sts_credentials() {
    let mut cred = StsCredential::default();
    cred.access_key_id = "access_key_id".to_string();
    cred.secret_access_key = "secret_access_key".to_string();
    cred.session_token = "session_token".to_string();

    let creds = build_credentials().set_cred("test", cred).unwrap();
    let result = creds.content().profile("test");
    assert!(result.is_some());

    let profile = result.unwrap();
    assert_eq!(profile.get("aws_access_key_id"), Some("access_key_id"));
    assert_eq!(
        profile.get("aws_secret_access_key"),
        Some("secret_access_key")
    );
    assert_eq!(profile.get("aws_session_token"), Some("session_token"));
}

#[test]
fn credentials_it_writes_to_file() {
    let creds0 = build_credentials();
    let written = creds0.write();

    let creds1 = Credentials::load(&written).unwrap();
    assert_eq!(creds0.content(), creds1.content());
}

#[test]
fn config_errors_name_profile_key_and_file() {
    let config = build_config();
    match config.mfa_serial("nobody") {
        Err(ConfError::NotFound { profile, key, file }) => {
            assert_eq!(profile, "nobody");
            assert_eq!(key, None);
            assert_eq!(file, Some("config".to_string()));
        }
        other => panic!("unexpected: {:?}", other),
    }
    match config.mfa_serial("default") {
        Err(ConfError::NotFound { profile, key, file }) => {
            assert_eq!(profile, "default");
            assert_eq!(key, Some("mfa_serial".to_string()));
            assert_eq!(file, Some("config".to_string()));
        }
        other => panic!("unexpected: {:?}", other),
    }
    assert!(matches!(
        build_config().set_mfa_profile("nobody", "x"),
        Err(ConfError::NotFound { .. })
    ));
}

#[test]
fn config_new_reads_the_text() {
    let config = Config::new(TEST_CONFIG).unwrap();
    assert_eq!(config.content().len(), 2);
    assert_eq!(
        config.content().profile("default").unwrap().get("output"),
        Some("yaml")
    );
    let creds = Credentials::new(TEST_CREDENTIALS).unwrap();
    assert_eq!(creds.content().len(), 2);
}

#[test]
fn save_names_the_file_and_gives_its_text() {
    let image = build_config().save();
    assert_eq!(image.name, "config");
    assert_eq!(
        image.text,
        "[default]\nregion = us-east-1\noutput = yaml\n\n[profile test]\nregion = ap-northeast-1\noutput = json\nmfa_serial = arn:aws:iam::999999999999:mfa/user"
    );
    let image = build_credentials().save();
    assert_eq!(image.name, "credentials");
    assert_eq!(
        image.text,
        "[default]\naws_access_key_id = AAAAAAAAAAAAAAAAAAAA\naws_secret_access_key = aaaaaaaaaaaaaaaaaaaaaaaaaaaaaaaaaaaaaaaa\n\n[tanaka]\naws_access_key_id = ABCDEFGHIJKLMNOPQRST\naws_secret_access_key = abcdefghijklmnopqrstuvwxyz+-#$1234567890"
    );
}

#[test]
fn set_cred_writes_three_lines_in_order() {
    let creds = build_credentials()
        .set_cred("tanaka", sts_credential())
        .unwrap();
    assert_eq!(creds.content().len(), 2);
    assert_eq!(
        creds.content().profile("tanaka").unwrap().lines(),
        vec![
            "aws_access_key_id = access_key_id".to_string(),
            "aws_secret_access_key = secret_access_key".to_string(),
            "aws_session_token = session_token".to_string(),
        ]
    );
    assert!(matches!(
        build_credentials().set_cred("", sts_credential()),
        Err(ConfError::InvalidInput)
    ));
}

#[test]
fn login_updates_both_files() {
    let configs = AwsConfigs::new(TEST_CONFIG, TEST_CREDENTIALS).unwrap();
    assert_eq!(
        configs.mfa_serial("test").unwrap(),
        "arn:aws:iam::999999999999:mfa/user"
    );
    assert!(configs.mfa_serial("default").is_err());

    let configs = configs
        .set_cred("test", "test-mfa", sts_credential())
        .unwrap();
    let copied = configs.config().content().profile("test-mfa").unwrap();
    assert_eq!(copied.get("region"), Some("ap-northeast-1"));
    assert_eq!(copied.get("mfa_serial"), None);
    let stored = configs.credentials().content().profile("test-mfa").unwrap();
    assert_eq!(stored.get("aws_session_token"), Some("session_token"));

    let images = configs.save();
    assert_eq!(images.len(), 2);
    assert_eq!(images[0].name, "config");
    assert!(images[0].text.ends_with(
        "\n\n[profile test-mfa]\nregion = ap-northeast-1\noutput = json"
    ));
    assert_eq!(images[1].name, "credentials");
    assert!(images[1].text.ends_with(
        "\n\n[test-mfa]\naws_access_key_id = access_key_id\naws_secret_access_key = secret_access_key\naws_session_token = session_token"
    ));
}

#[test]
fn login_fails_without_the_source_profile_or_a_target_name() {
    let configs = AwsConfigs::new(TEST_CONFIG, TEST_CREDENTIALS).unwrap();
    assert!(matches!(
        configs.set_cred("nobody", "x", sts_credential()),
        Err(ConfError::NotFound { .. })
    ));
    let configs = AwsConfigs::new(TEST_CONFIG, TEST_CREDENTIALS).unwrap();
    assert!(matches!(
        configs.set_cred("test", "", sts_credential()),
        Err(ConfError::InvalidInput)
    ));
}

#[test]
fn expiration_is_written_as_utc_date_and_time() {
    let cred = StsCredential::new(
        "a".to_string(),
        "b".to_string(),
        "c".to_string(),
        Some(Timestamp { secs: 1431648000, nanos: 0 }),
    );
    assert_eq!(cred.expiration(), "2015-05-15 00:00:00");
    let cred = StsCredential::new(
        "a".to_string(),
        "b".to_string(),
        "c".to_string(),
        Some(Timestamp { secs: 1700000000, nanos: 999_999_999 }),
    );
    assert_eq!(cred.expiration(), "2023-11-14 22:13:20");
}

#[test]
fn expiration_without_a_date_is_unknown() {
    assert_eq!(sts_credential().expiration(), "Unknown");
    let cred = StsCredential::new(
        "a".to_string(),
        "b".to_string(),
        "c".to_string(),
        Some(Timestamp { secs: i64::MAX, nanos: 0 }),
    );
    assert_eq!(cred.expiration(), "Unknown");
    assert_eq!(awsmfa::sts::expiration_text(None), "Unknown");
    assert_eq!(
        awsmfa::sts::expiration_text(Some("2015-05-15 00:00:00".to_string())),
        "2015-05-15 00:00:00"
    );
}

#[test]
fn request_keeps_what_was_set() {
    let request = GetSessionToken::new();
    assert_eq!(request.profile(), None);
    assert_eq!(request.duration_seconds(), None);
    assert_eq!(request.serial_number(), None);
    assert_eq!(request.token_code(), None);

    let request = request
        .set_profile(Some("test".to_string()))
        .set_duration_seconds(Some(900))
        .set_serial_number(Some("arn:aws:iam::999999999999:mfa/user".to_string()))
        .set_token_code(Some("123456".to_string()));
    assert_eq!(request.profile(), Some(&"test".to_string()));
    assert_eq!(request.duration_seconds(), Some(900));
    assert_eq!(
        request.serial_number(),
        Some(&"arn:aws:iam::999999999999:mfa/user".to_string())
    );
    assert_eq!(request.token_code(), Some(&"123456".to_string()));

    let request = request.set_profile(None);
    assert_eq!(request.profile(), None);
    assert_eq!(request.duration_seconds(), Some(900));
}
