use awsmfa::{get_otp, ConfError, MfaConfig, OtpError, Secret};
use serde_yaml::{Mapping, Value};

const TEST_YML: &str = "secrets:
- profile: test
  value: somesecret
";

fn text(value: &Value, key: &str) -> String {
    value.get(key).unwrap().as_str().unwrap().to_string()
}

fn load(yaml: Option<&str>) -> MfaConfig {
    let yaml = match yaml {
        Some(y) => y,
        None => return MfaConfig::new(),
    };
    let document: Value = serde_yaml::from_str(yaml).unwrap();
    let secrets = document
        .get("secrets")
        .unwrap()
        .as_sequence()
        .unwrap()
        .iter()
        .map(|s| Secret {
            profile: text(s, "profile"),
            value: text(s, "value"),
        })
        .collect();
    MfaConfig::from_secrets(secrets)
}

fn write(config: &MfaConfig) -> String {
    let secrets = config
        .secrets()
        .into_iter()
        .map(|s| {
            let mut entry = Mapping::new();
            entry.insert(Value::from("profile"), Value::from(s.profile));
            entry.insert(Value::from("value"), Value::from(s.value));
            Value::Mapping(entry)
        })
        .collect();
    let mut document = Mapping::new();
    document.insert(Value::from("secrets"), Value::Sequence(secrets));
    serde_yaml::to_string(&Value::Mapping(document)).unwrap()
}

#[test]
fn it_reads_config() {
    let config = load(Some(TEST_YML));
    assert_eq!(config.len(), 1);

    let secrets = config.secrets();
    let secret = secrets.first().unwrap();
    assert_eq!(secret.profile, "test");
    assert_eq!(secret.value, "somesecret");
}

#[test]
fn it_gets_secret() {
    let config = load(Some(TEST_YML));
    let secret = config.get_secret("test");
    assert!(secret.is_ok());
    assert_eq!(secret.unwrap(), "somesecret");
}

#[test]
fn it_init_config_when_notfound() {
    let config = load(None);
    assert_eq!(config.len(), 0);
}

#[test]
fn it_sets_new_device() {
    let config = load(Some(TEST_YML)).set("new_profile", "new_secret");

    assert_eq!(config.len(), 2);

    let secrets = config.secrets();
    let secret = secrets.iter().find(|d| d.profile == "new_profile");
    assert!(secret.is_some());

    let secret = secret.unwrap();
    assert_eq!(secret.profile, "new_profile");
    assert_eq!(secret.value, "new_secret");
}

#[test]
fn it_writes_contents() {
    let written = write(&load(Some(TEST_YML)).set("write_profile", "write_secret"));

    let config = load(Some(&written));
    assert_eq!(config.len(), 2);
}

#[test]
fn set_replaces_the_device_of_a_profile() {
    let config = load(Some(TEST_YML))
        .set("other", "x")
        .set("test", "renewed");
    assert_eq!(config.len(), 2);
    let secrets = config.secrets();
    assert_eq!(secrets[0].profile, "other");
    assert_eq!(secrets[1].profile, "test");
    assert_eq!(config.get_secret("test").unwrap(), "renewed");
    assert_eq!(config.get_secret("other").unwrap(), "x");
}

#[test]
fn remove_drops_the_devices_of_a_profile() {
    let config = load(Some(TEST_YML)).set("other", "x").remove("test");
    assert_eq!(config.len(), 1);
    assert_eq!(config.get_secret("other").unwrap(), "x");
    match config.get_secret("test") {
        Err(ConfError::NotFound { profile, key, file }) => {
            assert_eq!(profile, "test");
            assert_eq!(key, None);
            assert_eq!(file, Some(".aws/awsmfa.yml".to_string()));
        }
        other => panic!("unexpected: {:?}", other),
    }
    let config = config.remove("nobody");
    assert_eq!(config.len(), 1);
}

#[test]
fn first_device_of_a_profile_is_found() {
    let config = MfaConfig::from_secrets(vec![
        Secret { profile: "a".to_string(), value: "1".to_string() },
        Secret { profile: "a".to_string(), value: "2".to_string() },
    ]);
    assert_eq!(config.get_secret("a").unwrap(), "1");
}

#[test]
fn listing_shows_each_device_or_a_notice() {
    assert_eq!(
        MfaConfig::new().listing(),
        "There are no secret keys in ~/.aws/awsmfa.yml. Use set command to register your first secret key.\n"
    );
    assert_eq!(
        load(Some(TEST_YML)).set("other", "x").listing(),
        "[profile test]\nsecret\t: somesecret\n\n[profile other]\nsecret\t: x\n\n"
    );
}

#[test]
fn password_follows_the_reference_values() {
    let config = MfaConfig::new().set("test", "GEZDGNBVGY3TQOJQGEZDGNBVGY3TQOJQ");
    assert_eq!(get_otp(&config, "test", 59).unwrap(), "287082");
    assert_eq!(get_otp(&config, "test", 1111111109).unwrap(), "081804");
    assert_eq!(get_otp(&config, "test", 1234567890).unwrap(), "005924");
    assert_eq!(get_otp(&config, "test", 30).unwrap(), "287082");
    assert_ne!(get_otp(&config, "test", 60).unwrap(), "287082");
}

#[test]
fn password_reads_the_secret_in_upper_case() {
    let config = MfaConfig::new().set("test", "gezdgnbvgy3tqojqgezdgnbvgy3tqojq");
    assert_eq!(get_otp(&config, "test", 59).unwrap(), "287082");
    assert_eq!(
        awsmfa::otp::otp_for_secret("GezdGnbvGy3tQojqGezdGnbvGy3tQojq", "test", 59).unwrap(),
        "287082"
    );
}

#[test]
fn password_fails_without_a_usable_secret() {
    let config = MfaConfig::new()
        .set("short", "GEZDGNBV")
        .set("broken", "not base32 at all!");
    match get_otp(&config, "nobody", 59) {
        Err(OtpError::NoDevice { profile }) => assert_eq!(profile, "nobody"),
        other => panic!("unexpected: {:?}", other),
    }
    assert!(matches!(
        get_otp(&config, "broken", 59),
        Err(OtpError::InvalidSecret)
    ));
    assert!(matches!(
        get_otp(&config, "short", 59),
        Err(OtpError::RejectedSecret)
    ));
}
