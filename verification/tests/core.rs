use conflaguration::init;
use conflaguration::join_key;
use conflaguration::resolve_or;
use conflaguration::resolve_or_parse;
use conflaguration::resolve::first_found;
use conflaguration::resolve::settle;
use conflaguration::resolve::settle_or;
use conflaguration::resolve::EnvLookup;
use conflaguration::resolve_with;
use conflaguration::resolve_with_or;
use conflaguration::resolve_with_or_str;
use conflaguration::ConfigDisplay;
use conflaguration::Error;
use conflaguration::Result;
use conflaguration::Settings;
use conflaguration::Validate;
use conflaguration::ValidationMessage;

struct TestConfig {
    port: u16,
    name: String,
}

impl Settings for TestConfig {
    fn from_env() -> Result<Self> {
        Ok(Self {
            port: resolve_or(&["TEST_CONFLAG_PORT"], 8080)?,
            name: resolve_or_parse(&["TEST_CONFLAG_NAME"], "default")?,
        })
    }
}

impl Validate for TestConfig {
    fn validate(&self) -> Result<()> {
        let mut errors = vec![];
        if self.port == 0 {
            errors.push(ValidationMessage::new("port", "must be > 0"));
        }
        if self.name.is_empty() {
            errors.push(ValidationMessage::new("name", "must not be empty"));
        }
        if errors.is_empty() {
            Ok(())
        } else {
            Err(Error::Validation { errors })
        }
    }
}

fn shown(err: &Error) -> String {
    err.to_string()
}

#[test]
fn from_env_with_defaults() {
    temp_env::with_vars([("TEST_CONFLAG_PORT", None::<&str>), ("TEST_CONFLAG_NAME", None::<&str>)], || {
        let config = TestConfig::from_env().unwrap_or_else(|err| panic!("from_env failed: {}", shown(&err)));
        assert_eq!(config.port, 8080);
        assert_eq!(config.name, "default");
    });
}

#[test]
fn from_env_reads_environment() {
    temp_env::with_vars([("TEST_CONFLAG_PORT", Some("3000")), ("TEST_CONFLAG_NAME", Some("myapp"))], || {
        let config = TestConfig::from_env().unwrap_or_else(|err| panic!("from_env failed: {}", shown(&err)));
        assert_eq!(config.port, 3000);
        assert_eq!(config.name, "myapp");
    });
}

#[test]
fn validate_passes_on_valid_config() {
    let config = TestConfig { port: 8080, name: "app".into() };
    assert!(config.validate().is_ok());
}

#[test]
fn validate_collects_all_errors() {
    let config = TestConfig { port: 0, name: String::new() };
    let err = config.validate().unwrap_err();
    match err {
        Error::Validation { errors } => {
            assert_eq!(errors.len(), 2);
            assert_eq!(errors[0].path, "port");
            assert_eq!(errors[0].message, "must be > 0");
            assert_eq!(errors[1].path, "name");
            assert_eq!(errors[1].message, "must not be empty");
        }
        other => panic!("expected Validation error, got {}", shown(&other)),
    }
}

#[test]
fn init_combines_from_env_and_validate() {
    temp_env::with_vars([("TEST_CONFLAG_PORT", Some("9090")), ("TEST_CONFLAG_NAME", Some("production"))], || {
        let config: TestConfig = init().unwrap_or_else(|_| panic!("init failed"));
        assert_eq!(config.port, 9090);
        assert_eq!(config.name, "production");
    });
}

#[test]
fn init_propagates_validation_error() {
    temp_env::with_vars([("TEST_CONFLAG_PORT", Some("0")), ("TEST_CONFLAG_NAME", Some(""))], || {
        let result: Result<TestConfig> = init();
        assert!(matches!(result, Err(Error::Validation { .. })));
    });
}

#[test]
fn env_error_propagates_through() {
    temp_env::with_vars([("TEST_CONFLAG_PORT", Some("banana")), ("TEST_CONFLAG_NAME", None::<&str>)], || {
        let result = TestConfig::from_env();
        assert!(matches!(result, Err(Error::Env(_))));
    });
}

#[test]
fn validation_displays_paths() {
    let err = Error::Validation {
        errors: vec![ValidationMessage::new("port", "must be > 0"), ValidationMessage::new("database.host", "must not be empty")],
    };
    let msg = err.to_string();
    assert!(msg.contains("validation failed:"));
    assert!(msg.contains("  - port: must be > 0"));
    assert!(msg.contains("  - database.host: must not be empty"));
}

#[test]
fn validation_message_prepend_path() {
    let mut msg = ValidationMessage::new("port", "must be > 0");
    msg.prepend_path("database");
    assert_eq!(msg.path, "database.port");
    assert_eq!(msg.to_string(), "database.port: must be > 0");

    msg.prepend_path("app");
    assert_eq!(msg.path, "app.database.port");
}

#[test]
fn validation_message_prepend_empty_path() {
    let mut msg = ValidationMessage::new("", "something went wrong");
    assert_eq!(msg.to_string(), "something went wrong");

    msg.prepend_path("config");
    assert_eq!(msg.path, "config");
    assert_eq!(msg.to_string(), "config: something went wrong");
}

fn infallible_parse(value: &str) -> std::result::Result<Vec<String>, std::convert::Infallible> {
    Ok(value.split(',').map(|s| s.trim().to_string()).collect())
}

fn fallible_parse(value: &str) -> std::result::Result<u16, std::num::ParseIntError> {
    value.parse()
}

const LIST: &str = "alloc::vec::Vec<alloc::string::String>";
const PORT: &str = "u16";

#[test]
fn resolve_with_returns_parsed_value() {
    temp_env::with_vars([("TEST_RW_HAPPY", Some("a,b,c"))], || {
        let result = resolve_with(&["TEST_RW_HAPPY"], infallible_parse);
        assert_eq!(result.unwrap_or_else(|err| panic!("resolve_with failed: {}", shown(&err))), vec!["a", "b", "c"]);
    });
}

#[test]
fn resolve_with_errors_on_missing_key() {
    temp_env::with_vars([("TEST_RW_MISS", None::<&str>)], || {
        let result = resolve_with(&["TEST_RW_MISS"], infallible_parse);
        assert!(matches!(result, Err(Error::Env(_))));
    });
}

#[test]
fn resolve_with_propagates_parse_error() {
    temp_env::with_vars([("TEST_RW_BAD", Some("notanumber"))], || {
        let result = resolve_with(&["TEST_RW_BAD"], fallible_parse);
        assert!(matches!(result, Err(Error::Env(_))));
    });
}

#[test]
fn resolve_with_or_returns_parsed_when_set() {
    temp_env::with_vars([("TEST_RWO_HIT", Some("42"))], || {
        let result = resolve_with_or(&["TEST_RWO_HIT"], fallible_parse, 9999);
        assert_eq!(result.unwrap_or_else(|err| panic!("resolve_with_or failed: {}", shown(&err))), 42);
    });
}

#[test]
fn resolve_with_or_returns_default_when_missing() {
    temp_env::with_vars([("TEST_RWO_MISS", None::<&str>)], || {
        let result = resolve_with_or(&["TEST_RWO_MISS"], fallible_parse, 9999);
        assert_eq!(result.unwrap_or_else(|err| panic!("resolve_with_or failed: {}", shown(&err))), 9999);
    });
}

#[test]
fn resolve_with_or_propagates_parse_error_despite_default() {
    temp_env::with_vars([("TEST_RWO_BAD", Some("banana"))], || {
        let result = resolve_with_or(&["TEST_RWO_BAD"], fallible_parse, 9999);
        assert!(matches!(result, Err(Error::Env(_))));
    });
}

#[test]
fn resolve_with_or_str_returns_parsed_when_set() {
    temp_env::with_vars([("TEST_RWOS_HIT", Some("a,b"))], || {
        let result = resolve_with_or_str(&["TEST_RWOS_HIT"], infallible_parse, "x,y", LIST);
        assert_eq!(result.unwrap_or_else(|err| panic!("resolve_with_or_str failed: {}", shown(&err))), vec!["a", "b"]);
    });
}

#[test]
fn resolve_with_or_str_uses_default_str_when_missing() {
    temp_env::with_vars([("TEST_RWOS_MISS", None::<&str>)], || {
        let result = resolve_with_or_str(&["TEST_RWOS_MISS"], infallible_parse, "x,y", LIST);
        assert_eq!(result.unwrap_or_else(|err| panic!("resolve_with_or_str failed: {}", shown(&err))), vec!["x", "y"]);
    });
}

#[test]
fn resolve_with_or_str_propagates_error_on_env_value() {
    temp_env::with_vars([("TEST_RWOS_BAD", Some("notanumber"))], || {
        let result = resolve_with_or_str(&["TEST_RWOS_BAD"], fallible_parse, "8080", PORT);
        assert!(matches!(result, Err(Error::Env(_))));
    });
}

#[test]
fn resolve_with_or_str_propagates_error_on_default_str() {
    temp_env::with_vars([("TEST_RWOS_BAD_DEF", None::<&str>)], || {
        let result = resolve_with_or_str(&["TEST_RWOS_BAD_DEF"], fallible_parse, "banana", PORT);
        assert!(matches!(result, Err(Error::Env(_))));
    });
}

#[test]
fn resolve_with_or_str_error_shows_default_key_when_missing() {
    temp_env::with_vars([("TEST_RWOS_ERR_KEY", None::<&str>)], || {
        let result = resolve_with_or_str(&["TEST_RWOS_ERR_KEY"], fallible_parse, "banana", PORT);
        let msg = result.unwrap_err().to_string();
        assert!(msg.contains("<default>"), "expected <default> in error, got: {msg}");
    });
}

#[test]
fn resolve_with_or_str_error_shows_env_key_when_set() {
    temp_env::with_vars([("TEST_RWOS_ERR_ENV", Some("banana"))], || {
        let result = resolve_with_or_str(&["TEST_RWOS_ERR_ENV"], fallible_parse, "8080", PORT);
        let msg = result.unwrap_err().to_string();
        assert!(msg.contains("TEST_RWOS_ERR_ENV"), "expected key name in error, got: {msg}");
    });
}

#[test]
fn resolve_with_cascades_to_second_key() {
    temp_env::with_vars([("TEST_RW_CASC_A", None::<&str>), ("TEST_RW_CASC_B", Some("1,2"))], || {
        let result = resolve_with(&["TEST_RW_CASC_A", "TEST_RW_CASC_B"], infallible_parse);
        assert_eq!(result.unwrap_or_else(|err| panic!("failed: {}", shown(&err))), vec!["1", "2"]);
    });
}

#[test]
fn resolve_with_cascade_errors_on_first_bad_value() {
    temp_env::with_vars([("TEST_RW_CASC_BAD", Some("notanumber")), ("TEST_RW_CASC_GOOD", Some("42"))], || {
        let result = resolve_with(&["TEST_RW_CASC_BAD", "TEST_RW_CASC_GOOD"], fallible_parse);
        assert!(result.is_err(), "should error on first matched key even if second is valid");
    });
}

#[test]
fn resolve_with_or_cascades_to_second_key() {
    temp_env::with_vars([("TEST_RWO_CASC_A", None::<&str>), ("TEST_RWO_CASC_B", Some("99"))], || {
        let result = resolve_with_or(&["TEST_RWO_CASC_A", "TEST_RWO_CASC_B"], fallible_parse, 0);
        assert_eq!(result.unwrap_or_else(|err| panic!("failed: {}", shown(&err))), 99);
    });
}

#[test]
fn resolve_with_or_str_cascades_to_second_key() {
    temp_env::with_vars([("TEST_RWOS_CASC_A", None::<&str>), ("TEST_RWOS_CASC_B", Some("a,b"))], || {
        let result = resolve_with_or_str(&["TEST_RWOS_CASC_A", "TEST_RWOS_CASC_B"], infallible_parse, "x", LIST);
        assert_eq!(result.unwrap_or_else(|err| panic!("failed: {}", shown(&err))), vec!["a", "b"]);
    });
}

#[test]
fn resolve_with_or_str_cascade_errors_on_first_bad_value() {
    temp_env::with_vars([("TEST_RWOS_CASC_BAD", Some("nope")), ("TEST_RWOS_CASC_OK", Some("42"))], || {
        let result = resolve_with_or_str(&["TEST_RWOS_CASC_BAD", "TEST_RWOS_CASC_OK"], fallible_parse, "0", PORT);
        assert!(result.is_err(), "should error on first matched key");
    });
}

#[test]
fn resolve_with_receives_empty_string_when_env_set_empty() {
    temp_env::with_vars([("TEST_RW_EMPTY", Some(""))], || {
        let result = resolve_with(&["TEST_RW_EMPTY"], infallible_parse);
        assert_eq!(result.unwrap_or_else(|err| panic!("failed: {}", shown(&err))), vec![""]);
    });
}

#[test]
fn resolve_with_or_receives_empty_string_not_default() {
    temp_env::with_vars([("TEST_RWO_EMPTY", Some(""))], || {
        let result = resolve_with_or(&["TEST_RWO_EMPTY"], fallible_parse, 9999);
        assert!(result.is_err(), "empty string should be parsed, not treated as missing");
    });
}

#[test]
fn resolve_with_or_str_receives_empty_string_not_default() {
    temp_env::with_vars([("TEST_RWOS_EMPTY", Some(""))], || {
        let result = resolve_with_or_str(&["TEST_RWOS_EMPTY"], fallible_parse, "8080", PORT);
        assert!(result.is_err(), "empty string should be parsed, not fall to default_str");
    });
}

#[test]
fn resolve_with_or_str_empty_keys_uses_default_str() {
    let result = resolve_with_or_str::<Vec<String>, _, _>(&[], infallible_parse, "a,b", LIST);
    assert_eq!(result.unwrap_or_else(|err| panic!("failed: {}", shown(&err))), vec!["a", "b"]);
}

#[test]
fn resolve_with_or_str_empty_keys_error_shows_default_key() {
    let result = resolve_with_or_str::<u16, _, _>(&[], fallible_parse, "banana", PORT);
    let msg = result.unwrap_err().to_string();
    assert!(msg.contains("<default>"), "expected <default> in error, got: {msg}");
}

#[test]
fn resolve_with_or_str_error_names_expected_type() {
    let result = resolve_with_or_str::<u16, _, _>(&[], fallible_parse, "banana", PORT);
    let msg = result.unwrap_err().to_string();
    assert!(msg.contains("expected u16"), "got: {msg}");
    assert!(msg.contains("'banana'"), "got: {msg}");
}

#[test]
fn resolve_with_or_empty_keys_takes_default() {
    let result = resolve_with_or::<u16, _, _>(&[], fallible_parse, 77);
    assert_eq!(result.unwrap_or_else(|err| panic!("failed: {}", shown(&err))), 77);
}

#[test]
fn resolve_with_empty_keys_is_env_error() {
    let result = resolve_with::<u16, _, _>(&[], fallible_parse);
    assert!(matches!(result, Err(Error::Env(_))));
}

struct ManualConfig {
    value: String,
}

impl Settings for ManualConfig {
    fn from_env() -> Result<Self> {
        Ok(Self {
            value: resolve_or_parse(&["TEST_MANUAL_VAL"], "default")?,
        })
    }
}

#[test]
fn trait_default_from_env_with_prefix_delegates_to_from_env() {
    temp_env::with_vars([("TEST_MANUAL_VAL", Some("hello"))], || {
        let config = ManualConfig::from_env_with_prefix("IGNORED").unwrap_or_else(|err| panic!("failed: {}", shown(&err)));
        assert_eq!(config.value, "hello");
    });
}

#[test]
fn trait_default_override_from_env_is_noop() {
    let mut config = ManualConfig { value: "original".into() };
    config.override_from_env().unwrap_or_else(|err| panic!("failed: {}", shown(&err)));
    assert_eq!(config.value, "original");
}

#[test]
fn trait_default_override_from_env_with_prefix_is_noop() {
    let mut config = ManualConfig { value: "original".into() };
    config
        .override_from_env_with_prefix("IGNORED")
        .unwrap_or_else(|err| panic!("failed: {}", shown(&err)));
    assert_eq!(config.value, "original");
}

struct DisplayableConfig {
    port: u16,
}

impl ConfigDisplay for DisplayableConfig {
    fn fmt_config(&self, out: &mut String, _depth: usize) {
        out.push_str(&format!("port={}", self.port));
    }
}

#[test]
fn config_view_display_delegates_to_fmt_config() {
    let config = DisplayableConfig { port: 8080 };
    let view = config.display();
    assert_eq!(view.to_string(), "port=8080");
}

#[test]
fn config_prefix_view_uses_default_fmt_config_with_prefix() {
    let config = DisplayableConfig { port: 3000 };
    let view = config.display_with_prefix("APP");
    assert_eq!(view.to_string(), "port=3000");
}

#[test]
fn join_key_with_and_without_prefix() {
    assert_eq!(join_key("", "PORT"), "PORT");
    assert_eq!(join_key("APP", "PORT"), "APP_PORT");
    assert_eq!(join_key("APP_DB", "HOST"), "APP_DB_HOST");
}

#[test]
fn error_texts_of_plain_variants() {
    assert_eq!(Error::NoSource.to_string(), "no config source provided to builder");
    assert_eq!(Error::UnsupportedFormat("ini".into()).to_string(), "unsupported config format: ini");
    assert_eq!(Error::Validation { errors: vec![] }.to_string(), "validation failed:\n");
    let two = Error::Validation { errors: vec![ValidationMessage::new("a", "x"), ValidationMessage::new("", "y")] };
    assert_eq!(two.to_string(), "validation failed:\n  - a: x\n  - y");
}

#[test]
fn prepend_path_composes_outer_after_inner() {
    let mut stepwise = ValidationMessage::new("port", "bad");
    stepwise.prepend_path("db");
    stepwise.prepend_path("app");
    let mut at_once = ValidationMessage::new("port", "bad");
    at_once.prepend_path("app.db");
    assert_eq!(stepwise.path, at_once.path);
    assert_eq!(stepwise.path, "app.db.port");
}

#[test]
fn outside_errors_convert_and_keep_their_text() {
    let json = serde_json::from_str::<u8>("x").err().expect("bad json");
    let json_text = json.to_string();
    let err = Error::from(json);
    assert!(matches!(err, Error::Json(_)));
    assert_eq!(err.to_string(), format!("json: {json_text}"));

    let yaml = serde_yaml::from_str::<u8>("[").err().expect("bad yaml");
    let yaml_text = yaml.to_string();
    let err = Error::from(yaml);
    assert!(matches!(err, Error::Yaml(_)));
    assert_eq!(err.to_string(), format!("yaml: {yaml_text}"));

    let toml_err = toml::from_str::<toml::Table>("a = = 1").err().expect("bad toml");
    let toml_text = toml_err.to_string();
    let err = Error::from(toml_err);
    assert!(matches!(err, Error::Toml(_)));
    assert_eq!(err.to_string(), format!("toml: {toml_text}"));

    let err = Error::from(std::io::Error::new(std::io::ErrorKind::NotFound, "gone"));
    assert!(matches!(err, Error::Io(_)));
    assert_eq!(err.to_string(), "io error: gone");

    let err = Error::from(serde_value::SerializerError::Custom("no".into()));
    assert!(matches!(err, Error::ValueSerialize(_)));
    assert_eq!(err.to_string(), "value serialize: no");

    let err = Error::from(serde_value::DeserializerError::Custom("nope".into()));
    assert!(matches!(err, Error::ValueDeserialize(_)));
    assert!(err.to_string().starts_with("value deserialize: "));

    let env = conflaguration::resolve::<u16>(&[]).err().expect("no keys");
    let env_text = env.to_string();
    let err = Error::from(env);
    assert!(matches!(err, Error::Env(_)));
    assert_eq!(err.to_string(), env_text);
}

#[test]
fn parse_found_parses_the_value_found_or_the_default() {
    let found = conflaguration::resolve::parse_found(Some(("KEY", "42".to_string())), fallible_parse, "7", PORT);
    assert_eq!(found.unwrap_or_else(|err| panic!("failed: {}", shown(&err))), 42);
    let fallback = conflaguration::resolve::parse_found(None, fallible_parse, "7", PORT);
    assert_eq!(fallback.unwrap_or_else(|err| panic!("failed: {}", shown(&err))), 7);
}

#[test]
fn parse_found_failures_name_key_type_and_text() {
    let msg = conflaguration::resolve::parse_found(Some(("MY_KEY", "x".to_string())), fallible_parse, "7", PORT)
        .unwrap_err()
        .to_string();
    assert!(msg.contains("MY_KEY"), "got: {msg}");
    assert!(msg.contains("expected u16"), "got: {msg}");
    assert!(msg.contains("'x'"), "got: {msg}");
    let msg = conflaguration::resolve::parse_found(None, fallible_parse, "bad", PORT).unwrap_err().to_string();
    assert!(msg.contains("<default>"), "got: {msg}");
    assert!(msg.contains("'bad'"), "got: {msg}");
}

#[test]
fn settle_maps_each_lookup() {
    assert_eq!(settle(EnvLookup::Found(3u8)).unwrap_or_else(|err| panic!("{}", shown(&err))), 3);
    let missing = conflaguration::resolve::<u8>(&[]).err().expect("nothing set");
    assert!(matches!(settle_or(EnvLookup::Missing(missing), 9u8), Ok(9)));
    let failed = conflaguration::resolve_or_parse::<u8>(&[], "x").err().expect("bad default");
    assert!(matches!(settle_or(EnvLookup::Failed(failed), 9u8), Err(Error::Env(_))));
}

#[test]
fn first_found_takes_the_first_set_key() {
    let keys = ["A", "B", "C"];
    let lookups = [None, Some("2".to_string()), Some("3".to_string())];
    assert_eq!(first_found(&keys, &lookups), Some(("B", "2".to_string())));
    assert_eq!(first_found(&keys, &[None, None, None]), None);
    assert_eq!(first_found(&[], &lookups), None);
}
