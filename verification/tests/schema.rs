use conflaguration::resolve;
use conflaguration::resolve_or;
use conflaguration::resolve_or_parse;
use conflaguration::schema::attrs::parse_field_attrs;
use conflaguration::schema::attrs::parse_struct_attrs;
use conflaguration::schema::attrs::validate_field_attrs;
use conflaguration::schema::attrs::AttrError;
use conflaguration::schema::attrs::FieldAttrs;
use conflaguration::schema::attrs::Literal;
use conflaguration::schema::attrs::MetaItem;
use conflaguration::schema::attrs::MetaValue;
use conflaguration::schema::attrs::TraitKind;
use conflaguration::schema::cascade::absorb_nested;
use conflaguration::schema::cascade::verdict;
use conflaguration::schema::fields::any_found;
use conflaguration::schema::fields::any_key_set;
use conflaguration::schema::fields::field_keys;
use conflaguration::schema::fields::field_name_to_env_key;
use conflaguration::schema::fields::field_segment_names;
use conflaguration::schema::fields::field_source;
use conflaguration::schema::fields::field_update;
use conflaguration::schema::fields::key_refs;
use conflaguration::schema::fields::nested_child_prefix;
use conflaguration::schema::fields::resolve_call;
use conflaguration::schema::fields::FieldSource;
use conflaguration::schema::fields::FieldUpdate;
use conflaguration::schema::fields::ResolveCall;
use conflaguration::schema::plan::cascaded_fields;
use conflaguration::schema::plan::settings_attrs;
use conflaguration::schema::plan::DeclShape;
use conflaguration::schema::plan::FieldDecl;
use conflaguration::schema::plan::TypeShape;
use conflaguration::schema::render::display_field;
use conflaguration::schema::render::display_keys;
use conflaguration::Error;
use conflaguration::Result;
use conflaguration::Settings;
use conflaguration::Validate;
use conflaguration::ValidationMessage;

fn text(s: &str) -> MetaValue {
    MetaValue::Lit(Literal::Str(s.to_string()))
}

fn lit(s: &str) -> MetaValue {
    MetaValue::Lit(Literal::Other(s.to_string()))
}

fn bare() -> MetaValue {
    MetaValue::Bare
}

fn item(name: &str, value: MetaValue) -> MetaItem {
    MetaItem { name: name.to_string(), value }
}

fn attrs(items: Vec<MetaItem>) -> FieldAttrs {
    parse_field_attrs(&items).unwrap_or_else(|err| panic!("refused: {}", err.message()))
}

fn refusal(items: Vec<MetaItem>) -> AttrError {
    match parse_field_attrs(&items) {
        Ok(_) => panic!("expected the attributes to be refused"),
        Err(err) => err,
    }
}

fn field(name: &str, items: Vec<MetaItem>) -> FieldDecl {
    FieldDecl { name: name.to_string(), items, shape: TypeShape::Other, type_text: String::new() }
}

// ---------------------------------------------------------------------------
// The prefix a struct declares.

struct BasicConfig {
    port: u16,
    host: String,
    debug: bool,
}

impl BasicConfig {
    fn declaration() -> (Vec<MetaItem>, Vec<FieldDecl>) {
        (
            vec![item("prefix", text("CONFLAG_TEST"))],
            vec![
                field("port", vec![item("default", lit("8080"))]),
                field("host", vec![item("default", text("localhost"))]),
                field("debug", vec![item("default", lit("false"))]),
            ],
        )
    }
}

impl Settings for BasicConfig {
    const PREFIX: Option<&'static str> = Some("CONFLAG_TEST");

    fn from_env() -> Result<Self> {
        Self::from_env_with_prefix(Self::PREFIX.unwrap_or(""))
    }

    fn from_env_with_prefix(prefix: &str) -> Result<Self> {
        let (items, fields) = Self::declaration();
        let (struct_attrs, field_attrs) = settings_attrs(&items, &DeclShape::Named(Self::declaration().1), TraitKind::Settings).unwrap_or_else(|err| panic!("{}", err.message()));
        let source = |i: usize| field_source(prefix, &fields[i].name, &field_attrs[i], &struct_attrs, None);
        let port = match source(0) {
            FieldSource::Scalar { keys, call: ResolveCall::Or { .. } } => resolve_or(&key_refs(&keys), 8080)?,
            _ => panic!("port is a scalar with a typed default"),
        };
        let host = match source(1) {
            FieldSource::Scalar { keys, call: ResolveCall::OrParse { text } } => resolve_or_parse(&key_refs(&keys), &text)?,
            _ => panic!("host is a scalar with a string default"),
        };
        let debug = match source(2) {
            FieldSource::Scalar { keys, call: ResolveCall::Or { .. } } => resolve_or(&key_refs(&keys), false)?,
            _ => panic!("debug is a scalar with a typed default"),
        };
        Ok(Self { port, host, debug })
    }

    fn override_from_env(&mut self) -> Result<()> {
        self.override_from_env_with_prefix(Self::PREFIX.unwrap_or(""))
    }

    fn override_from_env_with_prefix(&mut self, prefix: &str) -> Result<()> {
        let (items, fields) = Self::declaration();
        let (struct_attrs, field_attrs) = settings_attrs(&items, &DeclShape::Named(Self::declaration().1), TraitKind::Settings).unwrap_or_else(|err| panic!("{}", err.message()));
        for (i, decl) in fields.iter().enumerate() {
            if let FieldUpdate::Scalar { keys, parser: None } = field_update(prefix, &decl.name, &field_attrs[i], &struct_attrs, None) {
                let refs = key_refs(&keys);
                if any_key_set(&refs) {
                    match i {
                        0 => self.port = resolve(&refs)?,
                        1 => self.host = resolve(&refs)?,
                        _ => self.debug = resolve(&refs)?,
                    }
                }
            }
        }
        Ok(())
    }
}

struct NoPrefixConfig;

impl Settings for NoPrefixConfig {
    fn from_env() -> Result<Self> {
        Ok(Self)
    }
}

struct InnerConfig;

impl Settings for InnerConfig {
    const PREFIX: Option<&'static str> = Some("CONFLAG_INNER");

    fn from_env() -> Result<Self> {
        Ok(Self)
    }
}

#[test]
fn prefix_const_is_set() {
    assert_eq!(BasicConfig::PREFIX, Some("CONFLAG_TEST"));
    assert_eq!(NoPrefixConfig::PREFIX, None);
    assert_eq!(InnerConfig::PREFIX, Some("CONFLAG_INNER"));
}

#[test]
fn basic_defaults() {
    temp_env::with_vars([("CONFLAG_TEST_PORT", None::<&str>), ("CONFLAG_TEST_HOST", None::<&str>), ("CONFLAG_TEST_DEBUG", None::<&str>)], || {
        let config = BasicConfig::from_env().unwrap_or_else(|err| panic!("from_env failed: {}", err.to_string()));
        assert_eq!(config.port, 8080);
        assert_eq!(config.host, "localhost");
        assert!(!config.debug);
    });
}

#[test]
fn basic_reads_env() {
    temp_env::with_vars(
        [("CONFLAG_TEST_PORT", Some("3000")), ("CONFLAG_TEST_HOST", Some("0.0.0.0")), ("CONFLAG_TEST_DEBUG", Some("true"))],
        || {
            let config = BasicConfig::from_env().unwrap_or_else(|err| panic!("from_env failed: {}", err.to_string()));
            assert_eq!(config.port, 3000);
            assert_eq!(config.host, "0.0.0.0");
            assert!(config.debug);
        },
    );
}

#[test]
fn from_env_with_prefix_overrides_keys() {
    temp_env::with_vars([("CUSTOM_PORT", Some("7777")), ("CUSTOM_HOST", Some("custom.host")), ("CUSTOM_DEBUG", Some("true"))], || {
        let config = BasicConfig::from_env_with_prefix("CUSTOM").unwrap_or_else(|err| panic!("failed: {}", err.to_string()));
        assert_eq!(config.port, 7777);
        assert_eq!(config.host, "custom.host");
        assert!(config.debug);
    });
}

#[test]
fn override_from_env_touches_only_set_keys() {
    temp_env::with_vars([("CONFLAG_TEST_PORT", Some("4444")), ("CONFLAG_TEST_HOST", None::<&str>), ("CONFLAG_TEST_DEBUG", None::<&str>)], || {
        let mut config = BasicConfig { port: 1, host: "kept".into(), debug: true };
        config.override_from_env().unwrap_or_else(|err| panic!("failed: {}", err.to_string()));
        assert_eq!(config.port, 4444);
        assert_eq!(config.host, "kept");
        assert!(config.debug);
    });
}

#[test]
fn no_keys_are_never_set() {
    assert!(!any_key_set(&[]));
}

// ---------------------------------------------------------------------------
// Which attributes are accepted.

#[test]
fn unknown_settings_attribute_errors() {
    let result = parse_struct_attrs(&[item("bogus", text("nope"))]);
    assert_eq!(result.err().map(|e| e.message()), Some("unknown settings attribute"));
}

#[test]
fn unknown_setting_field_attribute_errors() {
    assert_eq!(refusal(vec![item("bogus", bare())]).message(), "unknown setting attribute");
}

#[test]
fn nested_and_flatten_conflict_errors() {
    let err = refusal(vec![item("nested", bare()), item("flatten", bare())]);
    assert!(err.message().contains("mutually exclusive"));
}

#[test]
fn prefix_without_nested_errors() {
    let err = refusal(vec![item("prefix", text("X"))]);
    assert!(err.message().contains("require nested"));
}

#[test]
fn prefix_and_override_prefix_conflict_errors() {
    let err = refusal(vec![item("nested", bare()), item("prefix", text("X")), item("override_prefix", text("Y"))]);
    assert!(err.message().contains("only one of prefix or override_prefix"));
}

#[test]
fn bare_default_with_default_value_is_refused() {
    assert_eq!(refusal(vec![item("default", bare()), item("default", lit("42"))]), AttrError::MultipleDefaults);
}

#[test]
fn default_and_default_str_are_refused() {
    let err = refusal(vec![item("default", lit("42")), item("default_str", text("99"))]);
    assert_eq!(err.message(), "only one of default, default = value, or default_str allowed");
}

#[test]
fn flatten_with_default_is_refused() {
    assert_eq!(refusal(vec![item("flatten", bare()), item("default", bare())]), AttrError::SubSettingsWithScalar);
}

#[test]
fn nested_with_default_is_refused() {
    assert_eq!(refusal(vec![item("nested", bare()), item("default", lit("42"))]), AttrError::SubSettingsWithScalar);
}

#[test]
fn nested_with_override_is_refused() {
    assert_eq!(refusal(vec![item("nested", bare()), item("r#override", bare())]), AttrError::SubSettingsWithScalar);
}

#[test]
fn nested_with_resolve_with_is_refused() {
    assert_eq!(refusal(vec![item("nested", bare()), item("resolve_with", text("noop"))]), AttrError::SubSettingsWithScalar);
}

#[test]
fn override_prefix_without_nested_is_refused() {
    assert_eq!(refusal(vec![item("override_prefix", text("CUSTOM"))]), AttrError::PrefixWithoutNested);
}

#[test]
fn resolve_with_bad_path_is_refused() {
    assert_eq!(refusal(vec![item("resolve_with", text("not a valid path!!!"))]), AttrError::InvalidPath);
}

#[test]
fn resolve_with_accepts_paths() {
    let parsed = attrs(vec![item("resolve_with", text("crate::parse::comma_list"))]);
    assert_eq!(parsed.resolve_with.as_deref(), Some("crate::parse::comma_list"));
}

#[test]
fn skip_with_default_is_refused() {
    assert_eq!(refusal(vec![item("skip", bare()), item("default", lit("42"))]), AttrError::SkipCombined);
}

#[test]
fn skip_with_override_is_refused() {
    assert_eq!(refusal(vec![item("skip", bare()), item("r#override", bare())]), AttrError::SkipCombined);
}

#[test]
fn value_kinds_are_checked() {
    assert_eq!(refusal(vec![item("prefix", bare())]), AttrError::ExpectedValue);
    assert_eq!(refusal(vec![item("envs", lit("5"))]), AttrError::ExpectedString);
    assert_eq!(refusal(vec![item("default", MetaValue::List(vec!["a".into()]))]), AttrError::ExpectedLiteral);
    assert_eq!(refusal(vec![item("nested", text("yes"))]), AttrError::UnexpectedValue);
    assert!(attrs(vec![item("override_prefix", bare()), item("nested", bare())]).inherit_prefix);
}

#[test]
fn the_first_refused_item_is_the_error() {
    assert_eq!(refusal(vec![item("bogus", bare()), item("prefix", bare())]), AttrError::UnknownFieldAttribute);
}

#[test]
fn a_later_item_wins() {
    let parsed = attrs(vec![item("envs", text("A")), item("envs", MetaValue::List(vec!["B".into(), "C".into()]))]);
    assert_eq!(parsed.envs, vec!["B", "C"]);
    let parsed = parse_struct_attrs(&[item("prefix", text("ONE")), item("prefix", text("TWO"))]).unwrap_or_else(|e| panic!("{}", e.message()));
    assert_eq!(parsed.prefix.as_deref(), Some("TWO"));
}

#[test]
fn every_field_attribute_is_read() {
    let parsed = attrs(vec![item("envs", text("PORT")), item("override", bare()), item("default_str", text("80")), item("sensitive", bare())]);
    assert_eq!(parsed.envs, vec!["PORT"]);
    assert!(parsed.envs_override && parsed.sensitive);
    assert_eq!(parsed.default_str.as_deref(), Some("80"));
    let nested = attrs(vec![item("nested", bare()), item("override_prefix", text("PG"))]);
    assert!(nested.nested);
    assert_eq!(nested.override_prefix.as_deref(), Some("PG"));
    assert!(validate_field_attrs(&nested).is_ok());
    let skipped = attrs(vec![item("skip", bare())]);
    assert!(skipped.skip);
}

#[test]
fn the_first_field_refused_stops_the_declaration() {
    let fields = vec![field("a", vec![item("skip", bare()), item("default", bare())]), field("b", vec![item("bogus", bare())])];
    let shape = DeclShape::Named(fields);
    assert_eq!(settings_attrs(&[], &shape, TraitKind::Settings).err(), Some(AttrError::SkipCombined));
    assert_eq!(settings_attrs(&[item("bogus", bare())], &shape, TraitKind::Settings).err(), Some(AttrError::UnknownStructAttribute));
}

// ---------------------------------------------------------------------------
// Which keys a field reads.

#[test]
fn field_names_become_uppercase_segments() {
    assert_eq!(field_name_to_env_key("pool_threads"), "POOL_THREADS");
    assert_eq!(field_segment_names("port", &attrs(vec![])), vec!["PORT"]);
    assert_eq!(field_segment_names("port", &attrs(vec![item("envs", MetaValue::List(vec!["P".into(), "Q".into()]))])), vec!["P", "Q"]);
}

#[test]
fn scalar_keys_join_the_prefix_unless_overridden() {
    assert_eq!(field_keys("APP", "port", &attrs(vec![])), vec!["APP_PORT"]);
    assert_eq!(field_keys("", "port", &attrs(vec![])), vec!["PORT"]);
    let cascade = attrs(vec![item("envs", MetaValue::List(vec!["PORT".into(), "HTTP_PORT".into()]))]);
    assert_eq!(field_keys("CONFLAG_MENV", "port", &cascade), vec!["CONFLAG_MENV_PORT", "CONFLAG_MENV_HTTP_PORT"]);
    let exact = attrs(vec![item("envs", text("DATABASE_URL")), item("override", bare())]);
    assert_eq!(field_keys("APP", "url", &exact), vec!["DATABASE_URL"]);
    assert_eq!(field_keys("OTHER", "url", &exact), vec!["DATABASE_URL"]);
}

#[test]
fn nested_prefixes_follow_the_readme() {
    let nested = attrs(vec![item("nested", bare())]);
    assert_eq!(nested_child_prefix("APP", "primary", &nested, None), "APP_PRIMARY");
    let renamed = attrs(vec![item("nested", bare()), item("prefix", text("RO"))]);
    assert_eq!(nested_child_prefix("APP", "replica", &renamed, None), "APP_RO");
    let absolute = attrs(vec![item("nested", bare()), item("override_prefix", text("SHARED"))]);
    assert_eq!(nested_child_prefix("APP", "cache", &absolute, None), "SHARED");
    assert_eq!(nested_child_prefix("ELSEWHERE", "cache", &absolute, None), "SHARED");
    let host = attrs(vec![]);
    assert_eq!(field_keys(&nested_child_prefix("APP", "primary", &nested, None), "host", &host), vec!["APP_PRIMARY_HOST"]);
}

#[test]
fn sources_follow_the_attributes() {
    let (struct_attrs, _) = settings_attrs(&[], &DeclShape::Named(vec![]), TraitKind::Settings).unwrap_or_else(|e| panic!("{}", e.message()));
    assert!(matches!(field_source("APP", "x", &attrs(vec![item("skip", bare())]), &struct_attrs, None), FieldSource::Skipped));
    assert!(matches!(field_source("APP", "x", &attrs(vec![item("flatten", bare())]), &struct_attrs, None), FieldSource::Flattened));
    match field_source("APP", "db", &attrs(vec![item("nested", bare())]), &struct_attrs, None) {
        FieldSource::Nested { prefix } => assert_eq!(prefix, "APP_DB"),
        _ => panic!("expected a nested source"),
    }
    match field_source("APP", "port", &attrs(vec![]), &struct_attrs, None) {
        FieldSource::Scalar { keys, call: ResolveCall::Required } => assert_eq!(keys, vec!["APP_PORT"]),
        _ => panic!("expected a required scalar"),
    }
    assert!(matches!(field_update("APP", "x", &attrs(vec![item("skip", bare())]), &struct_attrs, None), FieldUpdate::Kept));
}

#[test]
fn struct_parser_is_inherited_without_a_typed_default() {
    let struct_attrs = parse_struct_attrs(&[item("resolve_with", text("comma_list"))]).unwrap_or_else(|e| panic!("{}", e.message()));
    match field_source("", "tags", &attrs(vec![]), &struct_attrs, None) {
        FieldSource::Scalar { call: ResolveCall::Parser { parser }, .. } => assert_eq!(parser, "comma_list"),
        _ => panic!("expected the struct's parser"),
    }
    match field_source("", "tags", &attrs(vec![item("default_str", text("a,b"))]), &struct_attrs, None) {
        FieldSource::Scalar { call: ResolveCall::ParserOrText { parser, text }, .. } => {
            assert_eq!(parser, "comma_list");
            assert_eq!(text, "a,b");
        }
        _ => panic!("expected the struct's parser with the text default"),
    }
    match field_source("", "port", &attrs(vec![item("default", lit("5"))]), &struct_attrs, None) {
        FieldSource::Scalar { call: ResolveCall::Or { default: Literal::Other(v) }, .. } => assert_eq!(v, "5"),
        _ => panic!("a typed default keeps the type's own parsing"),
    }
}

#[test]
fn resolve_calls_follow_the_defaults() {
    assert!(matches!(resolve_call(&attrs(vec![])), ResolveCall::Required));
    assert!(matches!(resolve_call(&attrs(vec![item("default", bare())])), ResolveCall::OrDefault));
    assert!(matches!(resolve_call(&attrs(vec![item("default", text("x"))])), ResolveCall::OrParse { .. }));
    assert!(matches!(resolve_call(&attrs(vec![item("default_str", text("8080"))])), ResolveCall::OrParse { .. }));
    assert!(matches!(resolve_call(&attrs(vec![item("default", lit("1"))])), ResolveCall::Or { .. }));
    let with = |extra: Vec<MetaItem>| {
        let mut items = vec![item("resolve_with", text("p"))];
        items.extend(extra);
        resolve_call(&attrs(items))
    };
    assert!(matches!(with(vec![]), ResolveCall::Parser { .. }));
    assert!(matches!(with(vec![item("default", lit("1"))]), ResolveCall::ParserOr { .. }));
    assert!(matches!(with(vec![item("default", bare())]), ResolveCall::ParserOrDefault { .. }));
    assert!(matches!(with(vec![item("default_str", text("a"))]), ResolveCall::ParserOrText { .. }));
}

// ---------------------------------------------------------------------------
// How a field is shown.

#[test]
fn config_display_shows_fields_and_keys() {
    let (line, sub) = display_field(0, "DISP_BASIC", "port", &attrs(vec![item("default", lit("8080"))]), "8080", None);
    assert_eq!(line, "port = 8080 (DISP_BASIC_PORT)\n");
    assert!(sub.is_none());
    let (line, _) = display_field(0, "DISP_BASIC", "host", &attrs(vec![]), "\"localhost\"", None);
    assert_eq!(line, "host = \"localhost\" (DISP_BASIC_HOST)\n");
}

#[test]
fn config_display_shows_override_key() {
    let exact = attrs(vec![item("envs", text("ALT_PORT")), item("r#override", bare())]);
    assert_eq!(display_field(0, "DISP_MULTI", "port", &exact, "9090", None).0, "port = 9090 (ALT_PORT)\n");
}

#[test]
fn config_display_shows_prefixed_envs_keys() {
    let cascade = attrs(vec![item("envs", MetaValue::List(vec!["PORT".into(), "HTTP_PORT".into()]))]);
    assert_eq!(display_keys("DISP_ENVS", "port", &cascade), "DISP_ENVS_PORT, DISP_ENVS_HTTP_PORT");
}

#[test]
fn config_display_shows_override_envs_keys() {
    let exact = attrs(vec![item("envs", MetaValue::List(vec!["PRIMARY_PORT".into(), "FALLBACK_PORT".into()])), item("override", bare())]);
    assert_eq!(display_keys("DISP_OENVS", "port", &exact), "PRIMARY_PORT, FALLBACK_PORT");
}

#[test]
fn nested_display_indents_under_the_child_prefix() {
    let (header, sub) = display_field(0, "DISP_OUTER", "inner", &attrs(vec![item("nested", bare())]), "", None);
    assert_eq!(header, "inner:\n");
    let child = sub.expect("a sub-struct is shown under its prefix");
    assert_eq!(child, "DISP_OUTER_INNER");
    let (line, _) = display_field(1, &child, "url", &attrs(vec![]), "\"redis://localhost\"", None);
    assert_eq!(line, "  url = \"redis://localhost\" (DISP_OUTER_INNER_URL)\n");
    let (_, flat) = display_field(2, "P", "tls", &attrs(vec![item("flatten", bare())]), "", None);
    assert_eq!(flat.as_deref(), Some("P"));
}

#[test]
fn config_display_shows_skipped_fields() {
    let (value, _) = display_field(0, "DISP_SKIP", "value", &attrs(vec![item("default", lit("42"))]), "42", None);
    let (computed, _) = display_field(0, "DISP_SKIP", "computed", &attrs(vec![item("skip", bare())]), "\"\"", None);
    let output = format!("{}{}", value, computed);
    assert!(output.contains("value = 42 (DISP_SKIP_VALUE)"));
    assert!(output.contains("computed = \"\" (skipped)"));
}

#[test]
fn config_display_masks_sensitive_fields() {
    let username = attrs(vec![item("default", text("admin"))]);
    let password = attrs(vec![item("sensitive", bare()), item("default", text("s3cret"))]);
    let token = attrs(vec![item("envs", text("API_TOKEN")), item("r#override", bare()), item("sensitive", bare())]);
    let output = [
        display_field(0, "DISP_SENS", "username", &username, "\"admin\"", None).0,
        display_field(0, "DISP_SENS", "password", &password, "\"s3cret\"", None).0,
        display_field(0, "DISP_SENS", "token", &token, "None", None).0,
    ]
    .concat();
    assert!(output.contains("username = \"admin\" (DISP_SENS_USERNAME)"));
    assert!(output.contains("password = *** (DISP_SENS_PASSWORD)"));
    assert!(!output.contains("s3cret"));
}

#[test]
fn config_display_masks_sensitive_even_when_set() {
    let password = attrs(vec![item("sensitive", bare()), item("default", text("s3cret"))]);
    let token = attrs(vec![item("envs", text("API_TOKEN")), item("r#override", bare()), item("sensitive", bare())]);
    let output = [
        display_field(0, "DISP_SENS", "password", &password, "\"hunter2\"", None).0,
        display_field(0, "DISP_SENS", "token", &token, "Some(\"tok_abc123\")", None).0,
    ]
    .concat();
    assert!(output.contains("password = *** (DISP_SENS_PASSWORD)"));
    assert!(output.contains("token = *** (API_TOKEN)"));
    assert!(!output.contains("hunter2"));
    assert!(!output.contains("tok_abc123"));
}

#[test]
fn any_found_sees_any_set_lookup() {
    assert!(!any_found(&[]));
    assert!(!any_found(&[None, None]));
    assert!(any_found(&[None, Some("1".to_string())]));
}

// ---------------------------------------------------------------------------
// Validation that cascades into sub-structs.

struct Inner {
    port: u16,
}

impl Validate for Inner {
    fn validate(&self) -> Result<()> {
        if self.port == 0 {
            Err(Error::Validation { errors: vec![ValidationMessage::new("port", "must be > 0")] })
        } else {
            Ok(())
        }
    }
}

struct Second {
    name: String,
}

impl Validate for Second {
    fn validate(&self) -> Result<()> {
        if self.name.is_empty() {
            Err(Error::Validation { errors: vec![ValidationMessage::new("name", "must not be empty")] })
        } else {
            Ok(())
        }
    }
}

struct Outer {
    debug: bool,
    first: Inner,
    second: Second,
}

impl Validate for Outer {
    fn validate(&self) -> Result<()> {
        let fields = vec![
            field("debug", vec![item("default", lit("false"))]),
            field("first", vec![item("nested", bare())]),
            field("second", vec![item("flatten", bare())]),
        ];
        let cascaded = cascaded_fields(&DeclShape::Named(fields)).unwrap_or_else(|e| panic!("{}", e.message()));
        assert_eq!(cascaded, vec!["first", "second"]);
        let mut errors = Vec::new();
        absorb_nested(&mut errors, "first", self.first.validate())?;
        absorb_nested(&mut errors, "second", self.second.validate())?;
        verdict(errors)
    }
}

#[test]
fn derived_validate_collects_errors_from_multiple_nested() {
    let config = Outer { debug: false, first: Inner { port: 0 }, second: Second { name: String::new() } };
    let msg = match config.validate() {
        Err(err) => err.to_string(),
        Ok(()) => panic!("expected validation errors"),
    };
    assert!(msg.contains("first.port: must be > 0"));
    assert!(msg.contains("second.name: must not be empty"));
}

#[test]
fn derived_validate_cascade_passes_when_valid() {
    let config = Outer { debug: true, first: Inner { port: 8080 }, second: Second { name: "x".into() } };
    assert!(config.validate().is_ok());
}

#[test]
fn derived_validate_deep_nesting_builds_path() {
    let mut middle = Vec::new();
    absorb_nested(&mut middle, "level3", Err(Error::Validation { errors: vec![ValidationMessage::new("value", "must not be zero")] }))
        .unwrap_or_else(|e| panic!("{}", e.to_string()));
    let mut top = Vec::new();
    absorb_nested(&mut top, "level2", verdict(middle)).unwrap_or_else(|e| panic!("{}", e.to_string()));
    let msg = verdict(top).err().map(|e| e.to_string()).unwrap_or_default();
    assert!(msg.contains("level2.level3.value: must not be zero"));
}

#[test]
fn cascade_collects_in_field_order() {
    let mut errors = Vec::new();
    let first = Err(Error::Validation { errors: vec![ValidationMessage::new("x", "bad x")] });
    let third = Err(Error::Validation {
        errors: vec![ValidationMessage::new("y", "bad y"), ValidationMessage::new("", "whole struct")],
    });
    assert!(absorb_nested(&mut errors, "a", first).is_ok());
    assert!(absorb_nested(&mut errors, "b", Ok(())).is_ok());
    assert!(absorb_nested(&mut errors, "c", third).is_ok());
    match verdict(errors) {
        Err(Error::Validation { errors }) => {
            let seen: Vec<(String, String)> = errors.into_iter().map(|m| (m.path, m.message)).collect();
            assert_eq!(
                seen,
                vec![
                    ("a.x".to_string(), "bad x".to_string()),
                    ("c.y".to_string(), "bad y".to_string()),
                    ("c".to_string(), "whole struct".to_string()),
                ]
            );
        }
        _ => panic!("expected a validation failure"),
    }
}

#[test]
fn other_errors_stop_the_cascade() {
    let mut errors = vec![ValidationMessage::new("a", "b")];
    let outcome = absorb_nested(&mut errors, "first", Err(Error::NoSource));
    assert!(matches!(outcome, Err(Error::NoSource)));
    assert_eq!(errors.len(), 1);
    assert!(verdict(Vec::new()).is_ok());
}

#[test]
fn displayed_keys_are_the_keys_read() {
    let (struct_attrs, _) = settings_attrs(&[], &DeclShape::Named(vec![]), TraitKind::Settings).unwrap_or_else(|e| panic!("{}", e.message()));
    let cascade = attrs(vec![item("envs", MetaValue::List(vec!["PORT".into(), "HTTP_PORT".into()]))]);
    match field_source("APP", "port", &cascade, &struct_attrs, None) {
        FieldSource::Scalar { keys, .. } => assert_eq!(display_keys("APP", "port", &cascade), keys.join(", ")),
        _ => panic!("expected a scalar"),
    }
    let nested = attrs(vec![item("nested", bare()), item("prefix", text("RO"))]);
    match field_source("APP", "replica", &nested, &struct_attrs, None) {
        FieldSource::Nested { prefix } => assert_eq!(display_field(0, "APP", "replica", &nested, "", None).1, Some(prefix)),
        _ => panic!("expected a nested source"),
    }
}

#[test]
fn settings_rejects_enum() {
    let err = settings_attrs(&[], &DeclShape::Enum, TraitKind::Settings).err().expect("refused");
    assert!(err.message().contains("structs"));
}

#[test]
fn settings_rejects_tuple_struct() {
    let err = settings_attrs(&[], &DeclShape::Unnamed, TraitKind::Settings).err().expect("refused");
    assert!(err.message().contains("named"));
}

#[test]
fn validate_rejects_enum() {
    let err = cascaded_fields(&DeclShape::Enum).err().expect("refused");
    assert!(err.message().contains("structs"));
    assert_eq!(err.message(), "Validate can only be derived on structs");
}

#[test]
fn validate_rejects_tuple_struct() {
    let err = cascaded_fields(&DeclShape::Unnamed).err().expect("refused");
    assert!(err.message().contains("named"));
}

#[test]
fn config_display_rejects_enum() {
    let err = settings_attrs(&[], &DeclShape::Enum, TraitKind::ConfigDisplay).err().expect("refused");
    assert!(err.message().contains("structs"));
    assert_eq!(err.message(), "ConfigDisplay can only be derived on structs");
}

// ---------------------------------------------------------------------------
// A bare `override_prefix`: the nested struct's own prefix under the parent's.

struct AccumInner {
    value: String,
}

impl AccumInner {
    fn declaration() -> (Vec<MetaItem>, DeclShape) {
        (vec![item("prefix", text("ACCUM_INNER"))], DeclShape::Named(vec![field("value", vec![item("default", text("default_val"))])]))
    }
}

impl Settings for AccumInner {
    const PREFIX: Option<&'static str> = Some("ACCUM_INNER");

    fn from_env() -> Result<Self> {
        Self::from_env_with_prefix(Self::PREFIX.unwrap_or(""))
    }

    fn from_env_with_prefix(prefix: &str) -> Result<Self> {
        let (items, shape) = Self::declaration();
        let (struct_attrs, field_attrs) = settings_attrs(&items, &shape, TraitKind::Settings).unwrap_or_else(|err| panic!("{}", err.message()));
        match field_source(prefix, "value", &field_attrs[0], &struct_attrs, None) {
            FieldSource::Scalar { keys, call: ResolveCall::OrParse { text } } => Ok(Self { value: resolve_or_parse(&key_refs(&keys), &text)? }),
            _ => panic!("value is a scalar with a string default"),
        }
    }
}

struct AccumOuter {
    count: i32,
    inner: AccumInner,
}

impl AccumOuter {
    fn declaration() -> (Vec<MetaItem>, DeclShape) {
        (
            vec![item("prefix", text("ACCUM_OUTER"))],
            DeclShape::Named(vec![
                field("count", vec![item("default", lit("1"))]),
                field("inner", vec![item("nested", bare()), item("override_prefix", bare())]),
            ]),
        )
    }
}

impl Settings for AccumOuter {
    const PREFIX: Option<&'static str> = Some("ACCUM_OUTER");

    fn from_env() -> Result<Self> {
        Self::from_env_with_prefix(Self::PREFIX.unwrap_or(""))
    }

    fn from_env_with_prefix(prefix: &str) -> Result<Self> {
        let (items, shape) = Self::declaration();
        let (struct_attrs, field_attrs) = settings_attrs(&items, &shape, TraitKind::Settings).unwrap_or_else(|err| panic!("{}", err.message()));
        let count = match field_source(prefix, "count", &field_attrs[0], &struct_attrs, None) {
            FieldSource::Scalar { keys, call: ResolveCall::Or { .. } } => resolve_or(&key_refs(&keys), 1)?,
            _ => panic!("count is a scalar with a typed default"),
        };
        let inner = match field_source(prefix, "inner", &field_attrs[1], &struct_attrs, AccumInner::PREFIX) {
            FieldSource::Nested { prefix: child } => AccumInner::from_env_with_prefix(&child)?,
            _ => panic!("inner is nested"),
        };
        Ok(Self { count, inner })
    }
}

#[test]
fn override_prefix_bare_accumulates() {
    temp_env::with_vars(
        [
            ("ACCUM_OUTER_COUNT", None::<&str>),
            ("ACCUM_OUTER_ACCUM_INNER_VALUE", Some("accumulated")),
            ("ACCUM_INNER_VALUE", None::<&str>),
        ],
        || {
            let config = AccumOuter::from_env().unwrap_or_else(|err| panic!("from_env failed: {}", err.to_string()));
            assert_eq!(config.count, 1);
            assert_eq!(config.inner.value, "accumulated");
        },
    );
}

#[test]
fn override_prefix_bare_falls_back_to_default() {
    temp_env::with_vars(
        [
            ("ACCUM_OUTER_COUNT", None::<&str>),
            ("ACCUM_OUTER_ACCUM_INNER_VALUE", None::<&str>),
            ("ACCUM_INNER_VALUE", None::<&str>),
        ],
        || {
            let config = AccumOuter::from_env().unwrap_or_else(|err| panic!("from_env failed: {}", err.to_string()));
            assert_eq!(config.inner.value, "default_val");
        },
    );
}

#[test]
fn from_env_with_prefix_propagates_to_override_prefix() {
    temp_env::with_vars([("RUNTIME_COUNT", Some("99")), ("RUNTIME_ACCUM_INNER_VALUE", Some("runtime_accumulated"))], || {
        let config = AccumOuter::from_env_with_prefix("RUNTIME").unwrap_or_else(|err| panic!("from_env_with_prefix failed: {}", err.to_string()));
        assert_eq!(config.count, 99);
        assert_eq!(config.inner.value, "runtime_accumulated");
    });
}

#[test]
fn bare_override_prefix_rules() {
    let bare_one = attrs(vec![item("nested", bare()), item("override_prefix", bare())]);
    assert_eq!(nested_child_prefix("P", "inner", &bare_one, Some("OWN")), "P_OWN");
    assert_eq!(nested_child_prefix("", "inner", &bare_one, Some("OWN")), "OWN");
    assert_eq!(nested_child_prefix("P", "inner", &bare_one, None), "P_INNER");
    assert_eq!(refusal(vec![item("override_prefix", bare())]), AttrError::PrefixWithoutNested);
    assert_eq!(refusal(vec![item("nested", bare()), item("prefix", text("X")), item("override_prefix", bare())]), AttrError::PrefixAndOverridePrefix);
    let later_value = attrs(vec![item("nested", bare()), item("override_prefix", bare()), item("override_prefix", text("ABS"))]);
    assert!(!later_value.inherit_prefix);
    assert_eq!(nested_child_prefix("P", "inner", &later_value, Some("OWN")), "ABS");
}
