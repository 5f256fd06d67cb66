//! The crate's error type and the validation messages it collects.

use environs::Error as EnvironsError;
use serde_json::Error as JsonError;
use serde_yaml::Error as YamlError;
use toml::de::Error as TomlError;
use crate::schema::text::concat;
use vstd::prelude::*;
use vstd::string::StringExecFns;

verus! {

#[verifier::external_type_specification]
#[verifier::external_body]
pub struct ExEnvironsError(EnvironsError);

#[verifier::external_type_specification]
#[verifier::external_body]
pub struct ExIoError(std::io::Error);

#[verifier::external_type_specification]
#[verifier::external_body]
pub struct ExTomlError(TomlError);

#[verifier::external_type_specification]
#[verifier::external_body]
pub struct ExJsonError(JsonError);

#[verifier::external_type_specification]
#[verifier::external_body]
pub struct ExYamlError(YamlError);

#[verifier::external_type_specification]
#[verifier::external_body]
pub struct ExValueSerializeError(serde_value::SerializerError);

#[verifier::external_type_specification]
#[verifier::external_body]
pub struct ExValueDeserializeError(serde_value::DeserializerError);

/// The dotted path after `prefix` is prepended to `path`.
pub open spec fn spec_prepend_path(prefix: Seq<char>, path: Seq<char>) -> Seq<char> {
    if path.len() == 0 {
        prefix
    } else {
        prefix + "."@ + path
    }
}

/// How a validation message reads: `path: message`, or the bare message when
/// the path is empty.
pub open spec fn spec_message_text(path: Seq<char>, message: Seq<char>) -> Seq<char> {
    if path.len() == 0 {
        message
    } else {
        path + ": "@ + message
    }
}

/// A single validation failure, keyed by dotted field path.
#[derive(Debug, Clone)]
pub struct ValidationMessage {
    /// Dotted path to the offending field, e.g. `database.host`.
    pub path: String,
    /// Human-readable failure reason.
    pub message: String,
}

impl ValidationMessage {
    /// Build a message for `path` with the given failure `message`.
    pub fn new<P: Into<String>, M: Into<String>>(path: P, message: M) -> (msg: Self)
        ensures
            call_ensures(P::into, (path,), msg.path),
            call_ensures(M::into, (message,), msg.message),
    {
        ValidationMessage { path: path.into(), message: message.into() }
    }

    /// Prepend a parent segment to the path, building the dotted chain as
    /// errors bubble up through nested structs.
    pub fn prepend_path(&mut self, prefix: &str)
        ensures
            final(self).path@ == spec_prepend_path(prefix@, old(self).path@),
            final(self).message == old(self).message,
    {
        if self.path.as_str().is_empty() {
            self.path = prefix.to_owned();
        } else {
            let mut path = concat(prefix, ".");
            path.append(self.path.as_str());
            self.path = path;
        }
    }

    /// The message as displayed: `path: message`, or the bare message when the
    /// path is empty.
    pub fn to_string(&self) -> (text: String)
        ensures
            text@ == spec_message_text(self.path@, self.message@),
    {
        if self.path.as_str().is_empty() {
            self.message.clone()
        } else {
            let mut text = concat(self.path.as_str(), ": ");
            text.append(self.message.as_str());
            text
        }
    }
}

/// Prepending `outer` after `inner` is prepending the dotted pair at once: the
/// path is built one parent segment at a time.
pub proof fn law_prepend_path_composes(outer: Seq<char>, inner: Seq<char>, path: Seq<char>)
    requires
        inner.len() > 0,
    ensures
        spec_prepend_path(outer, spec_prepend_path(inner, path)) == spec_prepend_path(
            spec_prepend_path(outer, inner),
            path,
        ),
{
    if path.len() == 0 {
    } else {
        assert(outer + "."@ + (inner + "."@ + path) =~= (outer + "."@ + inner) + "."@ + path);
    }
}

/// All error types produced by the library.
#[non_exhaustive]
#[derive(Debug)]
pub enum Error {
    /// Environment lookup or parse failure from the `environs` layer.
    Env(EnvironsError),
    /// One or more fields failed validation.
    Validation {
        /// The collected per-field failures.
        errors: Vec<ValidationMessage>,
    },
    /// Reading a config file from disk failed.
    Io(std::io::Error),
    /// File extension did not match a supported format.
    UnsupportedFormat(String),
    /// The builder was finalized without any source configured.
    NoSource,
    /// TOML deserialization failed.
    Toml(TomlError),
    /// JSON deserialization failed.
    Json(JsonError),
    /// Serializing a config into the merge medium failed.
    ValueSerialize(serde_value::SerializerError),
    /// Deserializing a config back out of the merge medium failed.
    ValueDeserialize(serde_value::DeserializerError),
    /// YAML deserialization failed.
    Yaml(YamlError),
}

/// The lines of a validation failure: one `  - path: message` line per
/// message, separated by newlines.
pub open spec fn spec_failure_lines(messages: Seq<ValidationMessage>) -> Seq<char>
    decreases messages.len(),
{
    if messages.len() == 0 {
        seq![]
    } else if messages.len() == 1 {
        "  - "@ + spec_message_text(messages[0].path@, messages[0].message@)
    } else {
        spec_failure_lines(messages.drop_last()) + "\n  - "@ + spec_message_text(
            messages.last().path@,
            messages.last().message@,
        )
    }
}

/// The text of a validation failure: the header `validation failed:`, a
/// newline, then the lines of the messages.
pub open spec fn spec_validation_text(messages: Seq<ValidationMessage>) -> Seq<char> {
    "validation failed:\n"@ + spec_failure_lines(messages)
}

/// The text an error with an outside source shows: its prefix, then the
/// source's own text.
pub open spec fn shows_after(text: Seq<char>, prefix: Seq<char>) -> bool {
    exists|rest: Seq<char>| text == prefix + rest
}

impl Error {
    /// The error as displayed. A validation failure reads `validation failed:`
    /// and one `  - path: message` line per failure; an unsupported format reads
    /// `unsupported config format: ` and the format; the other variants show
    /// their source error.
    pub fn to_string(&self) -> (text: String)
        ensures
            self matches Error::Validation { errors } ==> text@ == spec_validation_text(errors@),
            self matches Error::UnsupportedFormat(format) ==> text@ == "unsupported config format: "@
                + format@,
            self is NoSource ==> text@ == "no config source provided to builder"@,
            self is Io ==> shows_after(text@, "io error: "@),
            self is Toml ==> shows_after(text@, "toml: "@),
            self is Json ==> shows_after(text@, "json: "@),
            self is ValueSerialize ==> shows_after(text@, "value serialize: "@),
            self is ValueDeserialize ==> shows_after(text@, "value deserialize: "@),
            self is Yaml ==> shows_after(text@, "yaml: "@),
    {
        match self {
            Error::Env(source) => env_error_text(source),
            Error::Validation { errors } => {
                let mut text = "validation failed:\n".to_owned();
                proof {
                    assert(spec_failure_lines(errors@.subrange(0, 0)) =~= Seq::<char>::empty());
                    assert(text@ =~= "validation failed:\n"@ + spec_failure_lines(
                        errors@.subrange(0, 0),
                    ));
                }
                let mut i: usize = 0;
                while i < errors.len()
                    invariant
                        i <= errors@.len(),
                        text@ == "validation failed:\n"@ + spec_failure_lines(
                            errors@.subrange(0, i as int),
                        ),
                    decreases errors@.len() - i,
                {
                    let ghost before = text@;
                    if i > 0 {
                        text.append("\n");
                    }
                    text.append("  - ");
                    let line = errors[i].to_string();
                    text.append(line.as_str());
                    proof {
                        let head = errors@.subrange(0, i + 1);
                        assert(head.drop_last() =~= errors@.subrange(0, i as int));
                        assert(head.last() == errors@[i as int]);
                        if i == 0 {
                            assert(head.len() == 1);
                            assert(head[0] == errors@[0]);
                            assert(text@ =~= "validation failed:\n"@ + spec_failure_lines(head));
                        } else {
                            reveal_strlit("\n");
                            reveal_strlit("  - ");
                            reveal_strlit("\n  - ");
                            assert(head.len() >= 2);
                            assert(text@ =~= "validation failed:\n"@ + spec_failure_lines(head));
                        }
                    }
                    i = i + 1;
                }
                proof {
                    assert(errors@.subrange(0, errors@.len() as int) =~= errors@);
                }
                text
            },
            Error::Io(source) => concat("io error: ", io_error_text(source).as_str()),
            Error::UnsupportedFormat(format) => concat("unsupported config format: ", format.as_str()),
            Error::NoSource => "no config source provided to builder".to_owned(),
            Error::Toml(source) => concat("toml: ", toml_error_text(source).as_str()),
            Error::Json(source) => concat("json: ", json_error_text(source).as_str()),
            Error::ValueSerialize(source) => concat(
                "value serialize: ",
                value_serialize_error_text(source).as_str(),
            ),
            Error::ValueDeserialize(source) => concat(
                "value deserialize: ",
                value_deserialize_error_text(source).as_str(),
            ),
            Error::Yaml(source) => concat("yaml: ", yaml_error_text(source).as_str()),
        }
    }
}

/// The `Display` text of an `EnvironsError`; nothing is stated of it.
#[verifier::external_body]
fn env_error_text(source: &EnvironsError) -> String {
    format!("{source}")
}

/// The `Display` text of a `std::io::Error`; nothing is stated of it.
#[verifier::external_body]
fn io_error_text(source: &std::io::Error) -> String {
    format!("{source}")
}

/// The `Display` text of a `TomlError`; nothing is stated of it.
#[verifier::external_body]
fn toml_error_text(source: &TomlError) -> String {
    format!("{source}")
}

/// The `Display` text of a `JsonError`; nothing is stated of it.
#[verifier::external_body]
fn json_error_text(source: &JsonError) -> String {
    format!("{source}")
}

/// The `Display` text of a `YamlError`; nothing is stated of it.
#[verifier::external_body]
fn yaml_error_text(source: &YamlError) -> String {
    format!("{source}")
}

/// The `Display` text of a `serde_value::SerializerError`; nothing is stated of it.
#[verifier::external_body]
fn value_serialize_error_text(source: &serde_value::SerializerError) -> String {
    format!("{source}")
}

/// The `Display` text of a `serde_value::DeserializerError`; nothing is stated of it.
#[verifier::external_body]
fn value_deserialize_error_text(source: &serde_value::DeserializerError) -> String {
    format!("{source}")
}


impl From<EnvironsError> for Error {
    /// An environment lookup or parse failure.
    fn from(source: EnvironsError) -> (e: Self) {
        Error::Env(source)
    }
}

impl vstd::std_specs::convert::FromSpecImpl<EnvironsError> for Error {
    open spec fn obeys_from_spec() -> bool {
        true
    }

    open spec fn from_spec(source: EnvironsError) -> Self {
        Error::Env(source)
    }
}

impl From<std::io::Error> for Error {
    /// A failure to read a config file.
    fn from(source: std::io::Error) -> (e: Self) {
        Error::Io(source)
    }
}

impl vstd::std_specs::convert::FromSpecImpl<std::io::Error> for Error {
    open spec fn obeys_from_spec() -> bool {
        true
    }

    open spec fn from_spec(source: std::io::Error) -> Self {
        Error::Io(source)
    }
}

impl From<TomlError> for Error {
    /// A TOML deserialization failure.
    fn from(source: TomlError) -> (e: Self) {
        Error::Toml(source)
    }
}

impl vstd::std_specs::convert::FromSpecImpl<TomlError> for Error {
    open spec fn obeys_from_spec() -> bool {
        true
    }

    open spec fn from_spec(source: TomlError) -> Self {
        Error::Toml(source)
    }
}

impl From<JsonError> for Error {
    /// A JSON deserialization failure.
    fn from(source: JsonError) -> (e: Self) {
        Error::Json(source)
    }
}

impl vstd::std_specs::convert::FromSpecImpl<JsonError> for Error {
    open spec fn obeys_from_spec() -> bool {
        true
    }

    open spec fn from_spec(source: JsonError) -> Self {
        Error::Json(source)
    }
}

impl From<YamlError> for Error {
    /// A YAML deserialization failure.
    fn from(source: YamlError) -> (e: Self) {
        Error::Yaml(source)
    }
}

impl vstd::std_specs::convert::FromSpecImpl<YamlError> for Error {
    open spec fn obeys_from_spec() -> bool {
        true
    }

    open spec fn from_spec(source: YamlError) -> Self {
        Error::Yaml(source)
    }
}

impl From<serde_value::SerializerError> for Error {
    /// A failure to write a config into the merge medium.
    fn from(source: serde_value::SerializerError) -> (e: Self) {
        Error::ValueSerialize(source)
    }
}

impl vstd::std_specs::convert::FromSpecImpl<serde_value::SerializerError> for Error {
    open spec fn obeys_from_spec() -> bool {
        true
    }

    open spec fn from_spec(source: serde_value::SerializerError) -> Self {
        Error::ValueSerialize(source)
    }
}

impl From<serde_value::DeserializerError> for Error {
    /// A failure to read a config back out of the merge medium.
    fn from(source: serde_value::DeserializerError) -> (e: Self) {
        Error::ValueDeserialize(source)
    }
}

impl vstd::std_specs::convert::FromSpecImpl<serde_value::DeserializerError> for Error {
    open spec fn obeys_from_spec() -> bool {
        true
    }

    open spec fn from_spec(source: serde_value::DeserializerError) -> Self {
        Error::ValueDeserialize(source)
    }
}

} // verus!
