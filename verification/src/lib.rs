//! Typed configuration from environment variables, files, and fluent builders.
//!
//! A config struct implements [`Settings`] to resolve its fields from the
//! environment and [`Validate`] to check them afterward; [`init`] does both.
//! The [`builder`] stacks sources as layers: the first builds the value in
//! full, later ones either override keys or overlay only the keys still unset
//! (see [`value`] for the per-key merge). [`template`] expands `{{ expr }}`
//! tokens in raw config bytes, and [`schema`] holds the rules by which a field
//! declaration becomes env keys, display lines and build-time constants.

pub mod builder;
pub mod errors;
pub mod file;
pub mod resolve;
pub mod schema;
pub mod template;
pub mod value;

pub use builder::ConfigBuilder;
pub use errors::Error;
pub use errors::ValidationMessage;
pub use resolve::resolve_with;
pub use resolve::resolve_with_or;
pub use resolve::resolve_with_or_str;

/// Parsing a value from an environment-variable string; implemented for the
/// standard scalar types, and for custom field types by their authors.
pub use environs::FromEnvStr;
/// Load a `.env` file from the default location into the process environment;
/// existing variables are left untouched and a missing file is no error.
pub use environs::load;
/// Like [`load`], but values in the `.env` file overwrite existing variables.
pub use environs::load_override;
/// Like [`load_override`], from an explicit path.
pub use environs::load_override_path;
/// Like [`load`], from an explicit path.
pub use environs::load_path;
/// Resolve the first set key in `keys`, parsed into `T`; an error if none is set.
pub use environs::resolve;
/// Resolve the first set key, or `default` when none is set; a value that
/// fails to parse is still an error.
pub use environs::resolve_or;
/// Resolve the first set key, computing the fallback when none is set.
pub use environs::resolve_or_else;
/// Resolve the first set key, parsing `default_str` when none is set.
pub use environs::resolve_or_parse;

use vstd::prelude::*;
use vstd::string::StringExecFns;

verus! {

/// Crate-level result type.
pub type Result<T> = core::result::Result<T, Error>;

/// The key for `segment` under the accumulated `prefix`: the bare segment when
/// the prefix is empty, otherwise `prefix`, an underscore and `segment`.
pub open spec fn spec_join_key(prefix: Seq<char>, segment: Seq<char>) -> Seq<char> {
    if prefix.len() == 0 {
        segment
    } else {
        prefix + seq!['_'] + segment
    }
}

/// Join an accumulated prefix with a key segment. Empty prefix yields the bare
/// segment so root structs without a prefix produce clean keys.
pub fn join_key(prefix: &str, segment: &str) -> (key: String)
    ensures
        key@ == spec_join_key(prefix@, segment@),
{
    if prefix.is_empty() {
        segment.to_owned()
    } else {
        let mut key = prefix.to_owned();
        key.append("_");
        key.append(segment);
        proof {
            reveal_strlit("_");
        }
        key
    }
}

/// Construct a typed config struct from environment variables.
///
/// Env keys are built by accumulating a prefix down the struct hierarchy. A
/// scalar field contributes its uppercased name as the final segment; a nested
/// field contributes its name (or chosen segment) and recurses.
pub trait Settings: Sized {
    /// The struct's own prefix, used only when it is the root of resolution.
    /// When embedded as a nested field, the embedding field decides the prefix.
    const PREFIX: Option<&'static str> = None;

    /// Resolve using the struct's own [`PREFIX`](Settings::PREFIX) as the root.
    fn from_env() -> Result<Self>;

    /// Resolve using `prefix` as the accumulated root instead of
    /// [`PREFIX`](Settings::PREFIX). By default this is [`from_env`](Settings::from_env).
    fn from_env_with_prefix(_prefix: &str) -> (r: Result<Self>)
        default_ensures
            call_ensures(Self::from_env, (), r),
    {
        Self::from_env()
    }

    /// Overwrite only the fields whose env keys are currently set, leaving the
    /// rest untouched. By default nothing is overwritten.
    fn override_from_env(&mut self) -> (r: Result<()>)
        default_ensures
            r is Ok,
            *final(self) == *old(self),
    {
        Ok(())
    }

    /// [`override_from_env`](Settings::override_from_env) with an explicit
    /// accumulated prefix. By default nothing is overwritten.
    fn override_from_env_with_prefix(&mut self, _prefix: &str) -> (r: Result<()>)
        default_ensures
            r is Ok,
            *final(self) == *old(self),
    {
        Ok(())
    }
}

/// Validate a config struct after construction.
pub trait Validate {
    /// Check the constructed config, returning [`Error::Validation`] with every
    /// failure collected, or `Ok(())` when all rules pass.
    fn validate(&self) -> Result<()>;
}

/// Construct from env and validate in one step: the value that
/// [`Settings::from_env`] built, once [`Validate::validate`] accepted it, or
/// the first error of the two.
pub fn init<T: Settings + Validate>() -> (r: Result<T>)
    ensures
        match r {
            Ok(value) => call_ensures(T::from_env, (), Ok::<T, Error>(value)) && call_ensures(
                T::validate,
                (&value,),
                Ok::<(), Error>(()),
            ),
            Err(e) => call_ensures(T::from_env, (), Err::<T, Error>(e)) || exists|value: T|
                call_ensures(T::from_env, (), Ok::<T, Error>(value)) && call_ensures(
                    T::validate,
                    (&value,),
                    Err::<(), Error>(e),
                ),
        },
{
    let settings = T::from_env()?;
    settings.validate()?;
    Ok(settings)
}

/// Start a fluent builder for layered config: defaults, env, files, overrides.
pub fn builder<T>() -> (b: ConfigBuilder<T>)
    ensures
        b.state() is None,
{
    ConfigBuilder::new()
}


/// Emit a resolved config as build-time artifacts: compile-time `const`s and
/// `cargo:rustc-cfg` directives, for the pattern of a build-time default
/// constant with a runtime override. [`schema::plan::codegen_plan`] and
/// [`schema::render`] hold the rules an implementation follows.
pub trait ConfigCodegen {
    /// Render the value as a `pub const` module (with a do-not-edit header),
    /// suitable to write into `OUT_DIR` and `include!` from the crate.
    fn to_const_module(&self) -> String;

    /// Print `cargo:rustc-cfg=<prefix>_<field>` directives: a bare flag for
    /// each `true` bool, a `="value"` form for everything else.
    fn emit_cfg(&self, prefix: &str);

    /// The environment keys this config reads, for `rerun-if-env-changed`.
    fn env_keys() -> Vec<String> where Self: Sized;
}

/// Render config fields with their env var keys for debugging and logging.
/// [`schema::render::display_field`] gives the line of each field.
pub trait ConfigDisplay {
    /// Write each field at the given indentation `depth`, using the struct's
    /// own prefix for the displayed env keys.
    fn fmt_config(&self, out: &mut String, depth: usize);

    /// Like [`fmt_config`](ConfigDisplay::fmt_config) but with an explicit
    /// accumulated `prefix` for the displayed keys. By default the prefix is
    /// not used and this is [`fmt_config`](ConfigDisplay::fmt_config).
    fn fmt_config_with_prefix(&self, out: &mut String, depth: usize, _prefix: &str)
        default_ensures
            exists|slot: &mut String|
                #[trigger] call_ensures(Self::fmt_config, (self, slot, depth), ()) && *slot == *old(
                    out,
                ) && *final(slot) == *final(out),
    {
        self.fmt_config(out, depth)
    }

    /// Wrap `self` in an adapter that renders the config with its env keys.
    fn display(&self) -> (view: ConfigView<'_, Self>) where Self: Sized
        default_ensures
            view.config() == self,
    {
        ConfigView(self)
    }

    /// Like [`display`](ConfigDisplay::display) but renders keys under a
    /// runtime `prefix` instead of the struct's static one.
    fn display_with_prefix<'a>(&'a self, prefix: &'a str) -> (view: ConfigPrefixView<'a, Self>) where
        Self: Sized,

        default_ensures
            view.config() == self,
            view.prefix() == prefix,
    {
        ConfigPrefixView { inner: self, prefix }
    }
}

/// Adapter returned by [`ConfigDisplay::display`]: the config rendered at
/// depth zero with its own prefix.
pub struct ConfigView<'a, T>(&'a T);

impl<'a, T> ConfigView<'a, T> {
    /// The config shown.
    pub closed spec fn config(&self) -> &'a T {
        self.0
    }
}

impl<'a, T: ConfigDisplay> ConfigView<'a, T> {
    /// The rendered text: what [`ConfigDisplay::fmt_config`] writes at depth
    /// zero into an empty string.
    pub fn to_string(&self) -> (text: String)
        ensures
            exists|slot: &mut String|
                #[trigger] call_ensures(T::fmt_config, (self.config(), slot, 0usize), ()) && slot@
                    == Seq::<char>::empty() && *final(slot) == text,
    {
        let config: &T = self.0;
        let mut text = String::new();
        T::fmt_config(config, &mut text, 0);
        assert(exists|slot: &mut String|
            #[trigger] call_ensures(T::fmt_config, (self.config(), slot, 0usize), ()) && slot@
                == Seq::<char>::empty() && *final(slot) == text);
        text
    }
}

/// Adapter returned by [`ConfigDisplay::display_with_prefix`]: the config
/// rendered at depth zero under a runtime prefix.
pub struct ConfigPrefixView<'a, T> {
    inner: &'a T,
    prefix: &'a str,
}

impl<'a, T> ConfigPrefixView<'a, T> {
    /// The config shown.
    pub closed spec fn config(&self) -> &'a T {
        self.inner
    }

    /// The prefix its keys are shown under.
    pub closed spec fn prefix(&self) -> &'a str {
        self.prefix
    }
}

impl<'a, T: ConfigDisplay> ConfigPrefixView<'a, T> {
    /// The rendered text: what [`ConfigDisplay::fmt_config_with_prefix`]
    /// writes at depth zero under the prefix into an empty string.
    pub fn to_string(&self) -> (text: String)
        ensures
            exists|slot: &mut String|
                #[trigger] call_ensures(
                    T::fmt_config_with_prefix,
                    (self.config(), slot, 0usize, self.prefix()),
                    (),
                ) && slot@ == Seq::<char>::empty() && *final(slot) == text,
    {
        let config: &T = self.inner;
        let mut text = String::new();
        T::fmt_config_with_prefix(config, &mut text, 0, self.prefix);
        assert(exists|slot: &mut String|
            #[trigger] call_ensures(
                T::fmt_config_with_prefix,
                (self.config(), slot, 0usize, self.prefix()),
                (),
            ) && slot@ == Seq::<char>::empty() && *final(slot) == text);
        text
    }
}

} // verus!
