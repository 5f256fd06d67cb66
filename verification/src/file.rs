//! Config files: which format a file is read in, and a file's value layered
//! under the environment.

use crate::schema::text::same_text;
use crate::Error;
use crate::Result;
use crate::Settings;
use vstd::prelude::*;

verus! {

/// A config file format.
#[derive(Clone, Copy, PartialEq, Eq, Structural, Debug)]
pub enum Format {
    Toml,
    Json,
    Yaml,
}

/// The format a file extension names: `toml`, `json`, `yaml` and `yml`, in
/// lowercase only.
pub open spec fn spec_format(extension: Seq<char>) -> Option<Format> {
    if extension == "toml"@ {
        Some(Format::Toml)
    } else if extension == "json"@ {
        Some(Format::Json)
    } else if extension == "yaml"@ || extension == "yml"@ {
        Some(Format::Yaml)
    } else {
        None
    }
}

/// The format of a file by its extension (`""` when it has none). Uppercase
/// or mixed-case extensions are rejected like any other: with
/// [`Error::UnsupportedFormat`] naming the extension.
pub fn detect_format(extension: &str) -> (r: Result<Format>)
    ensures
        match spec_format(extension@) {
            Some(format) => r == Ok::<Format, Error>(format),
            None => r matches Err(Error::UnsupportedFormat(named)) && named@ == extension@,
        },
{
    if same_text(extension, "toml") {
        Ok(Format::Toml)
    } else if same_text(extension, "json") {
        Ok(Format::Json)
    } else if same_text(extension, "yaml") || same_text(extension, "yml") {
        Ok(Format::Yaml)
    } else {
        Err(Error::UnsupportedFormat(extension.to_owned()))
    }
}

/// Load from a file, then override with environment variables: the value
/// `read` loads, once [`Settings::override_from_env`] has overridden the
/// fields whose keys are set, or the first error of the two.
pub fn from_file_then_env<T: Settings, R: FnOnce() -> Result<T>>(read: R) -> (r: Result<T>)
    requires
        call_requires(read, ()),
    ensures
        match r {
            Ok(config) => exists|loaded: T, slot: &mut T|
                #[trigger] call_ensures(read, (), Ok::<T, Error>(loaded)) && #[trigger] call_ensures(
                    T::override_from_env,
                    (slot,),
                    Ok::<(), Error>(()),
                ) && *slot == loaded && *final(slot) == config,
            Err(e) => call_ensures(read, (), Err::<T, Error>(e)) || exists|loaded: T, slot: &mut T|
                #[trigger] call_ensures(read, (), Ok::<T, Error>(loaded)) && #[trigger] call_ensures(
                    T::override_from_env,
                    (slot,),
                    Err::<(), Error>(e),
                ) && *slot == loaded,
        },
{
    let mut config = read()?;
    config.override_from_env()?;
    Ok(config)
}

/// Load from a file, override with env, then apply a final mutation (e.g.
/// CLI overrides) to the result.
pub fn from_file_then_env_then<T: Settings, R: FnOnce() -> Result<T>, F: FnOnce(&mut T)>(
    read: R,
    apply: F,
) -> (r: Result<T>)
    requires
        call_requires(read, ()),
        forall|slot: &mut T| call_requires(apply, (slot,)),
    ensures
        match r {
            Ok(config) => exists|loaded: T, slot: &mut T, patched: &mut T|
                #[trigger] call_ensures(read, (), Ok::<T, Error>(loaded)) && #[trigger] call_ensures(
                    T::override_from_env,
                    (slot,),
                    Ok::<(), Error>(()),
                ) && *slot == loaded && #[trigger] call_ensures(apply, (patched,), ())
                    && *patched == *final(slot) && *final(patched) == config,
            Err(e) => call_ensures(read, (), Err::<T, Error>(e)) || exists|loaded: T, slot: &mut T|
                #[trigger] call_ensures(read, (), Ok::<T, Error>(loaded)) && #[trigger] call_ensures(
                    T::override_from_env,
                    (slot,),
                    Err::<(), Error>(e),
                ) && *slot == loaded,
        },
{
    let mut config = read()?;
    config.override_from_env()?;
    apply(&mut config);
    Ok(config)
}

} // verus!
