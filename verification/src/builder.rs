//! Fluent builder for layered configuration.

use crate::value::entry_value;
use crate::value::keys_unique;
use crate::value::laid_over;
use crate::value::law_merged_object_lookup;
use crate::value::lookup;
use crate::value::spec_merge;
use crate::value::Json;
use crate::value::ConfigValue;
use crate::value::MergeMode;
use crate::Error;
use crate::Result;
use crate::Settings;
use crate::Validate;
use vstd::prelude::*;

verus! {

/// Fluent builder for layered configuration.
///
/// Sources apply in call order. The *first* source builds the value in full;
/// each later source combines its keys with the running value, overriding them
/// or only filling the ones still unset. Errors short-circuit: once an error
/// occurs, subsequent sources are skipped and the error is kept.
pub struct ConfigBuilder<T> {
    state: Option<Result<T>>,
}

impl<T> Default for ConfigBuilder<T> {
    /// The same empty builder as [`ConfigBuilder::new`].
    fn default() -> (b: Self)
        ensures
            b.state() is None,
    {
        Self::new()
    }
}

impl<T> ConfigBuilder<T> {
    /// The running state: no source yet, the value so far, or the first error.
    pub closed spec fn state(&self) -> Option<Result<T>> {
        self.state
    }

    /// The state failed earlier.
    pub open spec fn failed(&self) -> bool {
        self.state() matches Some(Err(_))
    }

    /// Create an empty builder with no source configured yet.
    pub fn new() -> (b: Self)
        ensures
            b.state() is None,
    {
        ConfigBuilder { state: None }
    }

    /// Set the running value to an owned `T`. As the first source it seeds the
    /// chain; later it replaces the whole value. After an error it is skipped.
    pub fn value(self, value: T) -> (b: Self)
        ensures
            keeps_failure(self.state(), b.state()),
            self.failed() ==> b.state() == self.state(),
            !self.failed() ==> b.state() == Some(Ok::<T, Error>(value)),
    {
        match self.state {
            Some(Err(_)) => self,
            _ => ConfigBuilder { state: Some(Ok(value)) },
        }
    }

    /// Apply environment variables. From an empty state the value is built in
    /// full by [`Settings::from_env`]; over a value, [`Settings::override_from_env`]
    /// overrides each field whose key is set. After an error it is skipped.
    pub fn env(self) -> (b: Self) where T: Settings
        ensures
            keeps_failure(self.state(), b.state()),
            self.failed() ==> b.state() == self.state(),
            self.state() is None ==> exists|outcome: Result<T>|
                call_ensures(T::from_env, (), outcome) && b.state() == Some(outcome),
            self.state() matches Some(Ok(value)) ==> exists|slot: &mut T, outcome: Result<()>|
                #[trigger] call_ensures(T::override_from_env, (slot,), outcome) && *slot == value
                    && b.state() == match outcome {
                    Ok(()) => Some(Ok::<T, Error>(*final(slot))),
                    Err(e) => Some(Err::<T, Error>(e)),
                },
    {
        match self.state {
            Some(Err(e)) => ConfigBuilder { state: Some(Err(e)) },
            Some(Ok(mut value)) => {
                let result = match value.override_from_env() {
                    Ok(()) => Ok(value),
                    Err(e) => Err(e),
                };
                ConfigBuilder { state: Some(result) }
            },
            None => ConfigBuilder { state: Some(T::from_env()) },
        }
    }

    /// Like [`env`](Self::env) but with a runtime prefix in place of the
    /// struct's own.
    pub fn env_with_prefix(self, prefix: &str) -> (b: Self) where T: Settings
        ensures
            keeps_failure(self.state(), b.state()),
            self.failed() ==> b.state() == self.state(),
            self.state() is None ==> exists|outcome: Result<T>|
                call_ensures(T::from_env_with_prefix, (prefix,), outcome) && b.state() == Some(
                    outcome,
                ),
            self.state() matches Some(Ok(value)) ==> exists|slot: &mut T, outcome: Result<()>|
                #[trigger] call_ensures(T::override_from_env_with_prefix, (slot, prefix), outcome)
                    && *slot == value && b.state() == match outcome {
                    Ok(()) => Some(Ok::<T, Error>(*final(slot))),
                    Err(e) => Some(Err::<T, Error>(e)),
                },
    {
        match self.state {
            Some(Err(e)) => ConfigBuilder { state: Some(Err(e)) },
            Some(Ok(mut value)) => {
                let result = match value.override_from_env_with_prefix(prefix) {
                    Ok(()) => Ok(value),
                    Err(e) => Err(e),
                };
                ConfigBuilder { state: Some(result) }
            },
            None => ConfigBuilder { state: Some(T::from_env_with_prefix(prefix)) },
        }
    }

    /// Explicitly override fields with a closure (e.g. CLI flags). Skipped when
    /// the state is an error or empty.
    pub fn override_with<F: FnOnce(&mut T)>(self, func: F) -> (b: Self)
        requires
            forall|slot: &mut T| call_requires(func, (slot,)),
        ensures
            keeps_failure(self.state(), b.state()),
            !(self.state() matches Some(Ok(_))) ==> b.state() == self.state(),
            self.state() matches Some(Ok(value)) ==> exists|slot: &mut T|
                #[trigger] call_ensures(func, (slot,), ()) && *slot == value && b.state() == Some(
                    Ok::<T, Error>(*final(slot)),
                ),
    {
        match self.state {
            Some(Ok(mut value)) => {
                func(&mut value);
                ConfigBuilder { state: Some(Ok(value)) }
            },
            other => ConfigBuilder { state: other },
        }
    }

    /// Run validation: a value that [`Validate::validate`] rejects becomes the
    /// rejection. An empty or failed state is left as it is.
    pub fn validate(self) -> (b: Self) where T: Validate
        ensures
            keeps_failure(self.state(), b.state()),
            !(self.state() matches Some(Ok(_))) ==> b.state() == self.state(),
            self.state() matches Some(Ok(value)) ==> exists|verdict: Result<()>|
                #[trigger] call_ensures(T::validate, (&value,), verdict) && b.state() == match verdict {
                    Ok(()) => Some(Ok::<T, Error>(value)),
                    Err(e) => Some(Err::<T, Error>(e)),
                },
    {
        match self.state {
            Some(Ok(value)) => {
                let verdict = value.validate();
                proof {
                    assert(call_ensures(T::validate, (&value,), verdict));
                }
                let ghost judged = verdict;
                let result = match verdict {
                    Ok(()) => Ok(value),
                    Err(e) => Err(e),
                };
                let b = ConfigBuilder { state: Some(result) };
                proof {
                    assert(call_ensures(T::validate, (&value,), judged) && b.state() == match judged {
                        Ok(()) => Some(Ok::<T, Error>(value)),
                        Err(e) => Some(Err::<T, Error>(e)),
                    });
                }
                b
            },
            other => ConfigBuilder { state: other },
        }
    }

    /// Consume the builder and return the config or the first error
    /// encountered; [`Error::NoSource`] when no source was applied.
    pub fn build(self) -> (r: Result<T>)
        ensures
            match self.state() {
                Some(outcome) => r == outcome,
                None => r matches Err(Error::NoSource),
            },
    {
        match self.state {
            Some(result) => result,
            None => Err(Error::NoSource),
        }
    }
}


/// What laying a file or mapping over the running state gives. After an
/// error, the error. As the first source, what `read` gives: the source in
/// full. Over a value: the value as `encode` writes it to the merge medium,
/// then the source's keys as `load` gives them, laid over it per `mode` (see
/// [`spec_merge`]), read back by `decode`; the first of these that fails is
/// the error.
pub open spec fn layered<T, R, L, E, D>(
    state: Option<Result<T>>,
    mode: MergeMode,
    read: R,
    load: L,
    encode: E,
    decode: D,
    next: Option<Result<T>>,
) -> bool where
    R: FnOnce() -> Result<T>,
    L: FnOnce() -> Result<ConfigValue>,
    E: FnOnce(&T) -> Result<ConfigValue>,
    D: FnOnce(ConfigValue) -> Result<T>,
 {
    match state {
        Some(Err(_)) => next == state,
        None => exists|whole: Result<T>| #[trigger] call_ensures(read, (), whole) && next == Some(whole),
        Some(Ok(base)) => exists|encoded: Result<ConfigValue>|
            #[trigger] call_ensures(encode, (&base,), encoded) && match encoded {
                Err(e) => next == Some(Err::<T, Error>(e)),
                Ok(current) => loaded_over(current, mode, load, decode, next),
            },
    }
}

/// Over the running value `current` on the merge medium: the source's keys as
/// `load` gives them, laid over it and read back (see [`decoded_over`]), or
/// the error `load` gives.
pub open spec fn loaded_over<T, L, D>(
    current: ConfigValue,
    mode: MergeMode,
    load: L,
    decode: D,
    next: Option<Result<T>>,
) -> bool where
    L: FnOnce() -> Result<ConfigValue>,
    D: FnOnce(ConfigValue) -> Result<T>,
 {
    exists|loaded: Result<ConfigValue>|
        #[trigger] call_ensures(load, (), loaded) && match loaded {
            Err(e) => next == Some(Err::<T, Error>(e)),
            Ok(incoming) => decoded_over(current, incoming, mode, decode, next),
        }
}

/// `decode` applied to `incoming` laid over `current` per `mode`.
pub open spec fn decoded_over<T, D>(
    current: ConfigValue,
    incoming: ConfigValue,
    mode: MergeMode,
    decode: D,
    next: Option<Result<T>>,
) -> bool where D: FnOnce(ConfigValue) -> Result<T> {
    exists|combined: ConfigValue, outcome: Result<T>|
        #[trigger] call_ensures(decode, (combined,), outcome) && combined.model() == spec_merge(
            current.model(),
            incoming.model(),
            mode,
        ) && next == Some(outcome)
}

impl<T> ConfigBuilder<T> {
    /// Lay a file or mapping over the running state per `mode` (see [`layered`]).
    fn merge_from<R, L, E, D>(self, mode: MergeMode, read: R, load: L, encode: E, decode: D) -> (b:
        Self) where
        R: FnOnce() -> Result<T>,
        L: FnOnce() -> Result<ConfigValue>,
        E: FnOnce(&T) -> Result<ConfigValue>,
        D: FnOnce(ConfigValue) -> Result<T>,

        requires
            call_requires(read, ()),
            call_requires(load, ()),
            forall|value: &T| call_requires(encode, (value,)),
            forall|value: ConfigValue| call_requires(decode, (value,)),
        ensures
            layered(self.state(), mode, read, load, encode, decode, b.state()),
    {
        match self.state {
            Some(Err(e)) => ConfigBuilder { state: Some(Err(e)) },
            None => ConfigBuilder { state: Some(read()) },
            Some(Ok(base)) => {
                let encoded = encode(&base);
                let ghost written = encoded;
                let current = match encoded {
                    Ok(current) => current,
                    Err(e) => {
                        let b = ConfigBuilder { state: Some(Err(e)) };
                        proof {
                            assert(call_ensures(encode, (&base,), written));
                        }
                        return b;
                    },
                };
                let loaded = load();
                let ghost got = loaded;
                let incoming = match loaded {
                    Ok(incoming) => incoming,
                    Err(e) => {
                        let b = ConfigBuilder { state: Some(Err(e)) };
                        proof {
                            assert(call_ensures(encode, (&base,), written));
                            assert(call_ensures(load, (), got));
                        }
                        return b;
                    },
                };
                let combined = crate::value::merged(current, incoming, mode);
                let ghost laid = combined;
                let outcome = decode(combined);
                let b = ConfigBuilder { state: Some(outcome) };
                proof {
                    assert(call_ensures(encode, (&base,), written));
                    assert(call_ensures(load, (), got));
                    assert(call_ensures(decode, (laid,), outcome));
                }
                b
            },
        }
    }

    /// Apply a config file, overriding existing keys and inserting new ones.
    /// As the first source the file is read in full by `read`; over a value,
    /// the file's keys (`load`) are laid over the value (`encode`) and read
    /// back (`decode`). After an error it is skipped.
    pub fn file<R, L, E, D>(self, read: R, load: L, encode: E, decode: D) -> (b: Self) where
        R: FnOnce() -> Result<T>,
        L: FnOnce() -> Result<ConfigValue>,
        E: FnOnce(&T) -> Result<ConfigValue>,
        D: FnOnce(ConfigValue) -> Result<T>,

        requires
            call_requires(read, ()),
            call_requires(load, ()),
            forall|value: &T| call_requires(encode, (value,)),
            forall|value: ConfigValue| call_requires(decode, (value,)),
        ensures
            keeps_failure(self.state(), b.state()),
            layered(self.state(), MergeMode::Override, read, load, encode, decode, b.state()),
    {
        self.merge_from(MergeMode::Override, read, load, encode, decode)
    }

    /// Apply a config file as an overlay: insert the keys the running value
    /// lacks, but keep its non-null values. Otherwise like [`file`](Self::file).
    pub fn overlay_file<R, L, E, D>(self, read: R, load: L, encode: E, decode: D) -> (b: Self) where
        R: FnOnce() -> Result<T>,
        L: FnOnce() -> Result<ConfigValue>,
        E: FnOnce(&T) -> Result<ConfigValue>,
        D: FnOnce(ConfigValue) -> Result<T>,

        requires
            call_requires(read, ()),
            call_requires(load, ()),
            forall|value: &T| call_requires(encode, (value,)),
            forall|value: ConfigValue| call_requires(decode, (value,)),
        ensures
            keeps_failure(self.state(), b.state()),
            layered(self.state(), MergeMode::Overlay, read, load, encode, decode, b.state()),
    {
        self.merge_from(MergeMode::Overlay, read, load, encode, decode)
    }

    /// Apply an in-memory mapping, overriding existing keys and inserting new
    /// ones. As the first source `read` builds the value from the mapping in
    /// full; over a value the mapping's keys (`load`) are laid over it.
    pub fn mapping<R, L, E, D>(self, read: R, load: L, encode: E, decode: D) -> (b: Self) where
        R: FnOnce() -> Result<T>,
        L: FnOnce() -> Result<ConfigValue>,
        E: FnOnce(&T) -> Result<ConfigValue>,
        D: FnOnce(ConfigValue) -> Result<T>,

        requires
            call_requires(read, ()),
            call_requires(load, ()),
            forall|value: &T| call_requires(encode, (value,)),
            forall|value: ConfigValue| call_requires(decode, (value,)),
        ensures
            keeps_failure(self.state(), b.state()),
            layered(self.state(), MergeMode::Override, read, load, encode, decode, b.state()),
    {
        self.merge_from(MergeMode::Override, read, load, encode, decode)
    }

    /// Apply an in-memory mapping as an overlay: insert missing keys, keep
    /// existing non-null values.
    pub fn overlay_mapping<R, L, E, D>(self, read: R, load: L, encode: E, decode: D) -> (b: Self) where
        R: FnOnce() -> Result<T>,
        L: FnOnce() -> Result<ConfigValue>,
        E: FnOnce(&T) -> Result<ConfigValue>,
        D: FnOnce(ConfigValue) -> Result<T>,

        requires
            call_requires(read, ()),
            call_requires(load, ()),
            forall|value: &T| call_requires(encode, (value,)),
            forall|value: ConfigValue| call_requires(decode, (value,)),
        ensures
            keeps_failure(self.state(), b.state()),
            layered(self.state(), MergeMode::Overlay, read, load, encode, decode, b.state()),
    {
        self.merge_from(MergeMode::Overlay, read, load, encode, decode)
    }
}


/// A step from one builder state to the next keeps a failed state as it is.
/// Every source, `override_with` and `validate` step is such a step (each
/// says so in its `ensures`, and [`layered`] does for file and mapping
/// layers).
pub open spec fn keeps_failure<T>(before: Option<Result<T>>, after: Option<Result<T>>) -> bool {
    (before matches Some(Err(_))) ==> after == before
}

/// Errors short-circuit over a whole chain: once a state in a chain of steps
/// that each keep a failed state has failed, every later state is that same
/// failure, so [`ConfigBuilder::build`] returns the first error.
pub proof fn law_failure_persists<T>(states: Seq<Option<Result<T>>>, failed_at: int)
    requires
        0 <= failed_at < states.len(),
        states[failed_at] matches Some(Err(_)),
        forall|k: int|
            0 <= k < states.len() - 1 ==> #[trigger] keeps_failure(states[k], states[k + 1]),
    ensures
        forall|j: int| failed_at <= j < states.len() ==> #[trigger] states[j] == states[failed_at],
{
    assert forall|j: int| failed_at <= j < states.len() implies #[trigger] states[j]
        == states[failed_at] by {
        lemma_failure_reaches(states, failed_at, j);
    }
}

/// The same over builders: when each builder in `chain` comes from the one
/// before it by a step that keeps a failure (every step of [`ConfigBuilder`]
/// says so), and the builder at `failed_at` holds the error `e`, every later
/// builder holds `e`, so building the last one returns `Err(e)` (see
/// [`ConfigBuilder::build`]): no later source or step replaces it.
pub proof fn law_build_returns_first_error<T>(
    chain: Seq<ConfigBuilder<T>>,
    failed_at: int,
    e: Error,
)
    requires
        0 <= failed_at < chain.len(),
        chain[failed_at].state() == Some(Err::<T, Error>(e)),
        forall|k: int|
            0 <= k < chain.len() - 1 ==> #[trigger] keeps_failure(
                chain[k].state(),
                chain[k + 1].state(),
            ),
    ensures
        forall|j: int|
            failed_at <= j < chain.len() ==> #[trigger] chain[j].state() == Some(
                Err::<T, Error>(e),
            ),
{
    let states = chain.map_values(|b: ConfigBuilder<T>| b.state());
    assert forall|k: int| 0 <= k < states.len() - 1 implies #[trigger] keeps_failure(
        states[k],
        states[k + 1],
    ) by {
        assert(keeps_failure(chain[k].state(), chain[k + 1].state()));
    }
    law_failure_persists(states, failed_at);
    assert forall|j: int| failed_at <= j < chain.len() implies #[trigger] chain[j].state() == Some(
        Err::<T, Error>(e),
    ) by {
        assert(states[j] == states[failed_at]);
    }
}

proof fn lemma_failure_reaches<T>(states: Seq<Option<Result<T>>>, failed_at: int, j: int)
    requires
        0 <= failed_at <= j < states.len(),
        states[failed_at] matches Some(Err(_)),
        forall|k: int|
            0 <= k < states.len() - 1 ==> #[trigger] keeps_failure(states[k], states[k + 1]),
    ensures
        states[j] == states[failed_at],
    decreases j - failed_at,
{
    if j > failed_at {
        lemma_failure_reaches(states, failed_at, j - 1);
        let k = j - 1;
        assert(keeps_failure(states[k], states[k + 1]));
    }
}


/// What a key holds once a table `incoming` is laid over a table `current`
/// per `mode` (the layer's keys each once): the layer's value laid over the
/// running one where the layer gives the key, the running value where it does
/// not. Other shapes say nothing of keys.
pub open spec fn key_laid_over(
    current: Json,
    incoming: Json,
    mode: MergeMode,
    key: Seq<char>,
    combined: Json,
) -> bool {
    match (current, incoming) {
        (Json::Object(base_entries), Json::Object(layer)) => keys_unique(layer) ==> lookup(
            combined,
            key,
        ) == match entry_value(layer, key) {
            Some(value) => Some(laid_over(entry_value(base_entries, key), value, mode)),
            None => entry_value(base_entries, key),
        },
        _ => true,
    }
}

/// A file or mapping laid over a value hands `decode` the value with the
/// layer's keys laid over it, key by key: every key the layer gives ends up
/// with the layer's value laid over the running one per `mode`, and every key
/// it omits keeps the running value. What `decode` makes of that table is
/// serde's business.
pub proof fn law_layer_lays_keys_over<T, R, L, E, D>(
    base: T,
    mode: MergeMode,
    read: R,
    load: L,
    encode: E,
    decode: D,
    next: Option<Result<T>>,
    key: Seq<char>,
) where
    R: FnOnce() -> Result<T>,
    L: FnOnce() -> Result<ConfigValue>,
    E: FnOnce(&T) -> Result<ConfigValue>,
    D: FnOnce(ConfigValue) -> Result<T>,

    requires
        layered(Some(Ok::<T, Error>(base)), mode, read, load, encode, decode, next),
        next matches Some(Ok(_)),
    ensures
        exists|current: ConfigValue, incoming: ConfigValue, combined: ConfigValue|
            #[trigger] call_ensures(encode, (&base,), Ok::<ConfigValue, Error>(current))
                && #[trigger] call_ensures(load, (), Ok::<ConfigValue, Error>(incoming))
                && #[trigger] call_ensures(decode, (combined,), next->Some_0)
                && combined.model() == spec_merge(current.model(), incoming.model(), mode)
                && key_laid_over(current.model(), incoming.model(), mode, key, combined.model()),
{
    let encoded = choose|encoded: Result<ConfigValue>|
        #[trigger] call_ensures(encode, (&base,), encoded) && match encoded {
            Err(e) => next == Some(Err::<T, Error>(e)),
            Ok(current) => loaded_over(current, mode, load, decode, next),
        };
    let current = encoded->Ok_0;
    let loaded = choose|loaded: Result<ConfigValue>|
        #[trigger] call_ensures(load, (), loaded) && match loaded {
            Err(e) => next == Some(Err::<T, Error>(e)),
            Ok(incoming) => decoded_over(current, incoming, mode, decode, next),
        };
    let incoming = loaded->Ok_0;
    let (combined, outcome) = choose|combined: ConfigValue, outcome: Result<T>|
        #[trigger] call_ensures(decode, (combined,), outcome) && combined.model() == spec_merge(
            current.model(),
            incoming.model(),
            mode,
        ) && next == Some(outcome);
    if let Json::Object(base_entries) = current.model() {
        if let Json::Object(layer) = incoming.model() {
            if keys_unique(layer) {
                law_merged_object_lookup(base_entries, layer, mode, key);
            }
        }
    }
    assert(call_ensures(encode, (&base,), Ok::<ConfigValue, Error>(current)));
    assert(call_ensures(load, (), Ok::<ConfigValue, Error>(incoming)));
    assert(call_ensures(decode, (combined,), next->Some_0));
}

} // verus!
