//! Resolving a single value from the environment through a custom parser.
//!
//! Which keys are set is the process environment's business, so what these
//! functions return is stated relative to what the lookup found: the value the
//! parser produced, the fallback, or the failure, each exactly as
//! [`settle`] and [`settle_or`] say.

use crate::Error;
use crate::Result;
use environs::Error as EnvironsError;
use vstd::prelude::*;

verus! {

/// What a lookup through `environs::resolve_with` came back with.
pub enum EnvLookup<T> {
    /// A key was set and the parser accepted its value.
    Found(T),
    /// None of the keys was set.
    Missing(EnvironsError),
    /// A key was set and the parser rejected its value.
    Failed(EnvironsError),
}

/// `environs::resolve_with`: the first of `keys` that is set is parsed with
/// `parse_fn`. With no keys nothing can be set, so the lookup is missing; a
/// found value is one that `parse_fn` returned, and a failure is one that
/// `parse_fn` reported. Which key is set, and with what text, is not stated.
#[verifier::external_body]
fn lookup_with<T, E, F>(keys: &[&str], parse_fn: F) -> (found: EnvLookup<T>) where
    E: std::error::Error + Send + Sync + 'static,
    F: FnOnce(&str) -> core::result::Result<T, E>,

    requires
        forall|raw: &str| call_requires(parse_fn, (raw,)),
    ensures
        keys@.len() == 0 ==> found is Missing,
        found matches EnvLookup::Found(value) ==> exists|raw: &str|
            #[trigger] call_ensures(parse_fn, (raw,), Ok::<T, E>(value)),
        found is Failed ==> exists|raw: &str, e: E|
            #[trigger] call_ensures(parse_fn, (raw,), Err::<T, E>(e)),
{
    match environs::resolve_with(keys, parse_fn) {
        Ok(value) => EnvLookup::Found(value),
        Err(err @ EnvironsError::NotFound { .. }) => EnvLookup::Missing(err),
        Err(err) => EnvLookup::Failed(err),
    }
}

/// `environs::resolve::<String>` on the single key `name`: the variable's value
/// when it is set. What comes back depends on the process environment, so
/// nothing is stated of it.
#[verifier::external_body]
pub(crate) fn environment_text(name: &str) -> Option<String> {
    environs::resolve::<String>(&[name]).ok()
}

/// An `environs::Error::Parse` for `key`, whose text `got` the parser rejected
/// with `source` when `expected` was wanted. Nothing is stated of the error built.
#[verifier::external_body]
fn parse_failure<E>(key: &str, expected: &'static str, got: &str, source: E) -> EnvironsError where
    E: std::error::Error + Send + Sync + 'static,
 {
    EnvironsError::Parse {
        key: key.to_owned(),
        expected,
        got: got.to_owned(),
        source: Box::new(source),
        location: environs::Location::default(),
    }
}

/// A lookup that has to find a value: the value, or the lookup's failure.
pub fn settle<T>(lookup: EnvLookup<T>) -> (r: Result<T>)
    ensures
        match lookup {
            EnvLookup::Found(value) => r == Ok::<T, Error>(value),
            EnvLookup::Missing(e) => r == Err::<T, Error>(Error::Env(e)),
            EnvLookup::Failed(e) => r == Err::<T, Error>(Error::Env(e)),
        },
{
    match lookup {
        EnvLookup::Found(value) => Ok(value),
        EnvLookup::Missing(e) => Err(Error::Env(e)),
        EnvLookup::Failed(e) => Err(Error::Env(e)),
    }
}

/// A lookup with a fallback: the value found, `default` when no key was set, or
/// the parse failure.
pub fn settle_or<T>(lookup: EnvLookup<T>, default: T) -> (r: Result<T>)
    ensures
        match lookup {
            EnvLookup::Found(value) => r == Ok::<T, Error>(value),
            EnvLookup::Missing(_) => r == Ok::<T, Error>(default),
            EnvLookup::Failed(e) => r == Err::<T, Error>(Error::Env(e)),
        },
{
    match lookup {
        EnvLookup::Found(value) => Ok(value),
        EnvLookup::Missing(_) => Ok(default),
        EnvLookup::Failed(e) => Err(Error::Env(e)),
    }
}

/// Resolve an env var through a custom parse function. Errors if no key is set.
pub fn resolve_with<T, E, F>(keys: &[&str], parse_fn: F) -> (r: Result<T>) where
    E: std::error::Error + Send + Sync + 'static,
    F: FnOnce(&str) -> core::result::Result<T, E>,

    requires
        forall|raw: &str| call_requires(parse_fn, (raw,)),
    ensures
        keys@.len() == 0 ==> r matches Err(Error::Env(_)),
        r matches Ok(value) ==> exists|raw: &str|
            #[trigger] call_ensures(parse_fn, (raw,), Ok::<T, E>(value)),
        r matches Err(e) ==> e is Env,
{
    let found = lookup_with(keys, parse_fn);
    let ghost seen = found;
    proof {
        if let EnvLookup::Found(value) = seen {
            let raw = choose|raw: &str| #[trigger] call_ensures(parse_fn, (raw,), Ok::<T, E>(value));
            assert(call_ensures(parse_fn, (raw,), Ok::<T, E>(value)));
        }
    }
    let r = settle(found);
    let ghost rr = r;
    proof {
        if let Ok(value) = rr {
            assert(seen == EnvLookup::<T>::Found(value));
            assert(exists|raw: &str| #[trigger] call_ensures(parse_fn, (raw,), Ok::<T, E>(value)));
        }
    }
    r
}

/// Resolve through a custom parse function, falling back to `default` if no key
/// is set. A set key whose value fails to parse is an error, default or not.
pub fn resolve_with_or<T, E, F>(keys: &[&str], parse_fn: F, default: T) -> (r: Result<T>) where
    E: std::error::Error + Send + Sync + 'static,
    F: FnOnce(&str) -> core::result::Result<T, E>,

    requires
        forall|raw: &str| call_requires(parse_fn, (raw,)),
    ensures
        keys@.len() == 0 ==> r == Ok::<T, Error>(default),
        r matches Ok(value) ==> value == default || exists|raw: &str|
            #[trigger] call_ensures(parse_fn, (raw,), Ok::<T, E>(value)),
        r matches Err(e) ==> e is Env,
        r is Err ==> exists|raw: &str, e: E| #[trigger] call_ensures(parse_fn, (raw,), Err::<T, E>(e)),
{
    let found = lookup_with(keys, parse_fn);
    let ghost seen = found;
    proof {
        if let EnvLookup::Found(value) = seen {
            let raw = choose|raw: &str| #[trigger] call_ensures(parse_fn, (raw,), Ok::<T, E>(value));
            assert(call_ensures(parse_fn, (raw,), Ok::<T, E>(value)));
        }
    }
    settle_or(found, default)
}

/// Each of `keys` looked up in the process environment, in order: the
/// variable's value where it is set. What each lookup finds is the
/// environment's business; there is one lookup per key.
pub(crate) fn environment_lookups(keys: &[&str]) -> (lookups: Vec<Option<String>>)
    ensures
        lookups@.len() == keys@.len(),
{
    let mut lookups: Vec<Option<String>> = Vec::new();
    let mut i: usize = 0;
    while i < keys.len()
        invariant
            i <= keys@.len(),
            lookups@.len() == i,
        decreases keys@.len() - i,
    {
        lookups.push(environment_text(keys[i]));
        i = i + 1;
    }
    lookups
}

/// `found` is what scanning `keys` in order gives when looking up key `i`
/// gives `lookups[i]`: the first key whose lookup found a value, with that
/// value, or nothing when no lookup did. The first set key wins.
pub open spec fn first_found_in(
    keys: Seq<&str>,
    lookups: Seq<Option<String>>,
    found: Option<(&str, String)>,
) -> bool {
    let n = if keys.len() <= lookups.len() {
        keys.len()
    } else {
        lookups.len()
    };
    match found {
        Some((key, value)) => exists|i: int|
            0 <= i < n && key == keys[i] && (#[trigger] lookups[i] matches Some(v) && v@ == value@)
                && forall|j: int| 0 <= j < i ==> (#[trigger] lookups[j]) is None,
        None => forall|j: int| 0 <= j < n ==> (#[trigger] lookups[j]) is None,
    }
}

/// The first of `keys` whose lookup in `lookups` (same order) found a value,
/// with that value; `None` when none did.
pub fn first_found<'a>(keys: &[&'a str], lookups: &[Option<String>]) -> (found: Option<
    (&'a str, String),
>)
    ensures
        first_found_in(keys@, lookups@, found),
{
    let n: usize = if keys.len() <= lookups.len() {
        keys.len()
    } else {
        lookups.len()
    };
    let mut i: usize = 0;
    while i < n
        invariant
            i <= n,
            n <= keys@.len(),
            n <= lookups@.len(),
            n == keys@.len() || n == lookups@.len(),
            forall|j: int| 0 <= j < i ==> (#[trigger] lookups@[j]) is None,
        decreases n - i,
    {
        if let Some(value) = &lookups[i] {
            let text = value.clone();
            let r = Some((keys[i], text));
            proof {
                assert(lookups@[i as int] matches Some(v) && v@ == text@);
            }
            return r;
        }
        i = i + 1;
    }
    None
}

/// The first of `keys` that is set in the process environment, with its
/// value: the keys are looked up in order and the first set key wins. With no
/// keys none is found; which key is set, and to what, is the environment's
/// business.
fn first_set<'a>(keys: &[&'a str]) -> (found: Option<(&'a str, String)>)
    ensures
        exists|lookups: Seq<Option<String>>|
            lookups.len() == keys@.len() && #[trigger] first_found_in(keys@, lookups, found),
{
    let lookups = environment_lookups(keys);
    let found = first_found(keys, lookups.as_slice());
    proof {
        assert(first_found_in(keys@, lookups@, found));
    }
    found
}

/// The text parsed for what a lookup found: the value of the key found, or
/// else the default text.
pub open spec fn parsed_text(found: Option<(&str, String)>, default_str: Seq<char>) -> Seq<char> {
    match found {
        Some((_, value)) => value@,
        None => default_str,
    }
}

/// Parse what a lookup found, or `default_str` when it found nothing: the
/// value `parse_fn` returns, or an [`Error::Env`] when it fails, naming the
/// key found (`<default>` for the default text), `expected` as the type that
/// was wanted, and the text that failed.
pub fn parse_found<T, E, F>(
    found: Option<(&str, String)>,
    parse_fn: F,
    default_str: &str,
    expected: &'static str,
) -> (r: Result<T>) where
    E: std::error::Error + Send + Sync + 'static,
    F: FnOnce(&str) -> core::result::Result<T, E>,

    requires
        forall|raw: &str| call_requires(parse_fn, (raw,)),
    ensures
        exists|raw: &str, outcome: core::result::Result<T, E>|
            raw@ == parsed_text(found, default_str@) && #[trigger] call_ensures(
                parse_fn,
                (raw,),
                outcome,
            ) && match outcome {
                Ok(value) => r == Ok::<T, Error>(value),
                Err(_) => r matches Err(Error::Env(_)),
            },
{
    let (key, input): (&str, &str) = match &found {
        Some((key, value)) => (*key, value.as_str()),
        None => ("<default>", default_str),
    };
    let outcome = parse_fn(input);
    let ghost judged = outcome;
    let r: Result<T> = match outcome {
        Ok(value) => Ok(value),
        Err(source) => Err(Error::Env(parse_failure(key, expected, input, source))),
    };
    proof {
        assert(call_ensures(parse_fn, (input,), judged));
    }
    r
}

/// Resolve through a custom parse function; if no key is set, parse
/// `default_str` instead (see [`parse_found`]).
pub fn resolve_with_or_str<T, E, F>(
    keys: &[&str],
    parse_fn: F,
    default_str: &str,
    expected: &'static str,
) -> (r: Result<T>) where
    E: std::error::Error + Send + Sync + 'static,
    F: FnOnce(&str) -> core::result::Result<T, E>,

    requires
        forall|raw: &str| call_requires(parse_fn, (raw,)),
    ensures
        exists|lookups: Seq<Option<String>>, found: Option<(&str, String)>|
            lookups.len() == keys@.len() && #[trigger] first_found_in(keys@, lookups, found)
                && exists|raw: &str, outcome: core::result::Result<T, E>|
                raw@ == parsed_text(found, default_str@) && #[trigger] call_ensures(
                    parse_fn,
                    (raw,),
                    outcome,
                ) && match outcome {
                    Ok(value) => r == Ok::<T, Error>(value),
                    Err(_) => r matches Err(Error::Env(_)),
                },
        keys@.len() == 0 ==> exists|raw: &str, outcome: core::result::Result<T, E>|
            raw@ == default_str@ && #[trigger] call_ensures(parse_fn, (raw,), outcome)
                && match outcome {
                Ok(value) => r == Ok::<T, Error>(value),
                Err(_) => r matches Err(Error::Env(_)),
            },
        r matches Ok(value) ==> exists|raw: &str|
            #[trigger] call_ensures(parse_fn, (raw,), Ok::<T, E>(value)),
        r matches Err(e) ==> e is Env,
        r is Err ==> exists|raw: &str, e: E| #[trigger] call_ensures(parse_fn, (raw,), Err::<T, E>(e)),
{
    let found = first_set(keys);
    let ghost seen = found;
    let r = parse_found(found, parse_fn, default_str, expected);
    proof {
        let (raw, outcome) = choose|raw: &str, outcome: core::result::Result<T, E>|
            raw@ == parsed_text(seen, default_str@) && #[trigger] call_ensures(
                parse_fn,
                (raw,),
                outcome,
            ) && match outcome {
                Ok(value) => r == Ok::<T, Error>(value),
                Err(_) => r matches Err(Error::Env(_)),
            };
        let lookups = choose|lookups: Seq<Option<String>>|
            lookups.len() == keys@.len() && #[trigger] first_found_in(keys@, lookups, seen);
        assert(first_found_in(keys@, lookups, seen));
        assert(call_ensures(parse_fn, (raw,), outcome));
        match outcome {
            Ok(value) => {
                assert(call_ensures(parse_fn, (raw,), Ok::<T, E>(value)));
            },
            Err(e) => {
                assert(call_ensures(parse_fn, (raw,), Err::<T, E>(e)));
            },
        }
    }
    let ghost settled = r;
    proof {
        if let Ok(value) = settled {
            assert(exists|raw: &str| #[trigger] call_ensures(parse_fn, (raw,), Ok::<T, E>(value)));
        }
    }
    r
}

} // verus!
