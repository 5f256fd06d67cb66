//! The tree a config layer is merged in: a JSON-shaped value, and the per-key
//! deep merge that combines an incoming layer with the running value.

use vstd::prelude::*;

verus! {

/// A JSON-shaped value: the medium in which a file or mapping layer is laid
/// over the running config. Numbers are held in their textual form.
pub enum ConfigValue {
    /// No value.
    Null,
    /// A boolean.
    Bool(bool),
    /// A number, by its decimal text.
    Number(String),
    /// A string.
    Text(String),
    /// A list of values.
    Array(Vec<ConfigValue>),
    /// A table: keys with their values, in order.
    Object(Vec<(String, ConfigValue)>),
}

/// The mathematical value of a [`ConfigValue`].
pub ghost enum Json {
    Null,
    Bool(bool),
    Number(Seq<char>),
    Text(Seq<char>),
    Array(Seq<Json>),
    Object(Seq<(Seq<char>, Json)>),
}

/// How an incoming layer combines with the running value, per key.
#[derive(Clone, Copy, PartialEq, Eq, Structural, Debug)]
pub enum MergeMode {
    /// Replace an existing value and insert new keys.
    Override,
    /// Insert new keys, but keep an existing non-null value untouched.
    Overlay,
}

impl ConfigValue {
    /// The mathematical value.
    pub open spec fn model(self) -> Json
        decreases self,
    {
        match self {
            ConfigValue::Null => Json::Null,
            ConfigValue::Bool(b) => Json::Bool(b),
            ConfigValue::Number(n) => Json::Number(n@),
            ConfigValue::Text(t) => Json::Text(t@),
            ConfigValue::Array(items) => Json::Array(models(items@)),
            ConfigValue::Object(entries) => Json::Object(entry_models(entries@)),
        }
    }
}

/// The mathematical values of a list.
pub open spec fn models(items: Seq<ConfigValue>) -> Seq<Json>
    decreases items,
{
    if items.len() == 0 {
        seq![]
    } else {
        models(items.drop_last()).push(items.last().model())
    }
}

/// The mathematical values of a table's entries.
pub open spec fn entry_models(entries: Seq<(String, ConfigValue)>) -> Seq<(Seq<char>, Json)>
    decreases entries,
{
    if entries.len() == 0 {
        seq![]
    } else {
        entry_models(entries.drop_last()).push(
            (entries.last().0@, entries.last().1.model()),
        )
    }
}

/// Index of the first entry with key `key`.
pub open spec fn key_index(entries: Seq<(Seq<char>, Json)>, key: Seq<char>) -> Option<int>
    decreases entries.len(),
{
    if entries.len() == 0 {
        None
    } else if entries[0].0 == key {
        Some(0)
    } else {
        match key_index(entries.drop_first(), key) {
            Some(i) => Some(i + 1),
            None => None,
        }
    }
}

/// The value under `key` in an object (the first entry with that key).
pub open spec fn lookup(value: Json, key: Seq<char>) -> Option<Json> {
    match value {
        Json::Object(entries) => match key_index(entries, key) {
            Some(i) => Some(entries[i].1),
            None => None,
        },
        _ => None,
    }
}

/// Deep merge of `incoming` onto `base`. Objects merge key by key; a key absent
/// from the base is inserted; any other pair takes the incoming value under
/// `Override`, and under `Overlay` keeps the base unless the base is null.
pub open spec fn spec_merge(base: Json, incoming: Json, mode: MergeMode) -> Json
    decreases incoming, 0int,
{
    match (base, incoming) {
        (Json::Object(base_entries), Json::Object(incoming_entries)) => Json::Object(
            merge_entries(base_entries, incoming_entries, mode),
        ),
        _ => match mode {
            MergeMode::Override => incoming,
            MergeMode::Overlay => if base is Null {
                incoming
            } else {
                base
            },
        },
    }
}

/// One incoming entry laid over an object's entries.
pub open spec fn merge_entry(
    entries: Seq<(Seq<char>, Json)>,
    key: Seq<char>,
    value: Json,
    mode: MergeMode,
) -> Seq<(Seq<char>, Json)>
    decreases value, 1int,
{
    match key_index(entries, key) {
        Some(i) => entries.update(i, (entries[i].0, spec_merge(entries[i].1, value, mode))),
        None => entries.push((key, value)),
    }
}

/// The incoming entries laid over an object's entries, in order.
pub open spec fn merge_entries(
    entries: Seq<(Seq<char>, Json)>,
    incoming: Seq<(Seq<char>, Json)>,
    mode: MergeMode,
) -> Seq<(Seq<char>, Json)>
    decreases incoming, 0int,
{
    if incoming.len() == 0 {
        entries
    } else {
        merge_entries(
            merge_entry(entries, incoming[0].0, incoming[0].1, mode),
            incoming.drop_first(),
            mode,
        )
    }
}

/// The model of a table's entries, entry by entry.
pub proof fn lemma_entry_models(entries: Seq<(String, ConfigValue)>)
    ensures
        entry_models(entries).len() == entries.len(),
        forall|i: int|
            0 <= i < entries.len() ==> #[trigger] entry_models(entries)[i] == (
                entries[i].0@,
                entries[i].1.model(),
            ),
    decreases entries.len(),
{
    if entries.len() > 0 {
        lemma_entry_models(entries.drop_last());
    }
}

/// `key_index` finds the first entry with the key.
pub proof fn lemma_key_index(entries: Seq<(Seq<char>, Json)>, key: Seq<char>)
    ensures
        match key_index(entries, key) {
            Some(i) => 0 <= i < entries.len() && entries[i].0 == key && forall|j: int|
                0 <= j < i ==> #[trigger] entries[j].0 != key,
            None => forall|j: int| 0 <= j < entries.len() ==> #[trigger] entries[j].0 != key,
        },
    decreases entries.len(),
{
    if entries.len() > 0 {
        lemma_key_index(entries.drop_first(), key);
        if entries[0].0 != key {
            assert forall|j: int| 0 < j < entries.len() implies #[trigger] entries[j].0
                == entries.drop_first()[j - 1].0 by {}
        }
    }
}

/// The first entry with the key is the one `key_index` names.
pub proof fn lemma_key_index_first(entries: Seq<(Seq<char>, Json)>, key: Seq<char>, i: int)
    requires
        0 <= i < entries.len(),
        entries[i].0 == key,
        forall|j: int| 0 <= j < i ==> #[trigger] entries[j].0 != key,
    ensures
        key_index(entries, key) == Some(i),
{
    lemma_key_index(entries, key);
    match key_index(entries, key) {
        Some(k) => {
            if k < i {
                assert(entries[k].0 != key);
            }
            if i < k {
                assert(entries[i].0 != key);
            }
        },
        None => {
            assert(entries[i].0 != key);
        },
    }
}

/// `key_index` depends on the keys alone.
pub proof fn lemma_key_index_same_keys(
    a: Seq<(Seq<char>, Json)>,
    b: Seq<(Seq<char>, Json)>,
    key: Seq<char>,
)
    requires
        a.len() == b.len(),
        forall|j: int| 0 <= j < a.len() ==> #[trigger] a[j].0 == b[j].0,
    ensures
        key_index(a, key) == key_index(b, key),
{
    lemma_key_index(a, key);
    lemma_key_index(b, key);
    match key_index(a, key) {
        Some(i) => {
            assert(b[i].0 == key);
            assert forall|j: int| 0 <= j < i implies #[trigger] b[j].0 != key by {
                assert(a[j].0 != key);
            }
            lemma_key_index_first(b, key, i);
        },
        None => {
            match key_index(b, key) {
                Some(i) => {
                    assert(a[i].0 == key);
                },
                None => {},
            }
        },
    }
}

/// Index of the first entry with the given key.
fn find_entry(entries: &Vec<(String, ConfigValue)>, key: &String) -> (found: Option<usize>)
    ensures
        match found {
            Some(i) => key_index(entry_models(entries@), key@) == Some(i as int),
            None => key_index(entry_models(entries@), key@) is None,
        },
{
    let ghost em = entry_models(entries@);
    proof {
        lemma_entry_models(entries@);
        lemma_key_index(em, key@);
    }
    let mut i: usize = 0;
    while i < entries.len()
        invariant
            i <= entries@.len(),
            em == entry_models(entries@),
            em.len() == entries@.len(),
            forall|j: int| 0 <= j < entries@.len() ==> #[trigger] em[j] == (
                entries@[j].0@,
                entries@[j].1.model(),
            ),
            forall|j: int| 0 <= j < i ==> #[trigger] em[j].0 != key@,
        decreases entries@.len() - i,
    {
        if entries[i].0 == *key {
            proof {
                lemma_key_index_first(em, key@, i as int);
            }
            return Some(i);
        }
        i = i + 1;
    }
    proof {
        match key_index(em, key@) {
            Some(k) => {
                assert(em[k].0 != key@);
            },
            None => {},
        }
    }
    None
}

/// Deep-merge `incoming` onto `base` per `mode` (see [`spec_merge`]).
#[verifier::loop_isolation(false)]
pub fn merged(base: ConfigValue, incoming: ConfigValue, mode: MergeMode) -> (out: ConfigValue)
    ensures
        out.model() == spec_merge(base.model(), incoming.model(), mode),
    decreases incoming,
{
    let ghost whole = incoming;
    match (base, incoming) {
        (ConfigValue::Object(mut entries), ConfigValue::Object(mut rest)) => {
            let ghost orig = rest;
            let ghost target = merge_entries(
                entry_models(entries@),
                entry_models(rest@),
                mode,
            );
            let ghost mut j: int = 0;
            proof {
                assert(rest@ =~= orig@.subrange(0, orig@.len() as int));
            }
            while rest.len() > 0
                invariant
                    whole == ConfigValue::Object(orig),
                    0 <= j <= orig@.len(),
                    rest@ == orig@.subrange(j, orig@.len() as int),
                    merge_entries(entry_models(entries@), entry_models(rest@), mode) == target,
                decreases rest@.len(),
            {
                let ghost old_rest = rest@;
                let ghost old_entries = entries@;
                let (key, value) = rest.remove(0);
                proof {
                    assert(orig@[j] == (key, value));
                    assert(decreases_to!(whole => whole->Object_0));
                    assert(decreases_to!(orig => orig@));
                    assert(decreases_to!(orig@ => orig@[j]));
                    assert(decreases_to!(orig@[j] => value));
                    assert(decreases_to!(whole => value));
                    lemma_entry_models(old_rest);
                    lemma_entry_models(rest@);
                    assert(entry_models(old_rest).drop_first() =~= entry_models(rest@));
                    lemma_entry_models(old_entries);
                    j = j + 1;
                    assert(rest@ =~= orig@.subrange(j, orig@.len() as int));
                }
                let ghost em = entry_models(old_entries);
                proof {
                    lemma_key_index(em, key@);
                }
                match find_entry(&entries, &key) {
                    Some(idx) => {
                        let (existing_key, existing) = entries.remove(idx);
                        let combined = merged(existing, value, mode);
                        entries.insert(idx, (existing_key, combined));
                        proof {
                            lemma_entry_models(entries@);
                            assert(entry_models(entries@) =~= merge_entry(
                                em,
                                key@,
                                value.model(),
                                mode,
                            ));
                        }
                    },
                    None => {
                        entries.push((key, value));
                        proof {
                            lemma_entry_models(entries@);
                            assert(entry_models(entries@) =~= merge_entry(
                                em,
                                key@,
                                value.model(),
                                mode,
                            ));
                        }
                    },
                }
            }
            proof {
                assert(entry_models(rest@) =~= Seq::<(Seq<char>, Json)>::empty());
            }
            ConfigValue::Object(entries)
        },
        (base, incoming) => match mode {
            MergeMode::Override => incoming,
            MergeMode::Overlay => match base {
                ConfigValue::Null => incoming,
                other => other,
            },
        },
    }
}

/// Deep-merge `incoming` onto `base` in place, per `mode`.
pub fn merge_value(base: &mut ConfigValue, incoming: ConfigValue, mode: MergeMode)
    ensures
        final(base).model() == spec_merge(old(base).model(), incoming.model(), mode),
{
    let mut current = ConfigValue::Null;
    std::mem::swap(&mut current, base);
    *base = merged(current, incoming, mode);
}

/// The value under `key` among `entries` (the first entry with that key).
pub open spec fn entry_value(entries: Seq<(Seq<char>, Json)>, key: Seq<char>) -> Option<Json> {
    match key_index(entries, key) {
        Some(i) => Some(entries[i].1),
        None => None,
    }
}

/// No key occurs twice.
pub open spec fn keys_unique(entries: Seq<(Seq<char>, Json)>) -> bool {
    forall|i: int, j: int| 0 <= i < j < entries.len() ==> entries[i].0 != entries[j].0
}

/// What a key ends up holding when a layer value `value` meets the running
/// value `existing` (absent when the key is new).
pub open spec fn laid_over(existing: Option<Json>, value: Json, mode: MergeMode) -> Json {
    match existing {
        Some(current) => spec_merge(current, value, mode),
        None => value,
    }
}

proof fn lemma_merge_entry_lookup(
    entries: Seq<(Seq<char>, Json)>,
    new_key: Seq<char>,
    value: Json,
    mode: MergeMode,
    key: Seq<char>,
)
    ensures
        entry_value(merge_entry(entries, new_key, value, mode), key) == if key == new_key {
            Some(laid_over(entry_value(entries, key), value, mode))
        } else {
            entry_value(entries, key)
        },
{
    let after = merge_entry(entries, new_key, value, mode);
    lemma_key_index(entries, new_key);
    lemma_key_index(entries, key);
    match key_index(entries, new_key) {
        Some(i) => {
            assert forall|j: int| 0 <= j < entries.len() implies #[trigger] entries[j].0
                == after[j].0 by {}
            lemma_key_index_same_keys(entries, after, key);
        },
        None => {
            lemma_key_index(after, key);
            if key == new_key {
                lemma_key_index_first(after, key, entries.len() as int);
            } else {
                match key_index(entries, key) {
                    Some(m) => {
                        lemma_key_index_first(after, key, m);
                    },
                    None => {
                        match key_index(after, key) {
                            Some(m) => {
                                assert(after[m].0 == key);
                                if m < entries.len() {
                                    assert(entries[m].0 == key);
                                }
                            },
                            None => {},
                        }
                    },
                }
            }
        },
    }
}

proof fn lemma_key_index_drop_first(entries: Seq<(Seq<char>, Json)>, key: Seq<char>)
    requires
        entries.len() > 0,
        entries[0].0 != key,
    ensures
        entry_value(entries, key) == entry_value(entries.drop_first(), key),
{
    lemma_key_index(entries.drop_first(), key);
    match key_index(entries.drop_first(), key) {
        Some(i) => {
            assert(entries.drop_first()[i] == entries[i + 1]);
        },
        None => {},
    }
}

/// Keys that the layer does not mention keep their value.
proof fn lemma_merge_entries_absent(
    entries: Seq<(Seq<char>, Json)>,
    incoming: Seq<(Seq<char>, Json)>,
    mode: MergeMode,
    key: Seq<char>,
)
    requires
        key_index(incoming, key) is None,
    ensures
        entry_value(merge_entries(entries, incoming, mode), key) == entry_value(entries, key),
    decreases incoming.len(),
{
    if incoming.len() > 0 {
        lemma_key_index(incoming, key);
        assert(incoming[0].0 != key);
        lemma_merge_entry_lookup(entries, incoming[0].0, incoming[0].1, mode, key);
        lemma_merge_entries_absent(
            merge_entry(entries, incoming[0].0, incoming[0].1, mode),
            incoming.drop_first(),
            mode,
            key,
        );
    }
}

proof fn lemma_merge_entries_lookup(
    entries: Seq<(Seq<char>, Json)>,
    incoming: Seq<(Seq<char>, Json)>,
    mode: MergeMode,
    key: Seq<char>,
)
    requires
        keys_unique(incoming),
    ensures
        entry_value(merge_entries(entries, incoming, mode), key) == match entry_value(
            incoming,
            key,
        ) {
            Some(value) => Some(laid_over(entry_value(entries, key), value, mode)),
            None => entry_value(entries, key),
        },
    decreases incoming.len(),
{
    if incoming.len() > 0 {
        let first = incoming[0];
        let rest = incoming.drop_first();
        let after = merge_entry(entries, first.0, first.1, mode);
        assert(keys_unique(rest)) by {
            assert forall|i: int, j: int| 0 <= i < j < rest.len() implies rest[i].0
                != rest[j].0 by {
                assert(rest[i] == incoming[i + 1]);
                assert(rest[j] == incoming[j + 1]);
            }
        }
        lemma_merge_entry_lookup(entries, first.0, first.1, mode, key);
        lemma_merge_entries_lookup(after, rest, mode, key);
        if key == first.0 {
            lemma_key_index(rest, key);
            match key_index(rest, key) {
                Some(m) => {
                    assert(rest[m] == incoming[m + 1]);
                },
                None => {},
            }
        } else {
            lemma_key_index_drop_first(incoming, key);
        }
    } else {
        lemma_merge_entries_absent(entries, incoming, mode, key);
    }
}

/// Merging a layer into an object: each key ends up with the layer's value laid
/// over the running value (see [`laid_over`]) when the layer mentions it, and
/// keeps its running value otherwise.
pub proof fn law_merged_object_lookup(
    base: Seq<(Seq<char>, Json)>,
    layer: Seq<(Seq<char>, Json)>,
    mode: MergeMode,
    key: Seq<char>,
)
    requires
        keys_unique(layer),
    ensures
        lookup(spec_merge(Json::Object(base), Json::Object(layer), mode), key) == match entry_value(
            layer,
            key,
        ) {
            Some(value) => Some(laid_over(entry_value(base, key), value, mode)),
            None => entry_value(base, key),
        },
{
    lemma_merge_entries_lookup(base, layer, mode, key);
}

/// Keys absent from a layer keep their running value, in either mode.
pub proof fn law_keys_absent_from_layer_are_kept(
    base: Seq<(Seq<char>, Json)>,
    layer: Seq<(Seq<char>, Json)>,
    mode: MergeMode,
    key: Seq<char>,
)
    requires
        key_index(layer, key) is None,
    ensures
        lookup(spec_merge(Json::Object(base), Json::Object(layer), mode), key) == lookup(
            Json::Object(base),
            key,
        ),
{
    lemma_merge_entries_absent(base, layer, mode, key);
}

/// A key that the running value lacks is inserted with the layer's value, in
/// either mode.
pub proof fn law_new_keys_are_inserted(
    base: Seq<(Seq<char>, Json)>,
    layer: Seq<(Seq<char>, Json)>,
    mode: MergeMode,
    key: Seq<char>,
    value: Json,
)
    requires
        keys_unique(layer),
        key_index(base, key) is None,
        entry_value(layer, key) == Some(value),
    ensures
        lookup(spec_merge(Json::Object(base), Json::Object(layer), mode), key) == Some(value),
{
    lemma_merge_entries_lookup(base, layer, mode, key);
}

/// An override layer replaces the running value of every key it provides,
/// unless both values are objects, which merge key by key.
pub proof fn law_override_replaces(
    base: Seq<(Seq<char>, Json)>,
    layer: Seq<(Seq<char>, Json)>,
    key: Seq<char>,
    value: Json,
)
    requires
        keys_unique(layer),
        entry_value(layer, key) == Some(value),
        !(value is Object && (entry_value(base, key) matches Some(current) && current is Object)),
    ensures
        lookup(spec_merge(Json::Object(base), Json::Object(layer), MergeMode::Override), key)
            == Some(value),
{
    lemma_merge_entries_lookup(base, layer, MergeMode::Override, key);
}

/// An overlay layer never clobbers a present non-null value (objects still
/// merge key by key).
pub proof fn law_overlay_keeps_present_values(
    base: Seq<(Seq<char>, Json)>,
    layer: Seq<(Seq<char>, Json)>,
    key: Seq<char>,
    current: Json,
)
    requires
        keys_unique(layer),
        entry_value(base, key) == Some(current),
        !(current is Null),
        !(current is Object && (entry_value(layer, key) matches Some(value) && value is Object)),
    ensures
        lookup(spec_merge(Json::Object(base), Json::Object(layer), MergeMode::Overlay), key)
            == Some(current),
{
    lemma_merge_entries_lookup(base, layer, MergeMode::Overlay, key);
}

} // verus!
