//! The project configuration: its keys, the map from keys to JSON values,
//! reading it from JSON text and merging updates into it.

use vstd::prelude::*;
use vstd::string::StringExecFns;
use crate::json::{
    json_lookup,
    json_parsed,
    json_pretty,
    json_same,
    json_view,
    lookup,
    new_object,
    object_insert,
    object_members,
    parse_value,
    pretty_text,
    same_value,
};

verus! {

/// The keys of the project configuration.
#[derive(Debug, Clone, Copy, PartialEq, Eq, Hash, Structural)]
pub enum ConfigKey {
    Repositories,
}

/// The file that holds the project configuration, within its directory.
pub const PROJECT_CONFIG_FILENAME: &'static str = "config.json";

/// The directory that holds the project configuration.
pub const PROJECT_CONFIG_DIR: &'static str = ".atat";

impl ConfigKey {
    /// The name under which the key stands in the configuration file.
    pub open spec fn name(self) -> Seq<char> {
        match self {
            ConfigKey::Repositories => "repositories"@,
        }
    }

    /// The name under which the key stands in the configuration file.
    pub fn as_str(&self) -> (r: &'static str)
        ensures
            r@ == self.name(),
    {
        match self {
            ConfigKey::Repositories => "repositories",
        }
    }

    /// All keys of the configuration.
    pub fn all() -> (r: &'static [ConfigKey])
        ensures
            r@ == seq![ConfigKey::Repositories],
            forall|key: ConfigKey| r@.contains(key),
    {
        let keys: &'static [ConfigKey] = &[ConfigKey::Repositories];
        assert(keys@ =~= seq![ConfigKey::Repositories]);
        assert forall|key: ConfigKey| keys@.contains(key) by {
            assert(keys@[0] == key);
        }
        keys
    }
}

/// The map that a list of entries stands for; of two entries under one
/// key the later one counts.
pub open spec fn entries_map(entries: Seq<(ConfigKey, serde_json::Value)>) -> Map<
    ConfigKey,
    serde_json::Value,
>
    decreases entries.len(),
{
    if entries.len() == 0 {
        Map::empty()
    } else {
        entries_map(entries.drop_last()).insert(entries.last().0, entries.last().1)
    }
}

/// Whether no key stands twice in `entries`.
pub open spec fn distinct_keys(entries: Seq<(ConfigKey, serde_json::Value)>) -> bool {
    forall|i: int, j: int|
        0 <= i < j < entries.len() ==> (#[trigger] entries[i]).0 != (#[trigger] entries[j]).0
}

/// The map of a list of entries holds exactly the keys of the list, and,
/// where no key stands twice, each entry's value under its key.
pub proof fn lemma_entries_map(entries: Seq<(ConfigKey, serde_json::Value)>)
    ensures
        forall|key: ConfigKey|
            #[trigger] entries_map(entries).contains_key(key) <==> exists|i: int|
                0 <= i < entries.len() && (#[trigger] entries[i]).0 == key,
        distinct_keys(entries) ==> forall|i: int|
            0 <= i < entries.len() ==> entries_map(entries)[(#[trigger] entries[i]).0]
                == entries[i].1,
    decreases entries.len(),
{
    if entries.len() > 0 {
        let shorter = entries.drop_last();
        lemma_entries_map(shorter);
        assert forall|key: ConfigKey| #[trigger]
            entries_map(entries).contains_key(key) <==> exists|i: int|
                0 <= i < entries.len() && (#[trigger] entries[i]).0 == key by {
            if entries_map(entries).contains_key(key) {
                if key == entries.last().0 {
                    assert(entries[entries.len() - 1].0 == key);
                } else {
                    let i = choose|i: int| 0 <= i < shorter.len() && (#[trigger] shorter[i]).0 == key;
                    assert(entries[i].0 == key);
                }
            }
            if exists|i: int| 0 <= i < entries.len() && (#[trigger] entries[i]).0 == key {
                let i = choose|i: int| 0 <= i < entries.len() && (#[trigger] entries[i]).0 == key;
                if i < shorter.len() {
                    assert(shorter[i].0 == key);
                }
            }
        }
        if distinct_keys(entries) {
            assert(distinct_keys(shorter)) by {
                assert forall|i: int, j: int| 0 <= i < j < shorter.len() implies (
                #[trigger] shorter[i]).0 != (#[trigger] shorter[j]).0 by {
                    assert(entries[i].0 != entries[j].0);
                }
            }
            assert forall|i: int| 0 <= i < entries.len() implies entries_map(entries)[(
            #[trigger] entries[i]).0] == entries[i].1 by {
                if i < shorter.len() {
                    assert(entries[i].0 != entries[entries.len() - 1].0);
                    assert(shorter[i] == entries[i]);
                }
            }
        }
    }
}

/// Taking one entry out of a list without repeated keys takes its key out
/// of the map.
pub proof fn lemma_entries_map_remove(entries: Seq<(ConfigKey, serde_json::Value)>, at: int)
    requires
        distinct_keys(entries),
        0 <= at < entries.len(),
    ensures
        distinct_keys(entries.remove(at)),
        entries_map(entries.remove(at)) == entries_map(entries).remove(entries[at].0),
    decreases entries.len(),
{
    let rest = entries.remove(at);
    assert forall|i: int, j: int| 0 <= i < j < rest.len() implies (#[trigger] rest[i]).0 != (
    #[trigger] rest[j]).0 by {
        let before = if i < at {
            i
        } else {
            i + 1
        };
        let after = if j < at {
            j
        } else {
            j + 1
        };
        assert(entries[before].0 != entries[after].0);
    }
    let shorter = entries.drop_last();
    if at == entries.len() - 1 {
        assert(rest == shorter);
        lemma_entries_map(shorter);
        if entries_map(shorter).contains_key(entries[at].0) {
            let i = choose|i: int| 0 <= i < shorter.len() && (#[trigger] shorter[i]).0 == entries[at].0;
            assert(entries[i].0 != entries[at].0);
        }
        assert(entries_map(rest) =~= entries_map(entries).remove(entries[at].0));
    } else {
        assert(distinct_keys(shorter)) by {
            assert forall|i: int, j: int| 0 <= i < j < shorter.len() implies (
            #[trigger] shorter[i]).0 != (#[trigger] shorter[j]).0 by {
                assert(entries[i].0 != entries[j].0);
            }
        }
        lemma_entries_map_remove(shorter, at);
        assert(rest.drop_last() == shorter.remove(at));
        assert(rest.last() == entries.last());
        assert(entries[at].0 != entries[entries.len() - 1].0);
        assert(shorter[at] == entries[at]);
        assert(entries_map(rest) =~= entries_map(entries).remove(entries[at].0));
    }
}

/// The project configuration: each key with the JSON value that stands
/// under it.
#[derive(Debug)]
pub struct ConfigMap {
    entries: Vec<(ConfigKey, serde_json::Value)>,
}

impl View for ConfigMap {
    type V = Map<ConfigKey, serde_json::Value>;

    closed spec fn view(&self) -> Map<ConfigKey, serde_json::Value> {
        entries_map(self.entries@)
    }
}

impl ConfigMap {
    #[verifier::type_invariant]
    closed spec fn well_formed(&self) -> bool {
        distinct_keys(self.entries@)
    }

    /// The configuration that holds nothing.
    pub fn new() -> (r: ConfigMap)
        ensures
            r@ == Map::<ConfigKey, serde_json::Value>::empty(),
    {
        ConfigMap { entries: Vec::new() }
    }

    fn position(&self, key: ConfigKey) -> (r: Option<usize>)
        ensures
            match r {
                Some(at) => at < self.entries.len() && self.entries[at as int].0 == key,
                None => forall|i: int|
                    0 <= i < self.entries.len() ==> (#[trigger] self.entries[i]).0 != key,
            },
    {
        let mut at: usize = 0;
        while at < self.entries.len()
            invariant
                at <= self.entries.len(),
                forall|i: int| 0 <= i < at ==> (#[trigger] self.entries[i]).0 != key,
            decreases self.entries.len() - at,
        {
            if self.entries[at].0 == key {
                return Some(at);
            }
            at += 1;
        }
        None
    }

    /// Whether the configuration holds nothing.
    pub fn is_empty(&self) -> (r: bool)
        ensures
            r == (self@ == Map::<ConfigKey, serde_json::Value>::empty()),
    {
        proof {
            lemma_entries_map(self.entries@);
            if self.entries.len() > 0 {
                assert(self@.contains_key(self.entries[0].0));
            }
        }
        self.entries.len() == 0
    }

    /// Whether a value stands under `key`.
    pub fn contains_key(&self, key: &ConfigKey) -> (r: bool)
        ensures
            r == self@.contains_key(*key),
    {
        proof {
            lemma_entries_map(self.entries@);
        }
        self.position(*key).is_some()
    }

    /// The value that stands under `key`, if one does.
    pub fn get(&self, key: &ConfigKey) -> (r: Option<&serde_json::Value>)
        ensures
            r.is_some() == self@.contains_key(*key),
            r matches Some(value) ==> *value == self@[*key],
    {
        proof {
            use_type_invariant(self);
            lemma_entries_map(self.entries@);
        }
        match self.position(*key) {
            Some(at) => Some(&self.entries[at].1),
            None => None,
        }
    }

    /// Puts `value` under `key` and returns what stood there before.
    pub fn insert(&mut self, key: ConfigKey, value: serde_json::Value) -> (r: Option<
        serde_json::Value,
    >)
        ensures
            final(self)@ == old(self)@.insert(key, value),
            r.is_some() == old(self)@.contains_key(key),
            r matches Some(before) ==> before == old(self)@[key],
    {
        proof {
            use_type_invariant(&*self);
            lemma_entries_map(self.entries@);
        }
        let ghost before = self.entries@;
        let found = self.position(key);
        let mut entries: Vec<(ConfigKey, serde_json::Value)> = Vec::new();
        core::mem::swap(&mut self.entries, &mut entries);
        let replaced = match found {
            Some(at) => {
                proof {
                    lemma_entries_map_remove(before, at as int);
                }
                let entry = entries.remove(at);
                Some(entry.1)
            },
            None => None,
        };
        let ghost rest = entries@;
        entries.push((key, value));
        proof {
            assert(entries@.drop_last() == rest);
            assert(entries_map(rest) =~= entries_map(before).remove(key));
            assert(entries_map(entries@) =~= entries_map(before).insert(key, value));
            lemma_entries_map(rest);
            assert forall|i: int, j: int| 0 <= i < j < entries@.len() implies (
            #[trigger] entries@[i]).0 != (#[trigger] entries@[j]).0 by {
                assert(entries@[i] == rest[i]);
                if j < rest.len() {
                    assert(entries@[j] == rest[j]);
                } else {
                    assert(!entries_map(rest).contains_key(key));
                }
            }
        }
        self.entries = entries;
        replaced
    }
}

impl Clone for ConfigMap {
    fn clone(&self) -> (r: Self)
        ensures
            r@ == self@,
    {
        proof {
            use_type_invariant(self);
        }
        let mut entries: Vec<(ConfigKey, serde_json::Value)> = Vec::new();
        let mut at: usize = 0;
        while at < self.entries.len()
            invariant
                at <= self.entries.len(),
                entries@ == self.entries@.take(at as int),
            decreases self.entries.len() - at,
        {
            let entry = &self.entries[at];
            entries.push((entry.0, entry.1.clone()));
            assert(entries@ =~= self.entries@.take(at as int + 1));
            at += 1;
        }
        assert(self.entries@.take(at as int) == self.entries@);
        ConfigMap { entries }
    }
}

/// Whether two configurations hold the same keys, and under each key
/// values that `serde_json` holds to be equal.
pub open spec fn same_config(
    a: Map<ConfigKey, serde_json::Value>,
    b: Map<ConfigKey, serde_json::Value>,
) -> bool {
    &&& forall|key: ConfigKey| a.contains_key(key) <==> b.contains_key(key)
    &&& forall|key: ConfigKey| a.contains_key(key) ==> json_same(a[key], b[key])
}

impl ConfigMap {
    /// Whether each key of `self` stands in `other` too, and, where
    /// `values` is set, under a value that equals the one in `self`.
    fn within(&self, other: &ConfigMap, values: bool) -> (r: bool)
        ensures
            r == forall|key: ConfigKey|
                self@.contains_key(key) ==> #[trigger] other@.contains_key(key) && (values
                    ==> json_same(self@[key], other@[key])),
    {
        proof {
            use_type_invariant(self);
            lemma_entries_map(self.entries@);
        }
        let mut at: usize = 0;
        while at < self.entries.len()
            invariant
                at <= self.entries.len(),
                distinct_keys(self.entries@),
                forall|i: int|
                    0 <= i < at ==> other@.contains_key((#[trigger] self.entries[i]).0) && (values
                        ==> json_same(self.entries[i].1, other@[self.entries[i].0])),
            decreases self.entries.len() - at,
        {
            let entry = &self.entries[at];
            let matched = match other.get(&entry.0) {
                Some(value) => !values || same_value(&entry.1, value),
                None => false,
            };
            if !matched {
                assert(self@.contains_key(entry.0) && self@[entry.0] == entry.1) by {
                    lemma_entries_map(self.entries@);
                }
                return false;
            }
            at += 1;
        }
        proof {
            lemma_entries_map(self.entries@);
            assert forall|key: ConfigKey| self@.contains_key(key) implies #[trigger]
                other@.contains_key(key) && (values ==> json_same(self@[key], other@[key])) by {
                let i = choose|i: int|
                    0 <= i < self.entries.len() && (#[trigger] self.entries[i]).0 == key;
                assert(self@[self.entries[i].0] == self.entries[i].1);
            }
        }
        true
    }
}

impl PartialEq for ConfigMap {
    fn eq(&self, other: &ConfigMap) -> (r: bool) {
        let forth = self.within(other, true);
        let back = other.within(self, false);
        proof {
            if forth && back {
                assert forall|key: ConfigKey| self@.contains_key(key) implies other@.contains_key(
                    key,
                ) && json_same(self@[key], other@[key]) by {
                    assert(other@.contains_key(key));
                }
                assert forall|key: ConfigKey| other@.contains_key(key) implies self@.contains_key(
                    key,
                ) by {
                    assert(self@.contains_key(key));
                }
            }
            if same_config(self@, other@) {
                assert forall|key: ConfigKey| self@.contains_key(key) implies #[trigger]
                    other@.contains_key(key) && json_same(self@[key], other@[key]) by {}
                assert forall|key: ConfigKey| other@.contains_key(key) implies #[trigger]
                    self@.contains_key(key) by {}
            }
        }
        forth && back
    }
}

impl vstd::std_specs::cmp::PartialEqSpecImpl for ConfigMap {
    open spec fn obeys_eq_spec() -> bool {
        true
    }

    open spec fn eq_spec(&self, other: &ConfigMap) -> bool {
        same_config(self@, other@)
    }
}

/// Why a configuration could not be read or written.
#[derive(Debug)]
pub enum ConfigError {
    /// The text is no JSON; the parser's own account of it.
    InvalidJson(serde_json::Error),
    /// The text is JSON, but no object.
    NotAnObject,
    /// The configuration could not be written as JSON; the writer's own
    /// account of it.
    NotSerialized(serde_json::Error),
}

/// The kind of a [`ConfigError`].
pub enum ConfigErrorView {
    InvalidJson,
    NotAnObject,
    NotSerialized,
}

impl View for ConfigError {
    type V = ConfigErrorView;

    open spec fn view(&self) -> ConfigErrorView {
        match self {
            ConfigError::InvalidJson(_) => ConfigErrorView::InvalidJson,
            ConfigError::NotAnObject => ConfigErrorView::NotAnObject,
            ConfigError::NotSerialized(_) => ConfigErrorView::NotSerialized,
        }
    }
}

/// The text that tells the user of an error of the kind `error`.
pub open spec fn config_error_message(error: ConfigErrorView) -> Seq<char> {
    match error {
        ConfigErrorView::InvalidJson => "Failed to parse config JSON"@,
        ConfigErrorView::NotAnObject => "Config must be either an array of strings or an object"@,
        ConfigErrorView::NotSerialized => "Failed to serialize config to JSON for saving"@,
    }
}

impl ConfigError {
    /// The text that tells the user of the error.
    pub fn message(&self) -> (r: String)
        ensures
            r@ == config_error_message(self@),
    {
        match self {
            ConfigError::InvalidJson(_) => String::from_str("Failed to parse config JSON"),
            ConfigError::NotAnObject => String::from_str(
                "Config must be either an array of strings or an object",
            ),
            ConfigError::NotSerialized(_) => String::from_str(
                "Failed to serialize config to JSON for saving",
            ),
        }
    }
}

/// Whether `byte` is ASCII whitespace: space, tab, line feed, form feed or
/// carriage return.
pub open spec fn is_ascii_whitespace(byte: u8) -> bool {
    byte == 0x20 || byte == 0x09 || byte == 0x0A || byte == 0x0C || byte == 0x0D
}

/// Whether `content` holds nothing but ASCII whitespace.
pub open spec fn is_blank(content: Seq<u8>) -> bool {
    forall|i: int| 0 <= i < content.len() ==> is_ascii_whitespace(#[trigger] content[i])
}

/// The configuration that the JSON object `value` holds: under each key of
/// the configuration, the member of `value` that carries the key's name,
/// where there is one. Other members are left out.
pub open spec fn config_of_object(value: serde_json::Value) -> Map<ConfigKey, serde_json::Value> {
    Map::new(
        |key: ConfigKey| json_lookup(value, key.name()) is Some,
        |key: ConfigKey| json_lookup(value, key.name())->Some_0,
    )
}

/// What a parsed JSON value is as a configuration: an object gives the
/// configuration it holds, anything else is refused.
pub open spec fn config_of_value(value: serde_json::Value) -> Result<
    Map<ConfigKey, serde_json::Value>,
    ConfigErrorView,
> {
    if json_view(value) is Object {
        Ok(config_of_object(value))
    } else {
        Err(ConfigErrorView::NotAnObject)
    }
}

/// What the text `content` is as a configuration: blank text is the empty
/// configuration; other text must be the JSON text of an object.
pub open spec fn config_of_text(content: Seq<u8>) -> Result<
    Map<ConfigKey, serde_json::Value>,
    ConfigErrorView,
> {
    if is_blank(content) {
        Ok(Map::empty())
    } else {
        match json_parsed(content) {
            Some(value) => config_of_value(value),
            None => Err(ConfigErrorView::InvalidJson),
        }
    }
}

/// Whether the outcome `r` of reading a configuration is `expected`.
pub open spec fn reads_as(
    r: Result<ConfigMap, ConfigError>,
    expected: Result<Map<ConfigKey, serde_json::Value>, ConfigErrorView>,
) -> bool {
    match (r, expected) {
        (Ok(config), Ok(map)) => config@ == map,
        (Err(error), Err(kind)) => error@ == kind,
        _ => false,
    }
}

/// Whether `content` holds nothing but ASCII whitespace.
pub fn check_blank(content: &[u8]) -> (r: bool)
    ensures
        r == is_blank(content@),
{
    let mut at: usize = 0;
    while at < content.len()
        invariant
            at <= content.len(),
            forall|i: int| 0 <= i < at ==> is_ascii_whitespace(#[trigger] content[i]),
        decreases content.len() - at,
    {
        let byte = content[at];
        if !(byte == 0x20 || byte == 0x09 || byte == 0x0A || byte == 0x0C || byte == 0x0D) {
            return false;
        }
        at += 1;
    }
    true
}

/// Takes the configuration out of a parsed JSON value.
pub fn config_from_value(value: &serde_json::Value) -> (r: Result<ConfigMap, ConfigError>)
    ensures
        reads_as(r, config_of_value(*value)),
{
    if !value.is_object() {
        return Err(ConfigError::NotAnObject);
    }
    let keys = ConfigKey::all();
    let mut config_map = ConfigMap::new();
    let mut at: usize = 0;
    while at < keys.len()
        invariant
            at <= keys.len(),
            forall|key: ConfigKey| keys@.contains(key),
            forall|key: ConfigKey|
                #[trigger] config_map@.contains_key(key) <==> keys@.take(at as int).contains(key)
                    && json_lookup(*value, key.name()) is Some,
            forall|key: ConfigKey|
                #[trigger] config_map@.contains_key(key) ==> config_map@[key] == json_lookup(
                    *value,
                    key.name(),
                )->Some_0,
        decreases keys.len() - at,
    {
        let key = keys[at];
        let ghost before = keys@.take(at as int);
        let ghost after = keys@.take(at as int + 1);
        assert(after == before.push(key));
        assert(forall|other: ConfigKey|
            after.contains(other) <==> before.contains(other) || other == key) by {
            assert forall|other: ConfigKey| after.contains(other) implies before.contains(other)
                || other == key by {
                let i = choose|i: int| 0 <= i < after.len() && after[i] == other;
                if i < before.len() {
                    assert(before[i] == other);
                }
            }
            assert forall|other: ConfigKey| before.contains(other) || other == key implies after.contains(
                other,
            ) by {
                if before.contains(other) {
                    let i = choose|i: int| 0 <= i < before.len() && before[i] == other;
                    assert(after[i] == other);
                } else {
                    assert(after[after.len() - 1] == other);
                }
            }
        }
        if let Some(found) = lookup(value, key.as_str()) {
            config_map.insert(key, found.clone());
        }
        at += 1;
    }
    assert(keys@.take(at as int) == keys@);
    assert(config_map@ =~= config_of_object(*value));
    Ok(config_map)
}

/// Reads a configuration from the bytes of its file. Blank content is the
/// empty configuration; other content must be the JSON text of an object,
/// of which the members under known keys are kept.
pub fn parse_config(content: &[u8]) -> (r: Result<ConfigMap, ConfigError>)
    ensures
        reads_as(r, config_of_text(content@)),
{
    if check_blank(content) {
        return Ok(ConfigMap::new());
    }
    match parse_value(content) {
        Ok(value) => config_from_value(&value),
        Err(error) => Err(ConfigError::InvalidJson(error)),
    }
}

/// Merges `updates` into `base_config`: the result holds every key of
/// either, with the value from `updates` where both hold the key.
pub fn update_config(base_config: &ConfigMap, updates: &ConfigMap) -> (r: ConfigMap)
    ensures
        r@ == base_config@.union_prefer_right(updates@),
{
    proof {
        use_type_invariant(updates);
        lemma_entries_map(updates.entries@);
    }
    let mut new_config = base_config.clone();
    let mut at: usize = 0;
    assert(new_config@ =~= base_config@.union_prefer_right(entries_map(updates.entries@.take(0))));
    while at < updates.entries.len()
        invariant
            at <= updates.entries.len(),
            new_config@ == base_config@.union_prefer_right(
                entries_map(updates.entries@.take(at as int)),
            ),
        decreases updates.entries.len() - at,
    {
        let entry = &updates.entries[at];
        let ghost merged = entries_map(updates.entries@.take(at as int));
        assert(updates.entries@.take(at as int + 1).drop_last() == updates.entries@.take(
            at as int,
        ));
        new_config.insert(entry.0, entry.1.clone());
        assert(new_config@ =~= base_config@.union_prefer_right(merged.insert(entry.0, entry.1)));
        at += 1;
    }
    assert(updates.entries@.take(at as int) == updates.entries@);
    new_config
}

/// The members of the object that a configuration is written as: for each
/// of `keys` under which a value stands, that value under the key's name.
pub open spec fn config_members(
    config: Map<ConfigKey, serde_json::Value>,
    keys: Seq<ConfigKey>,
) -> Map<Seq<char>, serde_json::Value>
    decreases keys.len(),
{
    if keys.len() == 0 {
        Map::empty()
    } else {
        let earlier = config_members(config, keys.drop_last());
        if config.contains_key(keys.last()) {
            earlier.insert(keys.last().name(), config[keys.last()])
        } else {
            earlier
        }
    }
}

/// The text that a configuration is saved as: the pretty-printed JSON
/// object of its members.
pub open spec fn config_text(config: Map<ConfigKey, serde_json::Value>) -> Option<Seq<char>> {
    json_pretty(config_members(config, seq![ConfigKey::Repositories]))
}

/// The JSON object that a configuration is written as: each value under
/// the name of its key.
pub fn config_object(config: &ConfigMap) -> (object: serde_json::Map<String, serde_json::Value>)
    ensures
        object_members(object) == config_members(config@, seq![ConfigKey::Repositories]),
{
    let keys = ConfigKey::all();
    let mut object = new_object();
    let mut at: usize = 0;
    assert(object_members(object) =~= config_members(config@, keys@.take(0)));
    while at < keys.len()
        invariant
            at <= keys.len(),
            object_members(object) == config_members(config@, keys@.take(at as int)),
        decreases keys.len() - at,
    {
        let key = keys[at];
        assert(keys@.take(at as int + 1).drop_last() == keys@.take(at as int));
        assert(keys@.take(at as int + 1).last() == key);
        if let Some(value) = config.get(&key) {
            object_insert(&mut object, String::from_str(key.as_str()), value.clone());
        }
        at += 1;
    }
    assert(keys@.take(at as int) == keys@);
    object
}

/// Writes a configuration as the JSON text to save it as.
pub fn serialize_config(config: &ConfigMap) -> (r: Result<String, ConfigError>)
    ensures
        match config_text(config@) {
            Some(text) => r matches Ok(written) && written@ == text,
            None => r matches Err(error) && error@ == ConfigErrorView::NotSerialized,
        },
{
    let object = config_object(config);
    match pretty_text(&object) {
        Ok(text) => Ok(text),
        Err(error) => Err(ConfigError::NotSerialized(error)),
    }
}

} // verus!
