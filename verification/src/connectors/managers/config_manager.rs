//! A store of named configurations with where each came from: the errors, the keys that
//! environment variables give, what a reload does, and the store itself. The
//! configuration data is carried as it is (the reading of files, variables and TOML is
//! done around the store). Times are milliseconds since the Unix epoch.
use vstd::prelude::*;
use crate::str_map::StrMap;
use crate::text::{lower_case_of, owned, spec_starts_with, starts_with, string_views, to_lower};

verus! {

/// Why a configuration could not be had.
#[derive(Debug)]
pub enum ConfigError {
    FileNotFound { path: String },
    /// A file could not be read; the text of the I/O error.
    FileReadError { message: String },
    /// A file was not valid TOML; the text of the parser's error.
    ParseError { message: String },
    ValidationError { message: String },
    ConfigNotFound { key: String },
    TypeError { message: String },
}

/// The text of an error.
pub open spec fn spec_config_error_text(e: ConfigError) -> Seq<char> {
    match e {
        ConfigError::FileNotFound { path } => "配置文件不存在: "@ + path@,
        ConfigError::FileReadError { message } => "配置文件读取失败: "@ + message@,
        ConfigError::ParseError { message } => "配置解析失败: "@ + message@,
        ConfigError::ValidationError { message } => "配置验证失败: "@ + message@,
        ConfigError::ConfigNotFound { key } => "配置不存在: "@ + key@,
        ConfigError::TypeError { message } => "配置类型错误: "@ + message@,
    }
}

impl ConfigError {
    /// The text of the error.
    pub fn message(&self) -> (r: String)
        ensures
            r@ == spec_config_error_text(*self),
    {
        match self {
            ConfigError::FileNotFound { path } => owned("配置文件不存在: ").concat(path.as_str()),
            ConfigError::FileReadError { message } => owned("配置文件读取失败: ").concat(message.as_str()),
            ConfigError::ParseError { message } => owned("配置解析失败: ").concat(message.as_str()),
            ConfigError::ValidationError { message } => owned("配置验证失败: ").concat(message.as_str()),
            ConfigError::ConfigNotFound { key } => owned("配置不存在: ").concat(key.as_str()),
            ConfigError::TypeError { message } => owned("配置类型错误: ").concat(message.as_str()),
        }
    }
}

/// Where a configuration came from: a file path, an environment prefix, or a named
/// string in memory.
#[derive(Debug, Clone)]
pub enum ConfigSource {
    File(String),
    Environment(String),
    Memory(String),
}

/// A source as text.
pub enum ConfigSourceView {
    File(Seq<char>),
    Environment(Seq<char>),
    Memory(Seq<char>),
}

impl View for ConfigSource {
    type V = ConfigSourceView;

    open spec fn view(&self) -> ConfigSourceView {
        match self {
            ConfigSource::File(p) => ConfigSourceView::File(p@),
            ConfigSource::Environment(p) => ConfigSourceView::Environment(p@),
            ConfigSource::Memory(n) => ConfigSourceView::Memory(n@),
        }
    }
}

/// A copy of a source.
pub fn copy_source(s: &ConfigSource) -> (r: ConfigSource)
    ensures
        r@ == s@,
{
    match s {
        ConfigSource::File(p) => ConfigSource::File(owned(p.as_str())),
        ConfigSource::Environment(p) => ConfigSource::Environment(owned(p.as_str())),
        ConfigSource::Memory(n) => ConfigSource::Memory(owned(n.as_str())),
    }
}

/// Where and when a configuration was loaded.
#[derive(Debug)]
pub struct ConfigMetadata {
    pub source: ConfigSource,
    pub loaded_at: u64,
    pub version: Option<String>,
    pub tags: StrMap<String>,
}

/// Metadata as the contracts see it.
pub struct ConfigMetadataView {
    pub source: ConfigSourceView,
    pub loaded_at: u64,
    pub version: Option<Seq<char>>,
    pub tags: Map<Seq<char>, Seq<char>>,
}

impl View for ConfigMetadata {
    type V = ConfigMetadataView;

    open spec fn view(&self) -> ConfigMetadataView {
        ConfigMetadataView {
            source: self.source@,
            loaded_at: self.loaded_at,
            version: match self.version {
                Some(v) => Some(v@),
                None => None,
            },
            tags: self.tags.view(),
        }
    }
}

impl ConfigMetadata {
    /// The metadata of a configuration loaded from `source` at `now`: no version, no tags.
    pub fn loaded(source: ConfigSource, now: u64) -> (r: Self)
        ensures
            r@.source == source@,
            r@.loaded_at == now,
            r@.version is None,
            r@.tags == Map::<Seq<char>, Seq<char>>::empty(),
    {
        ConfigMetadata { source, loaded_at: now, version: None, tags: StrMap::new() }
    }
}

/// One stored configuration.
#[derive(Debug)]
pub struct ConfigEntry<D> {
    pub data: D,
    pub metadata: ConfigMetadata,
}

/// A stored configuration as the contracts see it: its data and its metadata.
pub struct ConfigEntryView<D> {
    pub data: D,
    pub metadata: ConfigMetadataView,
}

impl<D> View for ConfigEntry<D> {
    type V = ConfigEntryView<D>;

    open spec fn view(&self) -> ConfigEntryView<D> {
        ConfigEntryView { data: self.data, metadata: self.metadata@ }
    }
}

/// What reloading a configuration does: read its file again, read its environment
/// variables again, or nothing (a string in memory cannot be read again).
#[derive(Debug, Clone, PartialEq, Eq)]
pub enum ReloadAction {
    ReadFile(String),
    ReadEnvironment(String),
    Keep,
}

/// The configuration key that an environment variable gives: for a variable that starts
/// with the prefix, the rest without leading underscores, in lower case.
pub open spec fn spec_env_config_key(env_key: Seq<char>, prefix: Seq<char>) -> Option<Seq<char>> {
    if spec_starts_with(env_key, prefix) {
        Some(lower_case_of(trim_underscores(env_key.skip(prefix.len() as int))))
    } else {
        None
    }
}

/// A text without its leading underscores.
pub open spec fn trim_underscores(s: Seq<char>) -> Seq<char>
    decreases s.len(),
{
    if s.len() > 0 && s[0] == '_' {
        trim_underscores(s.skip(1))
    } else {
        s
    }
}

/// The configuration key that the environment variable `env_key` gives under `prefix`.
pub fn env_config_key(env_key: &str, prefix: &str) -> (r: Option<String>)
    ensures
        match r {
            Some(k) => spec_env_config_key(env_key@, prefix@) == Some(k@),
            None => spec_env_config_key(env_key@, prefix@) is None,
        },
{
    if !starts_with(env_key, prefix) {
        return None;
    }
    let n = env_key.unicode_len();
    let mut i = prefix.unicode_len();
    while i < n && env_key.get_char(i) == '_'
        invariant
            n == env_key@.len(),
            prefix@.len() <= i <= n,
            trim_underscores(env_key@.skip(prefix@.len() as int)) == trim_underscores(env_key@.skip(i as int)),
        decreases n - i,
    {
        assert(env_key@.skip(i as int).skip(1) =~= env_key@.skip(i + 1));
        i = i + 1;
    }
    let rest = env_key.substring_char(i, n);
    assert(rest@ =~= env_key@.skip(i as int));
    assert(trim_underscores(rest@) == rest@);
    Some(to_lower(rest))
}

/// The store of configurations by key, with the directory it loads from and whether
/// environment variables may override.
#[derive(Debug)]
pub struct ConfigManager<D> {
    configs: StrMap<ConfigEntry<D>>,
    config_dir: String,
    enable_env_override: bool,
}

impl<D> ConfigManager<D> {
    /// The metadata of the stored configurations, by key.
    pub closed spec fn stored(&self) -> Map<Seq<char>, ConfigMetadataView> {
        self.configs.view().map_values(|e: ConfigEntryView<D>| e.metadata)
    }

    /// The stored data, by key.
    pub closed spec fn data(&self) -> Map<Seq<char>, D> {
        self.configs.view().map_values(|e: ConfigEntryView<D>| e.data)
    }

    /// The directory it loads from.
    pub closed spec fn dir(&self) -> Seq<char> {
        self.config_dir@
    }

    /// Whether environment variables may override.
    pub closed spec fn env_override(&self) -> bool {
        self.enable_env_override
    }

    /// The store is kept well.
    pub closed spec fn wf(&self) -> bool {
        self.configs.wf()
    }

    /// The keys in the order they were first stored.
    pub closed spec fn keys_in_order(&self) -> Seq<Seq<char>> {
        self.configs.key_seq()
    }

    /// An empty store that loads from `config_dir`, with overrides allowed.
    pub fn new(config_dir: &str) -> (r: Self)
        ensures
            r.wf(),
            r.stored() == Map::<Seq<char>, ConfigMetadataView>::empty(),
            r.data() == Map::<Seq<char>, D>::empty(),
            r.dir() == config_dir@,
            r.env_override(),
    {
        let r = ConfigManager { configs: StrMap::new(), config_dir: owned(config_dir), enable_env_override: true };
        assert(r.stored() =~= Map::<Seq<char>, ConfigMetadataView>::empty());
        assert(r.data() =~= Map::<Seq<char>, D>::empty());
        r
    }

    /// The same store with overrides allowed or not.
    pub fn with_env_override(self, enable: bool) -> (r: Self)
        ensures
            r.env_override() == enable,
            r.stored() == self.stored(),
            r.data() == self.data(),
            r.dir() == self.dir(),
            r.wf() == self.wf(),
    {
        let mut r = self;
        r.enable_env_override = enable;
        r
    }

    /// The directory it loads from.
    pub fn config_dir(&self) -> (r: &str)
        ensures
            r@ == self.dir(),
    {
        self.config_dir.as_str()
    }

    /// Stores `data` under `key` with its metadata, replacing what was there.
    pub fn store(&mut self, key: String, data: D, metadata: ConfigMetadata)
        requires
            old(self).wf(),
        ensures
            final(self).wf(),
            final(self).stored() == old(self).stored().insert(key@, metadata@),
            final(self).data() == old(self).data().insert(key@, data),
            final(self).dir() == old(self).dir(),
            final(self).env_override() == old(self).env_override(),
    {
        let ghost k = key@;
        let ghost d = data;
        let ghost m = metadata@;
        self.configs.insert(key, ConfigEntry { data, metadata });
        assert(self.stored() =~= old(self).stored().insert(k, m));
        assert(self.data() =~= old(self).data().insert(k, d));
    }

    /// The data stored under `key`.
    pub fn get_raw(&self, key: &str) -> (r: Result<&D, ConfigError>)
        requires
            self.wf(),
        ensures
            r is Ok <==> self.stored().contains_key(key@),
            r matches Ok(d) ==> self.data().contains_key(key@) && *d == self.data()[key@],
            r matches Err(e) ==> (e matches ConfigError::ConfigNotFound { key: k } && k@ == key@),
    {
        match self.configs.get(key) {
            Some(entry) => Ok(&entry.data),
            None => Err(ConfigError::ConfigNotFound { key: owned(key) }),
        }
    }

    /// The metadata stored under `key`.
    pub fn get_metadata(&self, key: &str) -> (r: Result<&ConfigMetadata, ConfigError>)
        requires
            self.wf(),
        ensures
            match r {
                Ok(m) => self.stored().contains_key(key@) && m@ == self.stored()[key@],
                Err(e) => !self.stored().contains_key(key@) && (e matches ConfigError::ConfigNotFound { key: k } && k@ == key@),
            },
    {
        match self.configs.get(key) {
            Some(entry) => Ok(&entry.metadata),
            None => Err(ConfigError::ConfigNotFound { key: owned(key) }),
        }
    }

    /// Whether something is stored under `key`.
    pub fn contains(&self, key: &str) -> (r: bool)
        requires
            self.wf(),
        ensures
            r == self.stored().contains_key(key@),
    {
        self.configs.contains(key)
    }

    /// The stored keys, in the order they were first stored.
    pub fn list_keys(&self) -> (r: Vec<String>)
        ensures
            string_views(r@) == self.keys_in_order(),
    {
        let n = self.configs.entries.len();
        let mut r: Vec<String> = Vec::new();
        let mut i: usize = 0;
        while i < n
            invariant
                n == self.configs.entries@.len(),
                i <= n,
                string_views(r@) == self.keys_in_order().take(i as int),
            decreases n - i,
        {
            let ghost prev = r@;
            r.push(owned(self.configs.entries[i].0.as_str()));
            proof {
                assert(string_views(r@) =~= string_views(prev).push(self.configs.entries@[i as int].0@));
                assert(self.keys_in_order().take(i + 1) =~= self.keys_in_order().take(i as int).push(self.keys_in_order()[i as int]));
            }
            i = i + 1;
        }
        assert(self.keys_in_order().take(n as int) =~= self.keys_in_order());
        r
    }

    /// Every stored key is listed, and every listed key is stored.
    pub proof fn lemma_keys_match(&self)
        requires
            self.wf(),
        ensures
            forall|x: Seq<char>| self.stored().contains_key(x) <==> #[trigger] self.keys_in_order().contains(x),
    {
        assert forall|x: Seq<char>| self.stored().contains_key(x) <==> #[trigger] self.keys_in_order().contains(x) by {
            if self.stored().contains_key(x) {
                let b = self.configs.index_of(x);
                assert(self.keys_in_order()[b] == x);
            }
            if self.keys_in_order().contains(x) {
                let b = choose|b: int| 0 <= b < self.keys_in_order().len() && self.keys_in_order()[b] == x;
                assert(self.configs.entries@[b].0@ == x);
            }
        }
    }

    /// Removes what is stored under `key`; refused where nothing is.
    pub fn remove(&mut self, key: &str) -> (r: Result<(), ConfigError>)
        requires
            old(self).wf(),
        ensures
            final(self).wf(),
            final(self).stored() == old(self).stored().remove(key@),
            final(self).data() == old(self).data().remove(key@),
            final(self).dir() == old(self).dir(),
            final(self).env_override() == old(self).env_override(),
            r is Ok <==> old(self).stored().contains_key(key@),
            r matches Err(e) ==> (e matches ConfigError::ConfigNotFound { key: k } && k@ == key@),
    {
        let removed = self.configs.remove(key);
        assert(self.stored() =~= old(self).stored().remove(key@));
        assert(self.data() =~= old(self).data().remove(key@));
        if removed {
            Ok(())
        } else {
            Err(ConfigError::ConfigNotFound { key: owned(key) })
        }
    }

    /// Checks that both configurations of a merge exist: the one merged from first.
    pub fn check_merge(&self, other_key: &str, target_key: &str) -> (r: Result<(), ConfigError>)
        requires
            self.wf(),
        ensures
            !self.stored().contains_key(other_key@) ==> (r matches Err(ConfigError::ConfigNotFound { key: k }) && k@ == other_key@),
            self.stored().contains_key(other_key@) && !self.stored().contains_key(target_key@) ==> (r matches Err(
                ConfigError::ConfigNotFound { key: k },
            ) && k@ == target_key@),
            self.stored().contains_key(other_key@) && self.stored().contains_key(target_key@) ==> r is Ok,
    {
        if !self.configs.contains(other_key) {
            return Err(ConfigError::ConfigNotFound { key: owned(other_key) });
        }
        if !self.configs.contains(target_key) {
            return Err(ConfigError::ConfigNotFound { key: owned(target_key) });
        }
        Ok(())
    }

    /// What reloading the configuration under `key` does, by its source.
    pub fn reload_action(&self, key: &str) -> (r: Result<ReloadAction, ConfigError>)
        requires
            self.wf(),
        ensures
            !self.stored().contains_key(key@) ==> (r matches Err(ConfigError::ConfigNotFound { key: k }) && k@ == key@),
            self.stored().contains_key(key@) ==> match self.stored()[key@].source {
                ConfigSourceView::File(p) => r matches Ok(ReloadAction::ReadFile(x)) && x@ == p,
                ConfigSourceView::Environment(p) => r matches Ok(ReloadAction::ReadEnvironment(x)) && x@ == p,
                ConfigSourceView::Memory(_) => r matches Ok(ReloadAction::Keep),
            },
    {
        match self.configs.get(key) {
            None => Err(ConfigError::ConfigNotFound { key: owned(key) }),
            Some(entry) => match &entry.metadata.source {
                ConfigSource::File(p) => Ok(ReloadAction::ReadFile(owned(p.as_str()))),
                ConfigSource::Environment(p) => Ok(ReloadAction::ReadEnvironment(owned(p.as_str()))),
                ConfigSource::Memory(_) => Ok(ReloadAction::Keep),
            },
        }
    }
}

#[verifier::external_type_specification]
#[verifier::external_body]
pub struct ExTomlValue(toml::Value);

/// Whether `toml::from_str` reads `content` as a TOML value.
pub uninterp spec fn toml_parses(content: Seq<char>) -> bool;

/// Reads TOML text with `toml::from_str` into a `toml::Value`; an error is given as its
/// text. Whether it succeeds depends on the text alone, and is named `toml_parses`.
#[verifier::external_body]
fn parse_toml(content: &str) -> (r: Result<toml::Value, String>)
    ensures
        r is Ok <==> toml_parses(content@),
{
    toml::from_str::<toml::Value>(content).map_err(|e| e.to_string())
}

impl ConfigManager<toml::Value> {
    /// Reads TOML text and stores it under `key`, loaded from `source` at `now`. Text that
    /// is not TOML is a parse error, and then nothing changes.
    pub fn load_text(&mut self, key: String, content: &str, source: ConfigSource, now: u64) -> (r: Result<(), ConfigError>)
        requires
            old(self).wf(),
        ensures
            final(self).wf(),
            r is Ok <==> toml_parses(content@),
            r is Ok ==> final(self).stored() == old(self).stored().insert(key@, ConfigMetadataView {
                source: source@,
                loaded_at: now,
                version: None,
                tags: Map::empty(),
            }),
            r is Ok ==> final(self).data().contains_key(key@),
            r is Err ==> (r matches Err(ConfigError::ParseError { .. }) && final(self).stored() == old(self).stored()
                && final(self).data() == old(self).data()),
            final(self).dir() == old(self).dir(),
            final(self).env_override() == old(self).env_override(),
    {
        match parse_toml(content) {
            Ok(data) => {
                let meta = ConfigMetadata::loaded(source, now);
                self.store(key, data, meta);
                Ok(())
            },
            Err(message) => Err(ConfigError::ParseError { message }),
        }
    }

    /// Reads TOML text and stores it under `key`, as held in memory under `source_name`,
    /// loaded at `now`.
    pub fn load_from_string(&mut self, key: String, content: &str, source_name: String, now: u64) -> (r: Result<(), ConfigError>)
        requires
            old(self).wf(),
        ensures
            final(self).wf(),
            r is Ok <==> toml_parses(content@),
            r is Ok ==> final(self).stored() == old(self).stored().insert(key@, ConfigMetadataView {
                source: ConfigSourceView::Memory(source_name@),
                loaded_at: now,
                version: None,
                tags: Map::empty(),
            }),
            r is Ok ==> final(self).data().contains_key(key@),
            r is Err ==> (r matches Err(ConfigError::ParseError { .. }) && final(self).stored() == old(self).stored()
                && final(self).data() == old(self).data()),
            final(self).dir() == old(self).dir(),
            final(self).env_override() == old(self).env_override(),
    {
        self.load_text(key, content, ConfigSource::Memory(source_name), now)
    }
}

/// What is read back under a key is what was last stored there. `a` is the store before,
/// `b` after storing `d` under `key`.
pub proof fn lemma_store_then_read<D>(a: ConfigManager<D>, b: ConfigManager<D>, key: Seq<char>, d: D)
    requires
        b.data() == a.data().insert(key, d),
    ensures
        b.data().contains_key(key),
        b.data()[key] == d,
{
}

/// Storing under a key and then removing that key leaves the store as removing the key
/// alone would: whatever was there before under the key is gone, every other key is as
/// it was. `a` is the store before, `b` after storing, `c` after removing.
pub proof fn lemma_store_then_remove<D>(
    a: ConfigManager<D>,
    b: ConfigManager<D>,
    c: ConfigManager<D>,
    key: Seq<char>,
    v: ConfigMetadataView,
)
    requires
        b.stored() == a.stored().insert(key, v),
        c.stored() == b.stored().remove(key),
    ensures
        b.stored().contains_key(key),
        c.stored() == a.stored().remove(key),
        !c.stored().contains_key(key),
{
    assert(a.stored().insert(key, v).remove(key) =~= a.stored().remove(key));
}

} // verus!
