//! The bookmarks configuration: named urls with aliases, and named groups of
//! url names or aliases.

use vstd::prelude::*;

use crate::order::str_eq;
use crate::strings::{err_group_entries_missing, group_entries_missing_message};
use crate::text::{parse_list, parse_list_spec, strings_view, strs_view};

verus! {

/// One url of the configuration, with the aliases it can also be opened by.
#[derive(Clone, Debug)]
pub struct UrlEntry {
    pub url: String,
    pub aliases: Vec<String>,
}

/// What a url entry holds, as plain text.
pub struct UrlEntryView {
    pub url: Seq<char>,
    pub aliases: Seq<Seq<char>>,
}

impl View for UrlEntry {
    type V = UrlEntryView;

    open spec fn view(&self) -> UrlEntryView {
        UrlEntryView { url: self.url@, aliases: strings_view(self.aliases@) }
    }
}

impl UrlEntry {
    /// The url this entry opens.
    pub fn url(&self) -> (r: &str)
        ensures
            r@ == self@.url,
    {
        self.url.as_str()
    }

    /// The aliases of this entry.
    pub fn aliases(&self) -> (r: &Vec<String>)
        ensures
            strings_view(r@) == self@.aliases,
    {
        &self.aliases
    }
}

/// The configuration: urls by name, and groups by name.
#[derive(Clone, Debug)]
pub struct Config {
    pub urls: Vec<(String, UrlEntry)>,
    pub groups: Vec<(String, Vec<String>)>,
}

/// What a configuration holds, as plain text.
pub struct ConfigView {
    pub urls: Seq<(Seq<char>, UrlEntryView)>,
    pub groups: Seq<(Seq<char>, Seq<Seq<char>>)>,
}

impl View for Config {
    type V = ConfigView;

    open spec fn view(&self) -> ConfigView {
        ConfigView {
            urls: self.urls@.map_values(|p: (String, UrlEntry)| (p.0@, p.1@)),
            groups: self.groups@.map_values(|p: (String, Vec<String>)| (p.0@, strings_view(p.1@))),
        }
    }
}

/// The configuration with no urls and no groups.
pub open spec fn empty_config() -> ConfigView {
    ConfigView { urls: Seq::empty(), groups: Seq::empty() }
}

impl Config {
    /// A configuration with no urls and no groups.
    pub fn new() -> (r: Config)
        ensures
            r@ == empty_config(),
            config_wf(r@),
    {
        let r = Config { urls: Vec::new(), groups: Vec::new() };
        assert(r@.urls =~= empty_config().urls);
        assert(r@.groups =~= empty_config().groups);
        r
    }
}

impl Default for Config {
    fn default() -> (r: Config)
        ensures
            r@ == empty_config(),
    {
        Config::new()
    }
}

/// The names of the urls, in order.
pub open spec fn url_names(c: ConfigView) -> Seq<Seq<char>> {
    c.urls.map_values(|p: (Seq<char>, UrlEntryView)| p.0)
}

/// The names of the groups, in order.
pub open spec fn group_names(c: ConfigView) -> Seq<Seq<char>> {
    c.groups.map_values(|p: (Seq<char>, Seq<Seq<char>>)| p.0)
}

/// `i` is the first position of `key` in `keys`.
pub open spec fn is_first_index(keys: Seq<Seq<char>>, key: Seq<char>, i: int) -> bool {
    &&& 0 <= i < keys.len()
    &&& keys[i] == key
    &&& forall|j: int| 0 <= j < i ==> keys[j] != key
}

/// The first position of `key` in `keys`, if it occurs.
pub open spec fn index_of(keys: Seq<Seq<char>>, key: Seq<char>) -> Option<int> {
    if exists|i: int| is_first_index(keys, key, i) {
        Some(choose|i: int| is_first_index(keys, key, i))
    } else {
        None
    }
}

/// The first position of a key is unique.
pub proof fn lemma_first_index_unique(keys: Seq<Seq<char>>, key: Seq<char>, i: int)
    requires
        is_first_index(keys, key, i),
    ensures
        index_of(keys, key) == Some(i),
{
    let j = choose|j: int| is_first_index(keys, key, j);
    assert(is_first_index(keys, key, j));
    if j < i {
        assert(keys[j] != key);
    }
    if i < j {
        assert(keys[i] != key);
    }
}

/// A key that occurs has a first position.
proof fn lemma_first_index_exists(keys: Seq<Seq<char>>, key: Seq<char>, j: int)
    requires
        0 <= j < keys.len(),
        keys[j] == key,
    ensures
        exists|i: int| is_first_index(keys, key, i),
    decreases j,
{
    if exists|k: int| 0 <= k < j && keys[k] == key {
        let k = choose|k: int| 0 <= k < j && keys[k] == key;
        lemma_first_index_exists(keys, key, k);
    } else {
        assert(is_first_index(keys, key, j));
    }
}

/// A key has no position exactly when it occurs nowhere.
pub proof fn lemma_index_of_none(keys: Seq<Seq<char>>, key: Seq<char>)
    ensures
        index_of(keys, key) is None <==> forall|j: int| 0 <= j < keys.len() ==> keys[j] != key,
{
    if index_of(keys, key) is None {
        assert forall|j: int| 0 <= j < keys.len() implies keys[j] != key by {
            if keys[j] == key {
                lemma_first_index_exists(keys, key, j);
            }
        }
    } else {
        let i = choose|i: int| is_first_index(keys, key, i);
        assert(is_first_index(keys, key, i));
        assert(keys[i] == key);
    }
}

/// The position of a key holds the key.
pub proof fn lemma_index_of_some(keys: Seq<Seq<char>>, key: Seq<char>)
    requires
        index_of(keys, key) is Some,
    ensures
        is_first_index(keys, key, index_of(keys, key)->0),
{
}

/// The position of a key in a list of keyed pairs.
pub fn find_key<V>(v: &Vec<(String, V)>, key: &str) -> (r: Option<usize>)
    ensures
        match r {
            Some(i) => index_of(v@.map_values(|p: (String, V)| p.0@), key@) == Some(i as int),
            None => index_of(v@.map_values(|p: (String, V)| p.0@), key@) is None,
        },
{
    let ghost keys = v@.map_values(|p: (String, V)| p.0@);
    let mut i: usize = 0;
    while i < v.len()
        invariant
            i <= v.len(),
            keys == v@.map_values(|p: (String, V)| p.0@),
            forall|j: int| 0 <= j < i ==> keys[j] != key@,
        decreases v.len() - i,
    {
        if str_eq(v[i].0.as_str(), key) {
            proof {
                lemma_first_index_unique(keys, key@, i as int);
            }
            return Some(i);
        }
        i = i + 1;
    }
    None
}

/// `i` is the first url that has `alias` among its aliases.
pub open spec fn is_first_alias_owner(c: ConfigView, alias: Seq<char>, i: int) -> bool {
    &&& 0 <= i < c.urls.len()
    &&& c.urls[i].1.aliases.contains(alias)
    &&& forall|j: int| 0 <= j < i ==> !c.urls[j].1.aliases.contains(alias)
}

/// The first url that has `alias` among its aliases, if any.
pub open spec fn alias_owner(c: ConfigView, alias: Seq<char>) -> Option<int> {
    if exists|i: int| is_first_alias_owner(c, alias, i) {
        Some(choose|i: int| is_first_alias_owner(c, alias, i))
    } else {
        None
    }
}

/// The url that a url name, or else an alias, stands for.
pub open spec fn resolve_spec(c: ConfigView, name: Seq<char>) -> Option<Seq<char>> {
    match index_of(url_names(c), name) {
        Some(i) => Some(c.urls[i].1.url),
        None => match alias_owner(c, name) {
            Some(i) => Some(c.urls[i].1.url),
            None => None,
        },
    }
}

/// What went wrong in a lookup or an edit of the configuration.
#[derive(Debug)]
pub enum ConfigError {
    /// No url has this name or alias.
    NotFound(String),
    /// No url has this name.
    UrlNotFound(String),
    /// A url with this name exists already.
    UrlExists(String),
    /// No group has this name.
    GroupNotFound(String),
    /// A group with this name exists already.
    GroupExists(String),
    /// These group entries name no url and no alias.
    EntriesMissing(Vec<String>),
}

impl ConfigError {
    /// The text of the error.
    pub open spec fn message_spec(&self) -> Seq<char> {
        match self {
            ConfigError::NotFound(n) => "not found: "@ + n@,
            ConfigError::UrlNotFound(n) => "url not found: "@ + n@,
            ConfigError::UrlExists(n) => "url already exists: "@ + n@,
            ConfigError::GroupNotFound(n) => "group not found: "@ + n@,
            ConfigError::GroupExists(n) => "group already exists: "@ + n@,
            ConfigError::EntriesMissing(m) => group_entries_missing_message(strings_view(m@)),
        }
    }

    /// The text of the error.
    pub fn message(&self) -> (r: String)
        ensures
            r@ == self.message_spec(),
    {
        match self {
            ConfigError::NotFound(n) => {
                let mut out = String::from_str("not found: ");
                out.append(n.as_str());
                out
            },
            ConfigError::UrlNotFound(n) => {
                let mut out = String::from_str("url not found: ");
                out.append(n.as_str());
                out
            },
            ConfigError::UrlExists(n) => {
                let mut out = String::from_str("url already exists: ");
                out.append(n.as_str());
                out
            },
            ConfigError::GroupNotFound(n) => {
                let mut out = String::from_str("group not found: ");
                out.append(n.as_str());
                out
            },
            ConfigError::GroupExists(n) => {
                let mut out = String::from_str("group already exists: ");
                out.append(n.as_str());
                out
            },
            ConfigError::EntriesMissing(m) => {
                let mut refs: Vec<&str> = Vec::new();
                let mut i: usize = 0;
                while i < m.len()
                    invariant
                        i <= m.len(),
                        refs@.len() == i,
                        forall|k: int| 0 <= k < i ==> #[trigger] refs@[k]@ == m@[k]@,
                    decreases m.len() - i,
                {
                    refs.push(m[i].as_str());
                    i = i + 1;
                }
                assert(strs_view(refs@) == strings_view(m@));
                err_group_entries_missing(refs.as_slice())
            },
        }
    }
}

/// Whether a text is one of the items of a list.
pub fn contains_str(list: &Vec<String>, item: &str) -> (r: bool)
    ensures
        r == strings_view(list@).contains(item@),
{
    let ghost items = strings_view(list@);
    let mut i: usize = 0;
    while i < list.len()
        invariant
            i <= list.len(),
            items == strings_view(list@),
            forall|j: int| 0 <= j < i ==> items[j] != item@,
        decreases list.len() - i,
    {
        if str_eq(list[i].as_str(), item) {
            assert(items[i as int] == item@);
            return true;
        }
        i = i + 1;
    }
    false
}

/// The position of the first url that has `alias` among its aliases.
fn find_alias_owner(config: &Config, alias: &str) -> (r: Option<usize>)
    ensures
        match r {
            Some(i) => alias_owner(config@, alias@) == Some(i as int),
            None => alias_owner(config@, alias@) is None,
        },
{
    let ghost c = config@;
    let mut i: usize = 0;
    while i < config.urls.len()
        invariant
            i <= config.urls.len(),
            c == config@,
            forall|j: int| 0 <= j < i ==> !c.urls[j].1.aliases.contains(alias@),
        decreases config.urls.len() - i,
    {
        if contains_str(&config.urls[i].1.aliases, alias) {
            proof {
                assert(is_first_alias_owner(c, alias@, i as int));
                let k = choose|k: int| is_first_alias_owner(c, alias@, k);
                assert(is_first_alias_owner(c, alias@, k));
                if k < i {
                    assert(!c.urls[k].1.aliases.contains(alias@));
                }
                if (i as int) < k {
                    assert(!c.urls[i as int].1.aliases.contains(alias@));
                }
            }
            return Some(i);
        }
        i = i + 1;
    }
    None
}

/// The url that a url name, or else an alias, stands for.
pub fn resolve_uri<'a>(name: &str, config: &'a Config) -> (r: Result<&'a str, ConfigError>)
    ensures
        match r {
            Ok(u) => resolve_spec(config@, name@) == Some(u@),
            Err(e) => resolve_spec(config@, name@) is None && (e matches ConfigError::NotFound(n)
                && n@ == name@),
        },
{
    match find_key(&config.urls, name) {
        Some(i) => {
            assert(config.urls@.map_values(|p: (String, UrlEntry)| p.0@) == url_names(config@));
            Ok(config.urls[i].1.url.as_str())
        },
        None => {
            assert(config.urls@.map_values(|p: (String, UrlEntry)| p.0@) == url_names(config@));
            match find_alias_owner(config, name) {
                Some(i) => Ok(config.urls[i].1.url.as_str()),
                None => Err(ConfigError::NotFound(String::from_str(name))),
            }
        },
    }
}

/// The group entries that stand for no url, in order.
pub open spec fn missing_entries(c: ConfigView, entries: Seq<Seq<char>>) -> Seq<Seq<char>>
    decreases entries.len(),
{
    if entries.len() == 0 {
        Seq::empty()
    } else {
        let prev = missing_entries(c, entries.drop_last());
        if resolve_spec(c, entries.last()) is None {
            prev.push(entries.last())
        } else {
            prev
        }
    }
}

/// The outcome of checking group entries: each must be a url name or an alias.
pub open spec fn validate_group_entries_spec(c: ConfigView, entries: Seq<Seq<char>>) -> Result<
    (),
    Seq<char>,
> {
    let missing = missing_entries(c, entries);
    if missing.len() == 0 {
        Ok(())
    } else {
        Err(group_entries_missing_message(missing))
    }
}

/// Adding a url, or giving an existing url a new address (its aliases stay).
pub open spec fn upsert_url_spec(c: ConfigView, name: Seq<char>, url: Seq<char>) -> ConfigView {
    match index_of(url_names(c), name) {
        Some(i) => ConfigView {
            urls: c.urls.update(i, (name, UrlEntryView { url, aliases: c.urls[i].1.aliases })),
            groups: c.groups,
        },
        None => ConfigView {
            urls: c.urls.push((name, UrlEntryView { url, aliases: Seq::empty() })),
            groups: c.groups,
        },
    }
}

/// Adding a group, or giving an existing group new entries, once every entry
/// is a url name or an alias.
pub open spec fn upsert_group_spec(
    c: ConfigView,
    name: Seq<char>,
    entries: Seq<Seq<char>>,
) -> Result<ConfigView, Seq<char>> {
    match validate_group_entries_spec(c, entries) {
        Err(m) => Err(m),
        Ok(_) => match index_of(group_names(c), name) {
            Some(i) => Ok(ConfigView { urls: c.urls, groups: c.groups.update(i, (name, entries)) }),
            None => Ok(ConfigView { urls: c.urls, groups: c.groups.push((name, entries)) }),
        },
    }
}

/// Removing the url with a name.
pub open spec fn delete_url_spec(c: ConfigView, name: Seq<char>) -> Result<ConfigView, Seq<char>> {
    match index_of(url_names(c), name) {
        Some(i) => Ok(ConfigView { urls: c.urls.remove(i), groups: c.groups }),
        None => Err("url not found: "@ + name),
    }
}

/// Removing the group with a name.
pub open spec fn delete_group_spec(c: ConfigView, name: Seq<char>) -> Result<
    ConfigView,
    Seq<char>,
> {
    match index_of(group_names(c), name) {
        Some(i) => Ok(ConfigView { urls: c.urls, groups: c.groups.remove(i) }),
        None => Err("group not found: "@ + name),
    }
}

/// Giving a url a new name that no url has yet.
pub open spec fn rename_url_spec(c: ConfigView, old: Seq<char>, new: Seq<char>) -> Result<
    ConfigView,
    Seq<char>,
> {
    match index_of(url_names(c), old) {
        None => Err("url not found: "@ + old),
        Some(i) => if index_of(url_names(c), new) is Some {
            Err("url already exists: "@ + new)
        } else {
            Ok(ConfigView { urls: c.urls.update(i, (new, c.urls[i].1)), groups: c.groups })
        },
    }
}

/// Giving a url a new address.
pub open spec fn set_url_value_spec(c: ConfigView, key: Seq<char>, url: Seq<char>) -> Result<
    ConfigView,
    Seq<char>,
> {
    match index_of(url_names(c), key) {
        Some(i) => Ok(
            ConfigView {
                urls: c.urls.update(i, (key, UrlEntryView { url, aliases: c.urls[i].1.aliases })),
                groups: c.groups,
            },
        ),
        None => Err("url not found: "@ + key),
    }
}

/// Giving a url new aliases.
pub open spec fn set_url_aliases_spec(
    c: ConfigView,
    key: Seq<char>,
    aliases: Seq<Seq<char>>,
) -> Result<ConfigView, Seq<char>> {
    match index_of(url_names(c), key) {
        Some(i) => Ok(
            ConfigView {
                urls: c.urls.update(i, (key, UrlEntryView { url: c.urls[i].1.url, aliases })),
                groups: c.groups,
            },
        ),
        None => Err("url not found: "@ + key),
    }
}

/// Giving a group a new name that no group has yet.
pub open spec fn rename_group_spec(c: ConfigView, old: Seq<char>, new: Seq<char>) -> Result<
    ConfigView,
    Seq<char>,
> {
    match index_of(group_names(c), old) {
        None => Err("group not found: "@ + old),
        Some(i) => if index_of(group_names(c), new) is Some {
            Err("group already exists: "@ + new)
        } else {
            Ok(ConfigView { urls: c.urls, groups: c.groups.update(i, (new, c.groups[i].1)) })
        },
    }
}

/// Giving a group new entries.
pub open spec fn set_group_entries_spec(
    c: ConfigView,
    key: Seq<char>,
    entries: Seq<Seq<char>>,
) -> Result<ConfigView, Seq<char>> {
    match index_of(group_names(c), key) {
        Some(i) => Ok(ConfigView { urls: c.urls, groups: c.groups.update(i, (key, entries)) }),
        None => Err("group not found: "@ + key),
    }
}

/// An edit of the configuration did what its specification says: on success
/// the configuration is the specified one; on failure it is unchanged and the
/// error says what the specification says.
pub open spec fn edited(
    spec_result: Result<ConfigView, Seq<char>>,
    r: Result<(), ConfigError>,
    before: ConfigView,
    after: ConfigView,
) -> bool {
    match r {
        Ok(_) => spec_result == Ok::<ConfigView, Seq<char>>(after),
        Err(e) => spec_result == Err::<ConfigView, Seq<char>>(e.message_spec()) && after == before,
    }
}

/// Puts `x` at position `i` of `v` and hands back what stood there.
fn replace_at<T>(v: &mut Vec<T>, i: usize, x: T) -> (prev: T)
    requires
        i < old(v)@.len(),
    ensures
        final(v)@ == old(v)@.update(i as int, x),
        prev == old(v)@[i as int],
{
    let ghost before = v@;
    let prev = v.remove(i);
    v.insert(i, x);
    proof {
        before.remove_ensures(i as int);
        before.remove(i as int).insert_ensures(i as int, x);
        assert forall|k: int| 0 <= k < before.len() implies v@[k] == before.update(i as int, x)[k] by {
            if k > i {
                assert(v@[k] == before.remove(i as int)[k - 1]);
            }
        }
        assert(v@ =~= before.update(i as int, x));
    }
    prev
}

impl Config {
    /// The group entries that stand for no url.
    pub fn missing_entries(&self, entries: &[String]) -> (r: Vec<String>)
        ensures
            strings_view(r@) == missing_entries(self@, strings_view(entries@)),
    {
        let ghost es = strings_view(entries@);
        let mut missing: Vec<String> = Vec::new();
        let mut i: usize = 0;
        while i < entries.len()
            invariant
                i <= entries.len(),
                es == strings_view(entries@),
                strings_view(missing@) == missing_entries(self@, es.take(i as int)),
            decreases entries.len() - i,
        {
            assert(es.take(i + 1).drop_last() == es.take(i as int));
            assert(es.take(i + 1).last() == es[i as int]);
            let found = crate::render::resolve_url(entries[i].as_str(), self);
            if found.is_none() {
                missing.push(entries[i].clone());
                assert(strings_view(missing@) == missing_entries(self@, es.take(i as int)).push(
                    es[i as int],
                ));
            }
            i = i + 1;
        }
        assert(es.take(entries.len() as int) == es);
        missing
    }

    /// Checks that every group entry is a url name or an alias.
    pub fn validate_group_entries(&self, entries: &[String]) -> (r: Result<(), ConfigError>)
        ensures
            match r {
                Ok(_) => validate_group_entries_spec(self@, strings_view(entries@)) == Ok::<
                    (),
                    Seq<char>,
                >(()),
                Err(e) => validate_group_entries_spec(self@, strings_view(entries@)) == Err::<
                    (),
                    Seq<char>,
                >(e.message_spec()),
            },
    {
        let missing = self.missing_entries(entries);
        if missing.len() == 0 {
            Ok(())
        } else {
            Err(ConfigError::EntriesMissing(missing))
        }
    }

    /// Adds a url, or gives an existing url a new address.
    pub fn upsert_url(&mut self, name: String, url: String)
        ensures
            final(self)@ == upsert_url_spec(old(self)@, name@, url@),
    {
        let ghost before = self@;
        match find_key(&self.urls, name.as_str()) {
            Some(i) => {
                assert(self.urls@.map_values(|p: (String, UrlEntry)| p.0@) == url_names(before));
                let aliases = self.urls[i].1.aliases.clone();
                let _ = replace_at(&mut self.urls, i, (name, UrlEntry { url, aliases }));
                assert(self@.urls =~= upsert_url_spec(before, name@, url@).urls);
            },
            None => {
                assert(self.urls@.map_values(|p: (String, UrlEntry)| p.0@) == url_names(before));
                let ghost old_urls = self.urls@;
                let aliases: Vec<String> = Vec::new();
                assert(strings_view(aliases@) =~= Seq::<Seq<char>>::empty());
                self.urls.push((name, UrlEntry { url, aliases }));
                proof {
                    let target = upsert_url_spec(before, name@, url@).urls;
                    assert forall|k: int| 0 <= k < target.len() implies self@.urls[k] == target[k] by {
                        if k < old_urls.len() {
                            assert(self.urls@[k] == old_urls[k]);
                        }
                    }
                    assert(self@.urls =~= target);
                }
            },
        }
    }
}

impl Config {
    /// Parses a comma-separated list of names: the pieces between commas,
    /// trimmed, leaving out empty ones.
    pub fn parse_list(raw: &str) -> (r: Vec<String>)
        ensures
            strings_view(r@) == parse_list_spec(raw@),
    {
        parse_list(raw)
    }

    /// Adds a group, or gives an existing group new entries, once every entry
    /// is a url name or an alias.
    pub fn upsert_group(&mut self, name: String, entries: Vec<String>) -> (r: Result<
        (),
        ConfigError,
    >)
        ensures
            edited(
                upsert_group_spec(old(self)@, name@, strings_view(entries@)),
                r,
                old(self)@,
                final(self)@,
            ),
    {
        let ghost before = self@;
        match self.validate_group_entries(entries.as_slice()) {
            Err(e) => {
                return Err(e);
            },
            Ok(()) => {},
        }
        let ghost es = strings_view(entries@);
        assert(self.groups@.map_values(|p: (String, Vec<String>)| p.0@) == group_names(before));
        match find_key(&self.groups, name.as_str()) {
            Some(i) => {
                let _ = replace_at(&mut self.groups, i, (name, entries));
                assert(self@.groups =~= before.groups.update(i as int, (name@, es)));
            },
            None => {
                self.groups.push((name, entries));
                assert(self@.groups =~= before.groups.push((name@, es)));
            },
        }
        assert(self@.urls == before.urls);
        Ok(())
    }

    /// Removes the url with a name.
    pub fn delete_url(&mut self, name: &str) -> (r: Result<(), ConfigError>)
        ensures
            edited(delete_url_spec(old(self)@, name@), r, old(self)@, final(self)@),
    {
        let ghost before = self@;
        assert(self.urls@.map_values(|p: (String, UrlEntry)| p.0@) == url_names(before));
        match find_key(&self.urls, name) {
            Some(i) => {
                let _ = self.urls.remove(i);
                assert(self@.urls =~= before.urls.remove(i as int));
                Ok(())
            },
            None => Err(ConfigError::UrlNotFound(String::from_str(name))),
        }
    }

    /// Removes the group with a name.
    pub fn delete_group(&mut self, name: &str) -> (r: Result<(), ConfigError>)
        ensures
            edited(delete_group_spec(old(self)@, name@), r, old(self)@, final(self)@),
    {
        let ghost before = self@;
        assert(self.groups@.map_values(|p: (String, Vec<String>)| p.0@) == group_names(before));
        match find_key(&self.groups, name) {
            Some(i) => {
                let _ = self.groups.remove(i);
                assert(self@.groups =~= before.groups.remove(i as int));
                Ok(())
            },
            None => Err(ConfigError::GroupNotFound(String::from_str(name))),
        }
    }

    /// Gives a url a new name that no url has yet.
    pub fn rename_url(&mut self, old_name: &str, new_name: &str) -> (r: Result<(), ConfigError>)
        ensures
            edited(rename_url_spec(old(self)@, old_name@, new_name@), r, old(self)@, final(self)@),
    {
        let ghost before = self@;
        assert(self.urls@.map_values(|p: (String, UrlEntry)| p.0@) == url_names(before));
        match find_key(&self.urls, old_name) {
            None => Err(ConfigError::UrlNotFound(String::from_str(old_name))),
            Some(i) => {
                if find_key(&self.urls, new_name).is_some() {
                    return Err(ConfigError::UrlExists(String::from_str(new_name)));
                }
                let url = self.urls[i].1.url.clone();
                let aliases = self.urls[i].1.aliases.clone();
                let _ = replace_at(
                    &mut self.urls,
                    i,
                    (String::from_str(new_name), UrlEntry { url, aliases }),
                );
                assert(self@.urls =~= before.urls.update(
                    i as int,
                    (new_name@, before.urls[i as int].1),
                ));
                Ok(())
            },
        }
    }

    /// Gives a url a new address.
    pub fn set_url_value(&mut self, key: &str, url: String) -> (r: Result<(), ConfigError>)
        ensures
            edited(set_url_value_spec(old(self)@, key@, url@), r, old(self)@, final(self)@),
    {
        let ghost before = self@;
        assert(self.urls@.map_values(|p: (String, UrlEntry)| p.0@) == url_names(before));
        match find_key(&self.urls, key) {
            None => Err(ConfigError::UrlNotFound(String::from_str(key))),
            Some(i) => {
                let aliases = self.urls[i].1.aliases.clone();
                let _ = replace_at(
                    &mut self.urls,
                    i,
                    (String::from_str(key), UrlEntry { url, aliases }),
                );
                assert(self@.urls =~= set_url_value_spec(before, key@, url@)->Ok_0.urls);
                Ok(())
            },
        }
    }

    /// Gives a url new aliases.
    pub fn set_url_aliases(&mut self, key: &str, aliases: Vec<String>) -> (r: Result<
        (),
        ConfigError,
    >)
        ensures
            edited(
                set_url_aliases_spec(old(self)@, key@, strings_view(aliases@)),
                r,
                old(self)@,
                final(self)@,
            ),
    {
        let ghost before = self@;
        let ghost al = strings_view(aliases@);
        assert(self.urls@.map_values(|p: (String, UrlEntry)| p.0@) == url_names(before));
        match find_key(&self.urls, key) {
            None => Err(ConfigError::UrlNotFound(String::from_str(key))),
            Some(i) => {
                let url = self.urls[i].1.url.clone();
                let _ = replace_at(
                    &mut self.urls,
                    i,
                    (String::from_str(key), UrlEntry { url, aliases }),
                );
                assert(self@.urls =~= set_url_aliases_spec(before, key@, al)->Ok_0.urls);
                Ok(())
            },
        }
    }

    /// Gives a group a new name that no group has yet.
    pub fn rename_group(&mut self, old_name: &str, new_name: &str) -> (r: Result<
        (),
        ConfigError,
    >)
        ensures
            edited(rename_group_spec(old(self)@, old_name@, new_name@), r, old(self)@, final(self)@),
    {
        let ghost before = self@;
        assert(self.groups@.map_values(|p: (String, Vec<String>)| p.0@) == group_names(before));
        match find_key(&self.groups, old_name) {
            None => Err(ConfigError::GroupNotFound(String::from_str(old_name))),
            Some(i) => {
                if find_key(&self.groups, new_name).is_some() {
                    return Err(ConfigError::GroupExists(String::from_str(new_name)));
                }
                let entries = self.groups[i].1.clone();
                let _ = replace_at(&mut self.groups, i, (String::from_str(new_name), entries));
                assert(self@.groups =~= before.groups.update(
                    i as int,
                    (new_name@, before.groups[i as int].1),
                ));
                Ok(())
            },
        }
    }

    /// Gives a group new entries.
    pub fn set_group_entries(&mut self, key: &str, entries: Vec<String>) -> (r: Result<
        (),
        ConfigError,
    >)
        ensures
            edited(
                set_group_entries_spec(old(self)@, key@, strings_view(entries@)),
                r,
                old(self)@,
                final(self)@,
            ),
    {
        let ghost before = self@;
        let ghost es = strings_view(entries@);
        assert(self.groups@.map_values(|p: (String, Vec<String>)| p.0@) == group_names(before));
        match find_key(&self.groups, key) {
            None => Err(ConfigError::GroupNotFound(String::from_str(key))),
            Some(i) => {
                let _ = replace_at(&mut self.groups, i, (String::from_str(key), entries));
                assert(self@.groups =~= before.groups.update(i as int, (key@, es)));
                Ok(())
            },
        }
    }
}

/// No two items of a list of keys are equal.
pub open spec fn distinct_keys(keys: Seq<Seq<char>>) -> bool {
    forall|i: int, j: int| 0 <= i < j < keys.len() ==> keys[i] != keys[j]
}

/// A well-formed configuration: no two urls share a name, and no two groups.
pub open spec fn config_wf(c: ConfigView) -> bool {
    &&& distinct_keys(url_names(c))
    &&& distinct_keys(group_names(c))
}

proof fn lemma_url_names_update(c: ConfigView, i: int, name: Seq<char>, e: UrlEntryView)
    requires
        0 <= i < c.urls.len(),
    ensures
        url_names(ConfigView { urls: c.urls.update(i, (name, e)), groups: c.groups })
            =~= url_names(c).update(i, name),
{
}

proof fn lemma_group_names_update(
    c: ConfigView,
    i: int,
    name: Seq<char>,
    entries: Seq<Seq<char>>,
)
    requires
        0 <= i < c.groups.len(),
    ensures
        group_names(ConfigView { urls: c.urls, groups: c.groups.update(i, (name, entries)) })
            =~= group_names(c).update(i, name),
{
}

/// A url that was just added or updated is what its name stands for.
pub proof fn law_upsert_url_then_resolve(c: ConfigView, name: Seq<char>, url: Seq<char>)
    ensures
        resolve_spec(upsert_url_spec(c, name, url), name) == Some(url),
{
    let d = upsert_url_spec(c, name, url);
    let names = url_names(c);
    match index_of(names, name) {
        Some(i) => {
            lemma_index_of_some(names, name);
            lemma_url_names_update(c, i, name, UrlEntryView { url, aliases: c.urls[i].1.aliases });
            assert(url_names(d) == names.update(i, name));
            assert(names.update(i, name) =~= names);
            lemma_first_index_unique(url_names(d), name, i);
        },
        None => {
            lemma_index_of_none(names, name);
            assert(url_names(d) =~= names.push(name));
            assert(is_first_index(url_names(d), name, names.len() as int));
            lemma_first_index_unique(url_names(d), name, names.len() as int);
        },
    }
}

/// After a url is deleted from a well-formed configuration, no url has its name.
pub proof fn law_delete_url_removes_name(c: ConfigView, name: Seq<char>)
    requires
        config_wf(c),
        delete_url_spec(c, name) is Ok,
    ensures
        index_of(url_names(delete_url_spec(c, name)->Ok_0), name) is None,
{
    let names = url_names(c);
    let i = index_of(names, name)->0;
    lemma_index_of_some(names, name);
    let d = delete_url_spec(c, name)->Ok_0;
    assert(url_names(d) =~= names.remove(i));
    assert forall|j: int| 0 <= j < url_names(d).len() implies url_names(d)[j] != name by {
        if j < i {
            assert(url_names(d)[j] == names[j]);
        } else {
            assert(url_names(d)[j] == names[j + 1]);
            assert(names[i] != names[j + 1]);
        }
    }
    lemma_index_of_none(url_names(d), name);
}

/// Renaming a url moves it: the new name stands for the url that the old name
/// stood for, and in a well-formed configuration the old name is gone.
pub proof fn law_rename_url_moves(c: ConfigView, old: Seq<char>, new: Seq<char>)
    requires
        rename_url_spec(c, old, new) is Ok,
    ensures
        resolve_spec(rename_url_spec(c, old, new)->Ok_0, new) == resolve_spec(c, old),
        config_wf(c) ==> index_of(url_names(rename_url_spec(c, old, new)->Ok_0), old) is None,
{
    let names = url_names(c);
    let i = index_of(names, old)->0;
    lemma_index_of_some(names, old);
    lemma_index_of_none(names, new);
    let d = rename_url_spec(c, old, new)->Ok_0;
    lemma_url_names_update(c, i, new, c.urls[i].1);
    let dn = url_names(d);
    assert(dn == names.update(i, new));
    assert(is_first_index(dn, new, i));
    lemma_first_index_unique(dn, new, i);
    if config_wf(c) {
        assert forall|j: int| 0 <= j < dn.len() implies dn[j] != old by {
            if j != i {
                assert(dn[j] == names[j]);
                if j < i {
                    assert(names[j] != names[i]);
                } else {
                    assert(names[i] != names[j]);
                }
            } else {
                assert(names[i] == old);
                assert(dn[i] == new);
                assert(names[i] != new);
            }
        }
        lemma_index_of_none(dn, old);
    }
}

/// Renaming a group moves it: the group under the new name holds exactly the
/// entries that the old name's group held, and in a well-formed configuration
/// the old name is gone.
pub proof fn law_rename_group_moves(c: ConfigView, old: Seq<char>, new: Seq<char>)
    requires
        rename_group_spec(c, old, new) is Ok,
    ensures
        index_of(group_names(c), old) is Some,
        index_of(group_names(rename_group_spec(c, old, new)->Ok_0), new) is Some,
        rename_group_spec(c, old, new)->Ok_0.groups[index_of(
            group_names(rename_group_spec(c, old, new)->Ok_0),
            new,
        )->0].1 == c.groups[index_of(group_names(c), old)->0].1,
        rename_group_spec(c, old, new)->Ok_0.urls == c.urls,
        config_wf(c) ==> index_of(group_names(rename_group_spec(c, old, new)->Ok_0), old) is None,
{
    let names = group_names(c);
    let i = index_of(names, old)->0;
    lemma_index_of_some(names, old);
    lemma_index_of_none(names, new);
    let d = rename_group_spec(c, old, new)->Ok_0;
    lemma_group_names_update(c, i, new, c.groups[i].1);
    let dn = group_names(d);
    assert(dn == names.update(i, new));
    assert(is_first_index(dn, new, i));
    lemma_first_index_unique(dn, new, i);
    if config_wf(c) {
        assert forall|j: int| 0 <= j < dn.len() implies dn[j] != old by {
            if j != i {
                assert(dn[j] == names[j]);
                if j < i {
                    assert(names[j] != names[i]);
                } else {
                    assert(names[i] != names[j]);
                }
            } else {
                assert(names[i] == old);
                assert(dn[i] == new);
                assert(names[i] != new);
            }
        }
        lemma_index_of_none(dn, old);
    }
}

/// A group that was just added or updated holds the given entries.
pub proof fn law_upsert_group_holds_entries(
    c: ConfigView,
    name: Seq<char>,
    entries: Seq<Seq<char>>,
)
    requires
        upsert_group_spec(c, name, entries) is Ok,
    ensures
        ({
            let d = upsert_group_spec(c, name, entries)->Ok_0;
            index_of(group_names(d), name) matches Some(i) && d.groups[i].1 == entries
        }),
{
    let d = upsert_group_spec(c, name, entries)->Ok_0;
    let names = group_names(c);
    match index_of(names, name) {
        Some(i) => {
            lemma_index_of_some(names, name);
            lemma_group_names_update(c, i, name, entries);
            assert(group_names(d) =~= names);
            lemma_first_index_unique(group_names(d), name, i);
        },
        None => {
            lemma_index_of_none(names, name);
            assert(group_names(d) =~= names.push(name));
            assert(is_first_index(group_names(d), name, names.len() as int));
            lemma_first_index_unique(group_names(d), name, names.len() as int);
        },
    }
}

proof fn lemma_update_keeps_distinct(keys: Seq<Seq<char>>, i: int, k: Seq<char>)
    requires
        distinct_keys(keys),
        0 <= i < keys.len(),
        keys[i] == k || forall|j: int| 0 <= j < keys.len() ==> keys[j] != k,
    ensures
        distinct_keys(keys.update(i, k)),
{
    let u = keys.update(i, k);
    assert forall|a: int, b: int| 0 <= a < b < u.len() implies u[a] != u[b] by {
        if a != i && b != i {
        } else if a == i {
            assert(u[b] == keys[b]);
        } else {
            assert(u[a] == keys[a]);
        }
    }
}

proof fn lemma_push_keeps_distinct(keys: Seq<Seq<char>>, k: Seq<char>)
    requires
        distinct_keys(keys),
        forall|j: int| 0 <= j < keys.len() ==> keys[j] != k,
    ensures
        distinct_keys(keys.push(k)),
{
    let u = keys.push(k);
    assert forall|a: int, b: int| 0 <= a < b < u.len() implies u[a] != u[b] by {
        if b == keys.len() {
            assert(u[a] == keys[a]);
        }
    }
}

proof fn lemma_remove_keeps_distinct(keys: Seq<Seq<char>>, i: int)
    requires
        distinct_keys(keys),
        0 <= i < keys.len(),
    ensures
        distinct_keys(keys.remove(i)),
{
    let u = keys.remove(i);
    assert forall|a: int, b: int| 0 <= a < b < u.len() implies u[a] != u[b] by {
        let a1 = if a < i { a } else { a + 1 };
        let b1 = if b < i { b } else { b + 1 };
        assert(u[a] == keys[a1]);
        assert(u[b] == keys[b1]);
    }
}

/// Every edit of the configuration keeps it well formed.
pub proof fn law_edits_keep_config_wf(
    c: ConfigView,
    name: Seq<char>,
    other: Seq<char>,
    url: Seq<char>,
    list: Seq<Seq<char>>,
)
    requires
        config_wf(c),
    ensures
        config_wf(upsert_url_spec(c, name, url)),
        upsert_group_spec(c, name, list) matches Ok(d) ==> config_wf(d),
        delete_url_spec(c, name) matches Ok(d) ==> config_wf(d),
        delete_group_spec(c, name) matches Ok(d) ==> config_wf(d),
        rename_url_spec(c, name, other) matches Ok(d) ==> config_wf(d),
        rename_group_spec(c, name, other) matches Ok(d) ==> config_wf(d),
        set_url_value_spec(c, name, url) matches Ok(d) ==> config_wf(d),
        set_url_aliases_spec(c, name, list) matches Ok(d) ==> config_wf(d),
        set_group_entries_spec(c, name, list) matches Ok(d) ==> config_wf(d),
{
    let un = url_names(c);
    let gn = group_names(c);
    lemma_index_of_none(un, name);
    lemma_index_of_none(gn, name);
    lemma_index_of_none(un, other);
    lemma_index_of_none(gn, other);
    match index_of(un, name) {
        Some(i) => {
            lemma_index_of_some(un, name);
            lemma_url_names_update(c, i, name, UrlEntryView { url, aliases: c.urls[i].1.aliases });
            lemma_update_keeps_distinct(un, i, name);
            lemma_url_names_update(c, i, name, UrlEntryView { url: c.urls[i].1.url, aliases: list });
            let d = delete_url_spec(c, name)->Ok_0;
            assert(url_names(d) =~= un.remove(i));
            lemma_remove_keeps_distinct(un, i);
            if index_of(un, other) is None {
                lemma_url_names_update(c, i, other, c.urls[i].1);
                lemma_update_keeps_distinct(un, i, other);
            }
        },
        None => {
            assert(url_names(upsert_url_spec(c, name, url)) =~= un.push(name));
            lemma_push_keeps_distinct(un, name);
        },
    }
    match index_of(gn, name) {
        Some(i) => {
            lemma_index_of_some(gn, name);
            lemma_group_names_update(c, i, name, list);
            lemma_update_keeps_distinct(gn, i, name);
            let d = delete_group_spec(c, name)->Ok_0;
            assert(group_names(d) =~= gn.remove(i));
            lemma_remove_keeps_distinct(gn, i);
            if index_of(gn, other) is None {
                lemma_group_names_update(c, i, other, c.groups[i].1);
                lemma_update_keeps_distinct(gn, i, other);
            }
        },
        None => {
            if upsert_group_spec(c, name, list) is Ok {
                let d = upsert_group_spec(c, name, list)->Ok_0;
                assert(group_names(d) =~= gn.push(name));
                lemma_push_keeps_distinct(gn, name);
            }
        },
    }
}

proof fn lemma_no_missing_entries(c: ConfigView, entries: Seq<Seq<char>>)
    requires
        missing_entries(c, entries).len() == 0,
    ensures
        forall|k: int| 0 <= k < entries.len() ==> resolve_spec(c, #[trigger] entries[k]) is Some,
    decreases entries.len(),
{
    if entries.len() > 0 {
        let prev = missing_entries(c, entries.drop_last());
        assert(resolve_spec(c, entries.last()) is Some);
        lemma_no_missing_entries(c, entries.drop_last());
        assert forall|k: int| 0 <= k < entries.len() implies resolve_spec(c, #[trigger] entries[k]) is Some by {
            if k < entries.len() - 1 {
                assert(entries[k] == entries.drop_last()[k]);
            }
        }
    }
}

/// A group can only be stored when each of its entries is a url name or an
/// alias at that moment.
pub proof fn law_stored_group_entries_resolve(c: ConfigView, name: Seq<char>, entries: Seq<Seq<char>>)
    requires
        upsert_group_spec(c, name, entries) is Ok,
    ensures
        forall|k: int| 0 <= k < entries.len() ==> resolve_spec(c, #[trigger] entries[k]) is Some,
{
    lemma_no_missing_entries(c, entries);
}

} // verus!
