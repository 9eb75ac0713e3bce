//! What the webapp serves: the content for a request, the whole page, and the
//! content after a configuration could not be loaded.

use vstd::prelude::*;

use crate::config::{
    delete_group_spec, delete_url_spec, empty_config, rename_group_spec, rename_url_spec,
    set_group_entries_spec, set_url_aliases_spec, set_url_value_spec, upsert_group_spec,
    upsert_url_spec, validate_group_entries_spec, Config, ConfigView, config_wf,
    law_edits_keep_config_wf, index_of, lemma_index_of_some, url_names,
};
use crate::text::{
    contains_text, is_list_item, join_spec, law_parse_list_of_join, parse_list_spec, strings_view,
    text_contains,
};
use crate::html::{page, page_spec};
use crate::order::{is_sorted_order, str_eq};
use crate::render::{content_spec, is_content, opt_view, render_content, SortField};

verus! {

/// The query of a content request.
#[derive(Clone, Debug, Default)]
pub struct ContentQuery {
    pub sort: Option<String>,
}

/// The sort order that a content query asks for: by url when it says `url`,
/// by name otherwise.
pub open spec fn parse_sort_spec(sort: Option<Seq<char>>) -> SortField {
    match sort {
        Some(s) => if s == "url"@ {
            SortField::Url
        } else {
            SortField::Name
        },
        None => SortField::Name,
    }
}

/// The sort order that a content query asks for.
pub fn parse_sort(q: &ContentQuery) -> (r: SortField)
    ensures
        r == parse_sort_spec(opt_string_view(q.sort)),
{
    match &q.sort {
        Some(s) => if str_eq(s.as_str(), "url") {
            SortField::Url
        } else {
            SortField::Name
        },
        None => SortField::Name,
    }
}

/// The message shown when the configuration could not be loaded, after the
/// message of the error that was to be shown, if any.
pub open spec fn load_failure_message(error: Option<Seq<char>>, load_err: Seq<char>) -> Seq<char> {
    match error {
        Some(e) => e + "; failed to load config: "@ + load_err,
        None => "failed to load config: "@ + load_err,
    }
}

/// `r` is the content for the outcome of loading the configuration.
pub open spec fn is_state_content(
    r: Seq<char>,
    loaded: Result<Config, String>,
    sort: SortField,
    error: Option<Seq<char>>,
) -> bool {
    match loaded {
        Ok(c) => is_content(r, c@, sort, error),
        Err(e) => r == content_spec(
            empty_config(),
            Seq::empty(),
            Seq::empty(),
            sort,
            Some(load_failure_message(error, e@)),
        ),
    }
}

/// The content for the outcome of loading the configuration: the content of
/// the configuration, or, when it could not be loaded, the content of an empty
/// configuration with the load error in its banner.
pub fn render_state_content(
    loaded: &Result<Config, String>,
    sort: SortField,
    error: Option<&str>,
) -> (r: String)
    ensures
        is_state_content(r@, *loaded, sort, opt_view(error)),
{
    match loaded {
        Ok(config) => render_content(config, sort, error),
        Err(load_err) => {
            let mut message = String::new();
            match error {
                Some(e) => {
                    message.append(e);
                    message.append("; failed to load config: ");
                },
                None => {
                    message.append("failed to load config: ");
                },
            }
            message.append(load_err.as_str());
            let empty = Config::new();
            let r = render_content(&empty, sort, Some(message.as_str()));
            proof {
                let m = Some(load_failure_message(opt_view(error), load_err@));
                let (uo, go) = choose|uo: Seq<usize>, go: Seq<usize>|
                    #![trigger content_spec(empty@, uo, go, sort, m)]
                    is_sorted_order(uo, crate::render::url_sort_keys(empty@, sort))
                        && crate::order::is_stable_order(uo, crate::render::url_sort_keys(empty@, sort))
                        && is_sorted_order(go, crate::config::group_names(empty@))
                        && crate::order::is_stable_order(go, crate::config::group_names(empty@)) && r@
                        == content_spec(empty@, uo, go, sort, m);
                assert(uo =~= Seq::<usize>::empty());
                assert(go =~= Seq::<usize>::empty());
            }
            r
        },
    }
}

/// The content of the configuration, ordered by name.
pub fn content_ok(loaded: &Result<Config, String>) -> (r: String)
    ensures
        is_state_content(r@, *loaded, SortField::Name, None),
{
    render_state_content(loaded, SortField::Name, None)
}

/// The content of the configuration, ordered by name, with an error banner.
pub fn content_err(loaded: &Result<Config, String>, msg: &str) -> (r: String)
    ensures
        is_state_content(r@, *loaded, SortField::Name, Some(msg@)),
{
    render_state_content(loaded, SortField::Name, Some(msg))
}

/// The whole page for the outcome of loading the configuration.
pub fn index_page(loaded: &Result<Config, String>, q: &ContentQuery) -> (r: String)
    ensures
        exists|body: Seq<char>|
            #![trigger page_spec(body)]
            r@ == page_spec(body) && is_state_content(
                body,
                *loaded,
                parse_sort_spec(opt_string_view(q.sort)),
                None,
            ),
{
    let body = render_state_content(loaded, parse_sort(q), None);
    let r = page(body.as_str());
    assert(r@ == page_spec(body@));
    r
}

/// The view of an optional owned text.
pub open spec fn opt_string_view(o: Option<String>) -> Option<Seq<char>> {
    match o {
        Some(s) => Some(s@),
        None => None,
    }
}

/// A change to the configuration that a request asks for.
#[derive(Clone, Debug)]
pub enum Edit {
    AddUrl { name: String, url: String },
    AddGroup { name: String, entries: Vec<String> },
    DeleteUrl { name: String },
    DeleteGroup { name: String },
    EditUrl {
        name: String,
        new_name: Option<String>,
        new_url: Option<String>,
        new_aliases: Option<String>,
    },
    EditGroup { name: String, new_name: Option<String>, new_entries: Option<String> },
}

/// Editing a url: renaming it when a different name is given, then setting
/// its address, then its aliases, each when given; the first failure stops.
pub open spec fn edit_url_spec(
    c: ConfigView,
    name: Seq<char>,
    new_name: Option<Seq<char>>,
    new_url: Option<Seq<char>>,
    new_aliases: Option<Seq<char>>,
) -> Result<ConfigView, Seq<char>> {
    let renamed: Result<(ConfigView, Seq<char>), Seq<char>> = match new_name {
        Some(n) => if n != name {
            match rename_url_spec(c, name, n) {
                Ok(c1) => Ok((c1, n)),
                Err(m) => Err(m),
            }
        } else {
            Ok((c, name))
        },
        None => Ok((c, name)),
    };
    match renamed {
        Err(m) => Err(m),
        Ok((c1, key)) => {
            let with_url = match new_url {
                Some(u) => set_url_value_spec(c1, key, u),
                None => Ok(c1),
            };
            match with_url {
                Err(m) => Err(m),
                Ok(c2) => match new_aliases {
                    Some(a) => set_url_aliases_spec(c2, key, parse_list_spec(a)),
                    None => Ok(c2),
                },
            }
        },
    }
}

/// Editing a group: checking the new entries, when given, against the
/// configuration as it is; then renaming the group when a different name is
/// given; then setting its entries; the first failure stops.
pub open spec fn edit_group_spec(
    c: ConfigView,
    name: Seq<char>,
    new_name: Option<Seq<char>>,
    new_entries: Option<Seq<char>>,
) -> Result<ConfigView, Seq<char>> {
    let checked: Result<(), Seq<char>> = match new_entries {
        Some(raw) => validate_group_entries_spec(c, parse_list_spec(raw)),
        None => Ok(()),
    };
    match checked {
        Err(m) => Err(m),
        Ok(_) => {
            let renamed: Result<(ConfigView, Seq<char>), Seq<char>> = match new_name {
                Some(n) => if n != name {
                    match rename_group_spec(c, name, n) {
                        Ok(c1) => Ok((c1, n)),
                        Err(m) => Err(m),
                    }
                } else {
                    Ok((c, name))
                },
                None => Ok((c, name)),
            };
            match renamed {
                Err(m) => Err(m),
                Ok((c1, key)) => match new_entries {
                    Some(raw) => set_group_entries_spec(c1, key, parse_list_spec(raw)),
                    None => Ok(c1),
                },
            }
        },
    }
}

/// What an edit does to the configuration, or the message of its failure.
pub open spec fn apply_edit_spec(c: ConfigView, e: Edit) -> Result<ConfigView, Seq<char>> {
    match e {
        Edit::AddUrl { name, url } => Ok(upsert_url_spec(c, name@, url@)),
        Edit::AddGroup { name, entries } => upsert_group_spec(c, name@, strings_view(entries@)),
        Edit::DeleteUrl { name } => delete_url_spec(c, name@),
        Edit::DeleteGroup { name } => delete_group_spec(c, name@),
        Edit::EditUrl { name, new_name, new_url, new_aliases } => edit_url_spec(
            c,
            name@,
            opt_string_view(new_name),
            opt_string_view(new_url),
            opt_string_view(new_aliases),
        ),
        Edit::EditGroup { name, new_name, new_entries } => edit_group_spec(
            c,
            name@,
            opt_string_view(new_name),
            opt_string_view(new_entries),
        ),
    }
}

/// `r` is the outcome that `spec_result` describes, with the error as text.
pub open spec fn outcome_matches(
    spec_result: Result<ConfigView, Seq<char>>,
    r: Result<Config, String>,
) -> bool {
    match r {
        Ok(c) => spec_result == Ok::<ConfigView, Seq<char>>(c@),
        Err(m) => spec_result == Err::<ConfigView, Seq<char>>(m@),
    }
}

fn edit_url(
    config: Config,
    name: String,
    new_name: Option<String>,
    new_url: Option<String>,
    new_aliases: Option<String>,
) -> (r: Result<Config, String>)
    ensures
        outcome_matches(
            edit_url_spec(
                config@,
                name@,
                opt_string_view(new_name),
                opt_string_view(new_url),
                opt_string_view(new_aliases),
            ),
            r,
        ),
{
    let mut config = config;
    let key = match new_name {
        Some(n) => {
            if !str_eq(n.as_str(), name.as_str()) {
                match config.rename_url(name.as_str(), n.as_str()) {
                    Ok(()) => {},
                    Err(e) => {
                        return Err(e.message());
                    },
                }
                n
            } else {
                name
            }
        },
        None => name,
    };
    match new_url {
        Some(u) => match config.set_url_value(key.as_str(), u) {
            Ok(()) => {},
            Err(e) => {
                return Err(e.message());
            },
        },
        None => {},
    }
    match new_aliases {
        Some(a) => {
            let aliases = Config::parse_list(a.as_str());
            match config.set_url_aliases(key.as_str(), aliases) {
                Ok(()) => {},
                Err(e) => {
                    return Err(e.message());
                },
            }
        },
        None => {},
    }
    Ok(config)
}

fn edit_group(
    config: Config,
    name: String,
    new_name: Option<String>,
    new_entries: Option<String>,
) -> (r: Result<Config, String>)
    ensures
        outcome_matches(
            edit_group_spec(config@, name@, opt_string_view(new_name), opt_string_view(new_entries)),
            r,
        ),
{
    let mut config = config;
    let parsed: Option<Vec<String>> = match &new_entries {
        Some(raw) => {
            let entries = Config::parse_list(raw.as_str());
            match config.validate_group_entries(entries.as_slice()) {
                Ok(()) => {},
                Err(e) => {
                    return Err(e.message());
                },
            }
            Some(entries)
        },
        None => None,
    };
    let key = match new_name {
        Some(n) => {
            if !str_eq(n.as_str(), name.as_str()) {
                match config.rename_group(name.as_str(), n.as_str()) {
                    Ok(()) => {},
                    Err(e) => {
                        return Err(e.message());
                    },
                }
                n
            } else {
                name
            }
        },
        None => name,
    };
    match parsed {
        Some(entries) => match config.set_group_entries(key.as_str(), entries) {
            Ok(()) => {},
            Err(e) => {
                return Err(e.message());
            },
        },
        None => {},
    }
    Ok(config)
}

/// Applies an edit to a configuration.
pub fn apply_edit(config: Config, edit: Edit) -> (r: Result<Config, String>)
    ensures
        outcome_matches(apply_edit_spec(config@, edit), r),
{
    let mut config = config;
    match edit {
        Edit::AddUrl { name, url } => {
            config.upsert_url(name, url);
            Ok(config)
        },
        Edit::AddGroup { name, entries } => match config.upsert_group(name, entries) {
            Ok(()) => Ok(config),
            Err(e) => Err(e.message()),
        },
        Edit::DeleteUrl { name } => match config.delete_url(name.as_str()) {
            Ok(()) => Ok(config),
            Err(e) => Err(e.message()),
        },
        Edit::DeleteGroup { name } => match config.delete_group(name.as_str()) {
            Ok(()) => Ok(config),
            Err(e) => Err(e.message()),
        },
        Edit::EditUrl { name, new_name, new_url, new_aliases } => edit_url(
            config,
            name,
            new_name,
            new_url,
            new_aliases,
        ),
        Edit::EditGroup { name, new_name, new_entries } => edit_group(
            config,
            name,
            new_name,
            new_entries,
        ),
    }
}

/// The text of a form field, empty when it is absent.
pub open spec fn field_text(o: Option<String>) -> Seq<char> {
    match o {
        Some(s) => s@,
        None => Seq::empty(),
    }
}

/// A form field that is present and not empty.
pub open spec fn non_empty_field(o: Option<String>) -> Option<Seq<char>> {
    match o {
        Some(s) => if s@.len() > 0 {
            Some(s@)
        } else {
            None
        },
        None => None,
    }
}

fn field_or_empty(o: Option<String>) -> (r: String)
    ensures
        r@ == field_text(o),
{
    match o {
        Some(s) => s,
        None => String::new(),
    }
}

fn keep_non_empty(o: Option<String>) -> (r: Option<String>)
    ensures
        opt_string_view(r) == non_empty_field(o),
{
    match o {
        Some(s) => if s.as_str().is_empty() {
            None
        } else {
            Some(s)
        },
        None => None,
    }
}

/// The edit that the form for adding a url asks for: none unless both the
/// name and the url are given.
pub fn add_url_request(name: Option<String>, url: Option<String>) -> (r: Option<Edit>)
    ensures
        match r {
            Some(e) => field_text(name).len() > 0 && field_text(url).len() > 0 && (e matches Edit::AddUrl {
                name: n,
                url: u,
            } && n@ == field_text(name) && u@ == field_text(url)),
            None => field_text(name).len() == 0 || field_text(url).len() == 0,
        },
{
    let name = field_or_empty(name);
    let url = field_or_empty(url);
    if !name.as_str().is_empty() && !url.as_str().is_empty() {
        Some(Edit::AddUrl { name, url })
    } else {
        None
    }
}

/// The edit that the form for adding a group asks for: none unless the name
/// is given and the entries name at least one item.
pub fn add_group_request(name: Option<String>, entries: Option<String>) -> (r: Option<Edit>)
    ensures
        match r {
            Some(e) => field_text(name).len() > 0 && parse_list_spec(field_text(entries)).len() > 0
                && (e matches Edit::AddGroup { name: n, entries: es } && n@ == field_text(name)
                && strings_view(es@) == parse_list_spec(field_text(entries))),
            None => field_text(name).len() == 0 || parse_list_spec(field_text(entries)).len() == 0,
        },
{
    let name = field_or_empty(name);
    let raw = field_or_empty(entries);
    if !name.as_str().is_empty() && !raw.as_str().is_empty() {
        let parsed = Config::parse_list(raw.as_str());
        if parsed.len() > 0 {
            return Some(Edit::AddGroup { name, entries: parsed });
        }
    } else if raw.as_str().is_empty() {
        assert(raw@ =~= Seq::<char>::empty());
        assert(parse_list_spec(raw@) =~= Seq::<Seq<char>>::empty()) by {
            reveal_with_fuel(crate::text::kept_items, 2);
            crate::text::lemma_trim_empty();
        }
    }
    None
}

/// The edit that the form for editing a url asks for: empty new names and
/// urls are ignored; new aliases are taken as given.
pub fn edit_url_request(
    name: String,
    new_name: Option<String>,
    new_url: Option<String>,
    new_aliases: Option<String>,
) -> (r: Edit)
    ensures
        r matches Edit::EditUrl { name: n, new_name: nn, new_url: nu, new_aliases: na } && n@
            == name@ && opt_string_view(nn) == non_empty_field(new_name) && opt_string_view(nu)
            == non_empty_field(new_url) && opt_string_view(na) == opt_string_view(new_aliases),
{
    Edit::EditUrl {
        name,
        new_name: keep_non_empty(new_name),
        new_url: keep_non_empty(new_url),
        new_aliases,
    }
}

/// The edit that the form for editing a group asks for: empty new names and
/// entries are ignored.
pub fn edit_group_request(name: String, new_name: Option<String>, new_entries: Option<String>) -> (r:
    Edit)
    ensures
        r matches Edit::EditGroup { name: n, new_name: nn, new_entries: ne } && n@ == name@
            && opt_string_view(nn) == non_empty_field(new_name) && opt_string_view(ne)
            == non_empty_field(new_entries),
{
    Edit::EditGroup {
        name,
        new_name: keep_non_empty(new_name),
        new_entries: keep_non_empty(new_entries),
    }
}

/// The configuration to save after an edit, or the message to show. When the
/// configuration could not be loaded the load error is passed on and nothing
/// is to be saved.
pub fn modify_step(loaded: Result<Config, String>, edit: Edit) -> (r: Result<Config, String>)
    ensures
        match loaded {
            Err(e) => r == Err::<Config, String>(e),
            Ok(c) => outcome_matches(apply_edit_spec(c@, edit), r),
        },
{
    match loaded {
        Err(e) => Err(e),
        Ok(config) => apply_edit(config, edit),
    }
}

/// The content sent back after an edit: the content of the configuration as
/// loaded again, with the edit's error in the banner when it failed.
pub fn modify_response(outcome: &Result<(), String>, reloaded: &Result<Config, String>) -> (r:
    String)
    ensures
        match outcome {
            Ok(_) => is_state_content(r@, *reloaded, SortField::Name, None),
            Err(e) => is_state_content(r@, *reloaded, SortField::Name, Some(e@)),
        },
{
    match outcome {
        Ok(()) => content_ok(reloaded),
        Err(e) => content_err(reloaded, e.as_str()),
    }
}

/// Every edit that a request can ask for keeps a well-formed configuration
/// well formed: no two urls, and no two groups, come to share a name.
pub proof fn law_apply_edit_keeps_config_wf(c: ConfigView, e: Edit)
    requires
        config_wf(c),
    ensures
        apply_edit_spec(c, e) matches Ok(d) ==> config_wf(d),
{
    let empty = Seq::<char>::empty();
    let none = Seq::<Seq<char>>::empty();
    match e {
        Edit::AddUrl { name, url } => {
            law_edits_keep_config_wf(c, name@, empty, url@, none);
        },
        Edit::AddGroup { name, entries } => {
            law_edits_keep_config_wf(c, name@, empty, empty, strings_view(entries@));
        },
        Edit::DeleteUrl { name } => {
            law_edits_keep_config_wf(c, name@, empty, empty, none);
        },
        Edit::DeleteGroup { name } => {
            law_edits_keep_config_wf(c, name@, empty, empty, none);
        },
        Edit::EditUrl { name, new_name, new_url, new_aliases } => {
            let (c1, key) = match opt_string_view(new_name) {
                Some(n) => if n != name@ {
                    law_edits_keep_config_wf(c, name@, n, empty, none);
                    match rename_url_spec(c, name@, n) {
                        Ok(c1) => (c1, n),
                        Err(_) => (c, name@),
                    }
                } else {
                    (c, name@)
                },
                None => (c, name@),
            };
            if config_wf(c1) {
                let u = match opt_string_view(new_url) {
                    Some(u) => u,
                    None => empty,
                };
                law_edits_keep_config_wf(c1, key, empty, u, none);
                let c2 = match opt_string_view(new_url) {
                    Some(u) => match set_url_value_spec(c1, key, u) {
                        Ok(c2) => c2,
                        Err(_) => c1,
                    },
                    None => c1,
                };
                if config_wf(c2) {
                    let a = match opt_string_view(new_aliases) {
                        Some(a) => parse_list_spec(a),
                        None => none,
                    };
                    law_edits_keep_config_wf(c2, key, empty, empty, a);
                }
            }
        },
        Edit::EditGroup { name, new_name, new_entries } => {
            let (c1, key) = match opt_string_view(new_name) {
                Some(n) => if n != name@ {
                    law_edits_keep_config_wf(c, name@, n, empty, none);
                    match rename_group_spec(c, name@, n) {
                        Ok(c1) => (c1, n),
                        Err(_) => (c, name@),
                    }
                } else {
                    (c, name@)
                },
                None => (c, name@),
            };
            if config_wf(c1) {
                let es = match opt_string_view(new_entries) {
                    Some(raw) => parse_list_spec(raw),
                    None => none,
                };
                law_edits_keep_config_wf(c1, key, empty, empty, es);
            }
        },
    }
}


/// Setting aliases leaves the url under its name, with exactly those aliases
/// and its address unchanged.
proof fn lemma_set_url_aliases_holds(c: ConfigView, key: Seq<char>, aliases: Seq<Seq<char>>)
    requires
        set_url_aliases_spec(c, key, aliases) is Ok,
    ensures
        ({
            let d = set_url_aliases_spec(c, key, aliases)->Ok_0;
            &&& index_of(url_names(d), key) == index_of(url_names(c), key)
            &&& index_of(url_names(d), key) is Some
            &&& d.urls[index_of(url_names(d), key)->0].1.aliases == aliases
            &&& d.urls[index_of(url_names(d), key)->0].1.url == c.urls[index_of(
                url_names(c),
                key,
            )->0].1.url
        }),
{
    let names = url_names(c);
    lemma_index_of_some(names, key);
    let i = index_of(names, key)->0;
    let d = set_url_aliases_spec(c, key, aliases)->Ok_0;
    assert(url_names(d) =~= names);
}

/// The name under which an edited url stands after the edit.
pub open spec fn edited_url_key(name: Seq<char>, new_name: Option<Seq<char>>) -> Seq<char> {
    match new_name {
        Some(n) => n,
        None => name,
    }
}

/// A url edit that gives aliases text and succeeds leaves the edited url with
/// exactly the comma-separated list parsed from that text: the pieces between
/// commas, trimmed, with empty ones left out.
pub proof fn law_edit_url_sets_parsed_aliases(
    c: ConfigView,
    name: Seq<char>,
    new_name: Option<Seq<char>>,
    new_url: Option<Seq<char>>,
    a: Seq<char>,
)
    requires
        edit_url_spec(c, name, new_name, new_url, Some(a)) is Ok,
    ensures
        ({
            let d = edit_url_spec(c, name, new_name, new_url, Some(a))->Ok_0;
            let key = edited_url_key(name, new_name);
            &&& index_of(url_names(d), key) is Some
            &&& d.urls[index_of(url_names(d), key)->0].1.aliases == parse_list_spec(a)
        }),
{
    let renamed: Result<(ConfigView, Seq<char>), Seq<char>> = match new_name {
        Some(n) => if n != name {
            match rename_url_spec(c, name, n) {
                Ok(c1) => Ok((c1, n)),
                Err(m) => Err(m),
            }
        } else {
            Ok((c, name))
        },
        None => Ok((c, name)),
    };
    let (c1, key) = renamed->Ok_0;
    assert(key == edited_url_key(name, new_name));
    let c2 = match new_url {
        Some(u) => set_url_value_spec(c1, key, u)->Ok_0,
        None => c1,
    };
    lemma_set_url_aliases_holds(c2, key, parse_list_spec(a));
}

/// Giving a url a new address leaves it under its name with that address.
proof fn lemma_set_url_value_holds(c: ConfigView, key: Seq<char>, url: Seq<char>)
    requires
        set_url_value_spec(c, key, url) is Ok,
    ensures
        ({
            let d = set_url_value_spec(c, key, url)->Ok_0;
            &&& index_of(url_names(d), key) == index_of(url_names(c), key)
            &&& index_of(url_names(d), key) is Some
            &&& d.urls[index_of(url_names(d), key)->0].1.url == url
        }),
{
    let names = url_names(c);
    lemma_index_of_some(names, key);
    let d = set_url_value_spec(c, key, url)->Ok_0;
    assert(url_names(d) =~= names);
}

/// A url edit that gives a new address and succeeds leaves the edited url,
/// under its new name when one is given, with that address.
pub proof fn law_edit_url_sets_address(
    c: ConfigView,
    name: Seq<char>,
    new_name: Option<Seq<char>>,
    u: Seq<char>,
    new_aliases: Option<Seq<char>>,
)
    requires
        edit_url_spec(c, name, new_name, Some(u), new_aliases) is Ok,
    ensures
        ({
            let d = edit_url_spec(c, name, new_name, Some(u), new_aliases)->Ok_0;
            let key = edited_url_key(name, new_name);
            &&& index_of(url_names(d), key) is Some
            &&& d.urls[index_of(url_names(d), key)->0].1.url == u
        }),
{
    let renamed: Result<(ConfigView, Seq<char>), Seq<char>> = match new_name {
        Some(n) => if n != name {
            match rename_url_spec(c, name, n) {
                Ok(c1) => Ok((c1, n)),
                Err(m) => Err(m),
            }
        } else {
            Ok((c, name))
        },
        None => Ok((c, name)),
    };
    let (c1, key) = renamed->Ok_0;
    assert(key == edited_url_key(name, new_name));
    lemma_set_url_value_holds(c1, key, u);
    let c2 = set_url_value_spec(c1, key, u)->Ok_0;
    match new_aliases {
        Some(a) => lemma_set_url_aliases_holds(c2, key, parse_list_spec(a)),
        None => {},
    }
}

/// Aliases written as a list joined with `, ` come out as that list: each
/// item (non-empty, without commas, not starting or ending with white space)
/// becomes an alias of the edited url.
pub proof fn law_edit_url_aliases_of_joined_list(
    c: ConfigView,
    name: Seq<char>,
    new_name: Option<Seq<char>>,
    new_url: Option<Seq<char>>,
    items: Seq<Seq<char>>,
)
    requires
        forall|k: int| 0 <= k < items.len() ==> is_list_item(#[trigger] items[k]),
        edit_url_spec(c, name, new_name, new_url, Some(join_spec(items, ", "@))) is Ok,
    ensures
        ({
            let d = edit_url_spec(c, name, new_name, new_url, Some(join_spec(items, ", "@)))->Ok_0;
            let key = edited_url_key(name, new_name);
            &&& index_of(url_names(d), key) is Some
            &&& d.urls[index_of(url_names(d), key)->0].1.aliases == items
        }),
{
    law_edit_url_sets_parsed_aliases(c, name, new_name, new_url, join_spec(items, ", "@));
    law_parse_list_of_join(items);
}

/// How many health checks the wait for the webapp makes before it gives up.
pub const HEALTH_ATTEMPTS: u32 = 50;

/// What a reply of the health endpoint holds when the webapp is up.
pub const HEALTH_OK: &'static str = "\"status\":\"ok\"";

/// What the wait for the webapp does after one health check.
#[derive(Clone, Copy, Debug, PartialEq, Eq, Structural)]
pub enum HealthStep {
    /// The webapp answered that it is up.
    Ready,
    /// Pause, then check again.
    Retry,
    /// Pause, then stop waiting: the webapp did not come up.
    GiveUp,
}

/// The step after the health check numbered `attempt` (from zero), whose
/// reply was `reply`, or nothing where the check failed.
pub open spec fn health_step_spec(attempt: int, reply: Option<Seq<char>>) -> HealthStep {
    if reply matches Some(body) && contains_text(body, HEALTH_OK@) {
        HealthStep::Ready
    } else if attempt + 1 < HEALTH_ATTEMPTS {
        HealthStep::Retry
    } else {
        HealthStep::GiveUp
    }
}

/// Decides what the wait for the webapp does after one health check.
pub fn health_step(attempt: u32, reply: Option<&str>) -> (r: HealthStep)
    ensures
        r == health_step_spec(
            attempt as int,
            match reply {
                Some(b) => Some(b@),
                None => None,
            },
        ),
{
    let up = match reply {
        Some(body) => text_contains(body, HEALTH_OK),
        None => false,
    };
    if up {
        HealthStep::Ready
    } else if attempt < HEALTH_ATTEMPTS - 1 {
        HealthStep::Retry
    } else {
        HealthStep::GiveUp
    }
}

} // verus!
