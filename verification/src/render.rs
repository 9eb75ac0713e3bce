//! Rendering the bookmarks content: one table row per url and per group, the
//! toolbar, the forms and the error banner.

use vstd::prelude::*;

use crate::config::{
    upsert_group_spec, upsert_url_spec, index_of, group_names, resolve_spec, resolve_uri, url_names, Config, ConfigView, UrlEntry, UrlEntryView,
};
use crate::html::{
    copy_btn, copy_btn_spec, js_attr_spec, js_attr_string, law_js_attr_round_trip, linked_name,
    linked_name_spec, COPY_0, COPY_1,
    ALIASES_0, ALIASES_1, NO_ALIASES_0, URL_ROW_0, URL_ROW_1, URL_ROW_10, URL_ROW_11, URL_ROW_12,
    URL_ROW_13, URL_ROW_14, URL_ROW_15, URL_ROW_16, URL_ROW_2, URL_ROW_3, URL_ROW_4, URL_ROW_5,
    URL_ROW_6, URL_ROW_7, URL_ROW_8, URL_ROW_9, GROUP_OPEN_0, GROUP_OPEN_1, GROUP_OPEN_2,
    GROUP_OPEN_3, GROUP_ROW_0, GROUP_ROW_1, GROUP_ROW_10, GROUP_ROW_2, GROUP_ROW_3, GROUP_ROW_4,
    GROUP_ROW_5, GROUP_ROW_6, GROUP_ROW_7, GROUP_ROW_8, GROUP_ROW_9, BANNER_0, BANNER_1, BULK_BAR_0,
    FORMS_0, FORMS_1, FORMS_2, FORMS_3, FORMS_4, GROUPS_HEAD_0, GROUP_TABLE_0, GROUP_TABLE_1,
    NO_GROUPS_0, NO_URLS_0, TOOLBAR_0, TOOLBAR_1, TOOLBAR_2, TOOLBAR_3, URLS_HEAD_0, URL_TABLE_0,
    URL_TABLE_1, URL_TABLE_2,
};
use crate::json::json_decode_spec;
use crate::order::{
    is_sorted_order, is_stable_order, law_sorted_stable_order_unique, lemma_sorted_order_covers,
    sorted_order,
};
use crate::strings::{PH_FILTER, PH_GROUP_ENTRIES, PH_GROUP_NAME, PH_URL, PH_URL_NAME};
use crate::text::{
    contains_text, unescape_spec, decimal, decimal_spec, escape, escape_all, escape_spec, join_spec, join_strings, strings_view,
    strs_view,
};

verus! {

/// The url that a group entry or a name stands for, if any.
pub fn resolve_url<'a>(name: &str, config: &'a Config) -> (r: Option<&'a str>)
    ensures
        match r {
            Some(u) => resolve_spec(config@, name@) == Some(u@),
            None => resolve_spec(config@, name@) is None,
        },
{
    match resolve_uri(name, config) {
        Ok(u) => Some(u),
        Err(_) => None,
    }
}

/// The aliases cell of a url row.
pub open spec fn aliases_html_spec(aliases: Seq<Seq<char>>) -> Seq<char> {
    if aliases.len() == 0 {
        NO_ALIASES_0@
    } else {
        ALIASES_0@ + join_spec(aliases.map_values(|a: Seq<char>| escape_spec(a)), ", "@)
            + ALIASES_1@
    }
}

/// The table row of one url.
#[verifier::opaque]
pub open spec fn url_row_spec(name: Seq<char>, e: UrlEntryView) -> Seq<char> {
    let n = escape_spec(name);
    let nj = js_attr_spec(name);
    let u = escape_spec(e.url);
    let uj = js_attr_spec(e.url);
    URL_ROW_0@ + n + URL_ROW_1@ + u + URL_ROW_2@ + escape_spec(join_spec(e.aliases, " "@))
        + URL_ROW_3@ + n + URL_ROW_4@ + nj + URL_ROW_5@ + nj + URL_ROW_6@ + linked_name_spec(
        name,
        e.url,
    ) + URL_ROW_7@ + nj + URL_ROW_8@ + uj + URL_ROW_9@ + copy_btn_spec(e.url) + URL_ROW_10@ + u
        + URL_ROW_11@ + u + URL_ROW_12@ + nj + URL_ROW_13@ + js_attr_spec(
        join_spec(e.aliases, ", "@),
    ) + URL_ROW_14@ + aliases_html_spec(e.aliases) + URL_ROW_15@ + nj + URL_ROW_16@
}

/// The copy button in the row of a url carries a script literal that reads
/// back as that url's address, so clicking it copies the address.
pub proof fn law_url_row_copies_url(name: Seq<char>, e: UrlEntryView)
    ensures
        exists|lit: Seq<char>|
            contains_text(url_row_spec(name, e), #[trigger] (COPY_0@ + lit + COPY_1@))
                && json_decode_spec(unescape_spec(lit)) == Some(e.url),
{
    reveal(url_row_spec);
    let n = escape_spec(name);
    let nj = js_attr_spec(name);
    let u = escape_spec(e.url);
    let uj = js_attr_spec(e.url);
    let pre = URL_ROW_0@ + n + URL_ROW_1@ + u + URL_ROW_2@ + escape_spec(join_spec(e.aliases, " "@))
        + URL_ROW_3@ + n + URL_ROW_4@ + nj + URL_ROW_5@ + nj + URL_ROW_6@ + linked_name_spec(
        name,
        e.url,
    ) + URL_ROW_7@ + nj + URL_ROW_8@ + uj + URL_ROW_9@;
    let button = COPY_0@ + uj + COPY_1@;
    let post = URL_ROW_10@ + u + URL_ROW_11@ + u + URL_ROW_12@ + nj + URL_ROW_13@ + js_attr_spec(
        join_spec(e.aliases, ", "@),
    ) + URL_ROW_14@ + aliases_html_spec(e.aliases) + URL_ROW_15@ + nj + URL_ROW_16@;
    assert(copy_btn_spec(e.url) == button);
    assert(url_row_spec(name, e) =~= pre + button + post);
    law_js_attr_round_trip(e.url);
    assert(contains_text(url_row_spec(name, e), button));
}

/// The table row of one url.
pub fn url_row(name: &str, entry: &UrlEntry) -> (r: String)
    ensures
        r@ == url_row_spec(name@, entry@),
{
    let n = escape(name);
    let nj = js_attr_string(name);
    let url = entry.url();
    let u = escape(url);
    let uj = js_attr_string(url);
    let name_link = linked_name(name, url);
    let copy = copy_btn(url);
    let aliases = entry.aliases();
    let aliases_raw = join_strings(aliases.as_slice(), ", ");
    let aliases_raw_js = js_attr_string(aliases_raw.as_str());
    let aliases_html = if aliases.len() == 0 {
        String::from_str(NO_ALIASES_0)
    } else {
        let escaped = escape_all(aliases.as_slice());
        let mut h = String::from_str(ALIASES_0);
        let joined = join_strings(escaped.as_slice(), ", ");
        h.append(joined.as_str());
        h.append(ALIASES_1);
        h
    };
    let spaced = join_strings(aliases.as_slice(), " ");
    let aliases_filter = escape(spaced.as_str());
    let mut out = String::from_str(URL_ROW_0);
    out.append(n.as_str());
    out.append(URL_ROW_1);
    out.append(u.as_str());
    out.append(URL_ROW_2);
    out.append(aliases_filter.as_str());
    out.append(URL_ROW_3);
    out.append(n.as_str());
    out.append(URL_ROW_4);
    out.append(nj.as_str());
    out.append(URL_ROW_5);
    out.append(nj.as_str());
    out.append(URL_ROW_6);
    out.append(name_link.as_str());
    out.append(URL_ROW_7);
    out.append(nj.as_str());
    out.append(URL_ROW_8);
    out.append(uj.as_str());
    out.append(URL_ROW_9);
    out.append(copy.as_str());
    out.append(URL_ROW_10);
    out.append(u.as_str());
    out.append(URL_ROW_11);
    out.append(u.as_str());
    out.append(URL_ROW_12);
    out.append(nj.as_str());
    out.append(URL_ROW_13);
    out.append(aliases_raw_js.as_str());
    out.append(URL_ROW_14);
    out.append(aliases_html.as_str());
    out.append(URL_ROW_15);
    out.append(nj.as_str());
    out.append(URL_ROW_16);
    proof {
        reveal(url_row_spec);
    }
    out
}

/// The script literals of the urls that the entries of a group stand for, in
/// order, leaving out entries that stand for nothing.
pub open spec fn group_urls_js(c: ConfigView, entries: Seq<Seq<char>>) -> Seq<Seq<char>>
    decreases entries.len(),
{
    if entries.len() == 0 {
        Seq::empty()
    } else {
        let prev = group_urls_js(c, entries.drop_last());
        match resolve_spec(c, entries.last()) {
            Some(u) => prev.push(js_attr_spec(u)),
            None => prev,
        }
    }
}

/// A group entry as shown: a link to its url, or its bare name when it stands
/// for nothing.
pub open spec fn entry_link_spec(c: ConfigView, e: Seq<char>) -> Seq<char> {
    match resolve_spec(c, e) {
        Some(u) => linked_name_spec(e, u),
        None => escape_spec(e),
    }
}

/// The name cell of a group row: a link that opens all its urls, or the bare
/// name when none of its entries stands for a url.
pub open spec fn group_name_cell_spec(name: Seq<char>, urls: Seq<Seq<char>>) -> Seq<char> {
    let n = escape_spec(name);
    if urls.len() == 0 {
        n
    } else {
        GROUP_OPEN_0@ + join_spec(urls, ","@) + GROUP_OPEN_1@ + decimal_spec(urls.len())
            + GROUP_OPEN_2@ + n + GROUP_OPEN_3@
    }
}

/// The table row of one group.
#[verifier::opaque]
pub open spec fn group_row_spec(name: Seq<char>, entries: Seq<Seq<char>>, c: ConfigView) -> Seq<
    char,
> {
    let n = escape_spec(name);
    let nj = js_attr_spec(name);
    let filter = join_spec(entries.map_values(|e: Seq<char>| escape_spec(e)), ", "@);
    let links = join_spec(entries.map_values(|e: Seq<char>| entry_link_spec(c, e)), ", "@);
    GROUP_ROW_0@ + n + GROUP_ROW_1@ + filter + GROUP_ROW_2@ + n + GROUP_ROW_3@ + nj + GROUP_ROW_4@
        + nj + GROUP_ROW_5@ + group_name_cell_spec(name, group_urls_js(c, entries)) + GROUP_ROW_6@
        + nj + GROUP_ROW_7@ + js_attr_spec(join_spec(entries, ", "@)) + GROUP_ROW_8@ + links
        + GROUP_ROW_9@ + nj + GROUP_ROW_10@
}

/// The table row of one group.
pub fn group_row(name: &str, entries: &[String], config: &Config) -> (r: String)
    ensures
        r@ == group_row_spec(name@, strings_view(entries@), config@),
{
    let ghost es = strings_view(entries@);
    let ghost c = config@;
    let n = escape(name);
    let nj = js_attr_string(name);
    let mut urls: Vec<String> = Vec::new();
    let mut links: Vec<String> = Vec::new();
    let mut i: usize = 0;
    while i < entries.len()
        invariant
            i <= entries.len(),
            es == strings_view(entries@),
            c == config@,
            strings_view(urls@) == group_urls_js(c, es.take(i as int)),
            links@.len() == i,
            forall|k: int| 0 <= k < i ==> #[trigger] links@[k]@ == entry_link_spec(c, es[k]),
        decreases entries.len() - i,
    {
        let entry = entries[i].as_str();
        assert(es.take(i + 1).drop_last() == es.take(i as int));
        assert(es.take(i + 1).last() == es[i as int]);
        match resolve_url(entry, config) {
            Some(url) => {
                urls.push(js_attr_string(url));
                links.push(linked_name(entry, url));
            },
            None => {
                links.push(escape(entry));
            },
        }
        i = i + 1;
    }
    assert(es.take(entries.len() as int) == es);
    assert(strings_view(links@) == es.map_values(|e: Seq<char>| entry_link_spec(c, e)));
    let urls_arr = join_strings(urls.as_slice(), ",");
    let entries_html = join_strings(links.as_slice(), ", ");
    let escaped = escape_all(entries);
    let filter_str = join_strings(escaped.as_slice(), ", ");
    let name_cell = if urls.len() == 0 {
        escape(name)
    } else {
        let count = decimal(urls.len());
        let mut cell = String::from_str(GROUP_OPEN_0);
        cell.append(urls_arr.as_str());
        cell.append(GROUP_OPEN_1);
        cell.append(count.as_str());
        cell.append(GROUP_OPEN_2);
        cell.append(n.as_str());
        cell.append(GROUP_OPEN_3);
        cell
    };
    let raw = join_strings(entries, ", ");
    let entries_raw_js = js_attr_string(raw.as_str());
    let mut out = String::from_str(GROUP_ROW_0);
    out.append(n.as_str());
    out.append(GROUP_ROW_1);
    out.append(filter_str.as_str());
    out.append(GROUP_ROW_2);
    out.append(n.as_str());
    out.append(GROUP_ROW_3);
    out.append(nj.as_str());
    out.append(GROUP_ROW_4);
    out.append(nj.as_str());
    out.append(GROUP_ROW_5);
    out.append(name_cell.as_str());
    out.append(GROUP_ROW_6);
    out.append(nj.as_str());
    out.append(GROUP_ROW_7);
    out.append(entries_raw_js.as_str());
    out.append(GROUP_ROW_8);
    out.append(entries_html.as_str());
    out.append(GROUP_ROW_9);
    out.append(nj.as_str());
    out.append(GROUP_ROW_10);
    proof {
        reveal(group_row_spec);
    }
    out
}

/// The order of the url table.
#[derive(Debug, Clone, Copy, PartialEq, Eq, Structural)]
pub enum SortField {
    Name,
    Url,
}

/// The urls of the configuration, in order.
pub open spec fn url_values(c: ConfigView) -> Seq<Seq<char>> {
    c.urls.map_values(|p: (Seq<char>, UrlEntryView)| p.1.url)
}

/// The keys by which the url table is ordered.
pub open spec fn url_sort_keys(c: ConfigView, sort: SortField) -> Seq<Seq<char>> {
    match sort {
        SortField::Name => url_names(c),
        SortField::Url => url_values(c),
    }
}

/// The rows of the urls at the positions `order`, in that order.
pub open spec fn url_rows_spec(c: ConfigView, order: Seq<usize>) -> Seq<char>
    decreases order.len(),
{
    if order.len() == 0 {
        Seq::empty()
    } else {
        let p = c.urls[order.last() as int];
        url_rows_spec(c, order.drop_last()) + url_row_spec(p.0, p.1)
    }
}

/// The rows of the groups at the positions `order`, in that order.
pub open spec fn group_rows_spec(c: ConfigView, order: Seq<usize>) -> Seq<char>
    decreases order.len(),
{
    if order.len() == 0 {
        Seq::empty()
    } else {
        let p = c.groups[order.last() as int];
        group_rows_spec(c, order.drop_last()) + group_row_spec(p.0, p.1, c)
    }
}

/// The view of an optional text.
pub open spec fn opt_view(o: Option<&str>) -> Option<Seq<char>> {
    match o {
        Some(m) => Some(m@),
        None => None,
    }
}

/// The class that marks the active sort column.
pub open spec fn active_class(on: bool) -> Seq<char> {
    if on {
        " active"@
    } else {
        ""@
    }
}

/// The banner that shows an error message.
pub open spec fn banner_spec(error: Option<Seq<char>>) -> Seq<char> {
    match error {
        Some(m) => BANNER_0@ + escape_spec(m) + BANNER_1@,
        None => Seq::empty(),
    }
}

/// The toolbar, the error banner, the bulk bar and the forms.
pub open spec fn head_spec(c: ConfigView, error: Option<Seq<char>>) -> Seq<char> {
    TOOLBAR_0@ + PH_FILTER@ + TOOLBAR_1@ + decimal_spec(c.urls.len()) + TOOLBAR_2@ + decimal_spec(
        c.groups.len(),
    ) + TOOLBAR_3@ + banner_spec(error) + BULK_BAR_0@ + FORMS_0@ + PH_URL_NAME@ + FORMS_1@ + PH_URL@
        + FORMS_2@ + PH_GROUP_NAME@ + FORMS_3@ + PH_GROUP_ENTRIES@ + FORMS_4@
}

/// The url table with its rows in the order `uo`, or a note that there are no urls.
pub open spec fn urls_table_spec(c: ConfigView, uo: Seq<usize>, sort: SortField) -> Seq<char> {
    if c.urls.len() == 0 {
        NO_URLS_0@
    } else {
        URL_TABLE_0@ + active_class(sort == SortField::Name) + URL_TABLE_1@ + active_class(
            sort == SortField::Url,
        ) + URL_TABLE_2@ + url_rows_spec(c, uo) + "</table>"@
    }
}

/// The group table with its rows in the order `go`, or a note that there are no groups.
pub open spec fn groups_table_spec(c: ConfigView, go: Seq<usize>, sort: SortField) -> Seq<char> {
    if c.groups.len() == 0 {
        NO_GROUPS_0@
    } else {
        GROUP_TABLE_0@ + active_class(sort == SortField::Name) + GROUP_TABLE_1@ + group_rows_spec(
            c,
            go,
        ) + "</table>"@
    }
}

/// The content with the url table in the order `uo` and the group table in
/// the order `go`.
pub open spec fn content_spec(
    c: ConfigView,
    uo: Seq<usize>,
    go: Seq<usize>,
    sort: SortField,
    error: Option<Seq<char>>,
) -> Seq<char> {
    head_spec(c, error) + URLS_HEAD_0@ + urls_table_spec(c, uo, sort) + "</div>"@ + GROUPS_HEAD_0@
        + groups_table_spec(c, go, sort) + "</div>"@
}

/// `r` is the content of `c`: urls ordered by the sort key, groups by name;
/// items with equal keys stay in the order of the configuration.
pub open spec fn is_content(
    r: Seq<char>,
    c: ConfigView,
    sort: SortField,
    error: Option<Seq<char>>,
) -> bool {
    exists|uo: Seq<usize>, go: Seq<usize>|
        #![trigger content_spec(c, uo, go, sort, error)]
        is_sorted_order(uo, url_sort_keys(c, sort)) && is_stable_order(uo, url_sort_keys(c, sort))
            && is_sorted_order(go, group_names(c)) && is_stable_order(go, group_names(c)) && r
            == content_spec(c, uo, go, sort, error)
}

fn url_order(config: &Config, sort: SortField) -> (r: Vec<usize>)
    ensures
        is_sorted_order(r@, url_sort_keys(config@, sort)),
        is_stable_order(r@, url_sort_keys(config@, sort)),
{
    let ghost c = config@;
    let mut url_keys: Vec<&str> = Vec::new();
    let mut i: usize = 0;
    while i < config.urls.len()
        invariant
            i <= config.urls.len(),
            c == config@,
            url_keys@.len() == i,
            forall|k: int| 0 <= k < i ==> #[trigger] url_keys@[k]@ == url_sort_keys(c, sort)[k],
        decreases config.urls.len() - i,
    {
        match sort {
            SortField::Name => url_keys.push(config.urls[i].0.as_str()),
            SortField::Url => url_keys.push(config.urls[i].1.url.as_str()),
        }
        i = i + 1;
    }
    assert(strs_view(url_keys@) == url_sort_keys(c, sort));
    sorted_order(&url_keys)
}

fn group_order(config: &Config) -> (r: Vec<usize>)
    ensures
        is_sorted_order(r@, group_names(config@)),
        is_stable_order(r@, group_names(config@)),
{
    let ghost c = config@;
    let mut group_keys: Vec<&str> = Vec::new();
    let mut i: usize = 0;
    while i < config.groups.len()
        invariant
            i <= config.groups.len(),
            c == config@,
            group_keys@.len() == i,
            forall|k: int| 0 <= k < i ==> #[trigger] group_keys@[k]@ == group_names(c)[k],
        decreases config.groups.len() - i,
    {
        group_keys.push(config.groups[i].0.as_str());
        i = i + 1;
    }
    assert(strs_view(group_keys@) == group_names(c));
    sorted_order(&group_keys)
}

fn render_head(config: &Config, error: Option<&str>) -> (r: String)
    ensures
        r@ == head_spec(config@, opt_view(error)),
{
    let mut html = String::from_str(TOOLBAR_0);
    html.append(PH_FILTER);
    html.append(TOOLBAR_1);
    let uc = decimal(config.urls.len());
    html.append(uc.as_str());
    html.append(TOOLBAR_2);
    let gc = decimal(config.groups.len());
    html.append(gc.as_str());
    html.append(TOOLBAR_3);
    match error {
        Some(msg) => {
            let m = escape(msg);
            html.append(BANNER_0);
            html.append(m.as_str());
            html.append(BANNER_1);
        },
        None => {},
    }
    html.append(BULK_BAR_0);
    html.append(FORMS_0);
    html.append(PH_URL_NAME);
    html.append(FORMS_1);
    html.append(PH_URL);
    html.append(FORMS_2);
    html.append(PH_GROUP_NAME);
    html.append(FORMS_3);
    html.append(PH_GROUP_ENTRIES);
    html.append(FORMS_4);
    html
}

fn active_str(on: bool) -> (r: &'static str)
    ensures
        r@ == active_class(on),
{
    if on {
        " active"
    } else {
        ""
    }
}

fn render_urls_table(config: &Config, uo: &Vec<usize>, sort: SortField) -> (r: String)
    requires
        is_sorted_order(uo@, url_sort_keys(config@, sort)),
    ensures
        r@ == urls_table_spec(config@, uo@, sort),
{
    let ghost c = config@;
    let mut table = String::new();
    if config.urls.len() == 0 {
        table.append(NO_URLS_0);
    } else {
        table.append(URL_TABLE_0);
        table.append(active_str(sort == SortField::Name));
        table.append(URL_TABLE_1);
        table.append(active_str(sort == SortField::Url));
        table.append(URL_TABLE_2);
        let mut rows = String::new();
        let mut k: usize = 0;
        while k < uo.len()
            invariant
                k <= uo@.len(),
                c == config@,
                is_sorted_order(uo@, url_sort_keys(c, sort)),
                url_sort_keys(c, sort).len() == c.urls.len(),
                rows@ == url_rows_spec(c, uo@.take(k as int)),
            decreases uo@.len() - k,
        {
            let j = uo[k];
            assert(uo@[k as int] < c.urls.len());
            let row = url_row(config.urls[j].0.as_str(), &config.urls[j].1);
            rows.append(row.as_str());
            assert(uo@.take(k + 1).drop_last() == uo@.take(k as int));
            k = k + 1;
        }
        assert(uo@.take(uo@.len() as int) == uo@);
        table.append(rows.as_str());
        table.append("</table>");
    }
    table
}

fn render_groups_table(config: &Config, go: &Vec<usize>, sort: SortField) -> (r: String)
    requires
        is_sorted_order(go@, group_names(config@)),
    ensures
        r@ == groups_table_spec(config@, go@, sort),
{
    let ghost c = config@;
    let mut table = String::new();
    if config.groups.len() == 0 {
        table.append(NO_GROUPS_0);
    } else {
        table.append(GROUP_TABLE_0);
        table.append(active_str(sort == SortField::Name));
        table.append(GROUP_TABLE_1);
        let mut rows = String::new();
        let mut k: usize = 0;
        while k < go.len()
            invariant
                k <= go@.len(),
                c == config@,
                is_sorted_order(go@, group_names(c)),
                group_names(c).len() == c.groups.len(),
                rows@ == group_rows_spec(c, go@.take(k as int)),
            decreases go@.len() - k,
        {
            let j = go[k];
            assert(go@[k as int] < c.groups.len());
            let row = group_row(config.groups[j].0.as_str(), config.groups[j].1.as_slice(), config);
            rows.append(row.as_str());
            assert(go@.take(k + 1).drop_last() == go@.take(k as int));
            k = k + 1;
        }
        assert(go@.take(go@.len() as int) == go@);
        table.append(rows.as_str());
        table.append("</table>");
    }
    table
}

/// The bookmarks content: toolbar, error banner, forms, url table and group table.
pub fn render_content(config: &Config, sort: SortField, error: Option<&str>) -> (r: String)
    ensures
        is_content(r@, config@, sort, opt_view(error)),
{
    let uo = url_order(config, sort);
    let go = group_order(config);
    let mut html = render_head(config, error);
    html.append(URLS_HEAD_0);
    let urls_table = render_urls_table(config, &uo, sort);
    html.append(urls_table.as_str());
    html.append("</div>");
    html.append(GROUPS_HEAD_0);
    let groups_table = render_groups_table(config, &go, sort);
    html.append(groups_table.as_str());
    html.append("</div>");
    assert(html@ == content_spec(config@, uo@, go@, sort, opt_view(error)));
    html
}

/// The content of a configuration is determined by the configuration, the
/// sort order and the error: `is_content` holds of exactly one text.
pub proof fn law_content_is_determined(
    r1: Seq<char>,
    r2: Seq<char>,
    c: ConfigView,
    sort: SortField,
    error: Option<Seq<char>>,
)
    requires
        is_content(r1, c, sort, error),
        is_content(r2, c, sort, error),
    ensures
        r1 == r2,
{
    let (u1, g1) = choose|uo: Seq<usize>, go: Seq<usize>|
        #![trigger content_spec(c, uo, go, sort, error)]
        is_sorted_order(uo, url_sort_keys(c, sort)) && is_stable_order(uo, url_sort_keys(c, sort))
            && is_sorted_order(go, group_names(c)) && is_stable_order(go, group_names(c)) && r1
            == content_spec(c, uo, go, sort, error);
    let (u2, g2) = choose|uo: Seq<usize>, go: Seq<usize>|
        #![trigger content_spec(c, uo, go, sort, error)]
        is_sorted_order(uo, url_sort_keys(c, sort)) && is_stable_order(uo, url_sort_keys(c, sort))
            && is_sorted_order(go, group_names(c)) && is_stable_order(go, group_names(c)) && r2
            == content_spec(c, uo, go, sort, error);
    law_sorted_stable_order_unique(u1, u2, url_sort_keys(c, sort));
    law_sorted_stable_order_unique(g1, g2, group_names(c));
}

#[verifier::spinoff_prover]
proof fn lemma_url_rows_append(c: ConfigView, o1: Seq<usize>, o2: Seq<usize>)
    ensures
        url_rows_spec(c, o1 + o2) == url_rows_spec(c, o1) + url_rows_spec(c, o2),
    decreases o2.len(),
{
    if o2.len() == 0 {
        assert(o1 + o2 == o1);
        assert(url_rows_spec(c, o2) == Seq::<char>::empty());
        assert(url_rows_spec(c, o1) + Seq::<char>::empty() == url_rows_spec(c, o1));
    } else {
        let o = o1 + o2;
        let init = o2.drop_last();
        lemma_url_rows_append(c, o1, init);
        assert(o.drop_last() == o1 + init);
        assert(o.last() == o2.last());
        let p = c.urls[o2.last() as int];
        let row = url_row_spec(p.0, p.1);
        assert(url_rows_spec(c, o) == url_rows_spec(c, o1 + init) + row);
        assert(url_rows_spec(c, o2) == url_rows_spec(c, init) + row);
        let x = url_rows_spec(c, o1);
        let y = url_rows_spec(c, init);
        assert(x + y + row == x + (y + row));
    }
}

#[verifier::spinoff_prover]
proof fn lemma_group_rows_append(c: ConfigView, o1: Seq<usize>, o2: Seq<usize>)
    ensures
        group_rows_spec(c, o1 + o2) == group_rows_spec(c, o1) + group_rows_spec(c, o2),
    decreases o2.len(),
{
    if o2.len() == 0 {
        assert(o1 + o2 == o1);
        assert(group_rows_spec(c, o2) == Seq::<char>::empty());
        assert(group_rows_spec(c, o1) + Seq::<char>::empty() == group_rows_spec(c, o1));
    } else {
        let o = o1 + o2;
        let init = o2.drop_last();
        lemma_group_rows_append(c, o1, init);
        assert(o.drop_last() == o1 + init);
        assert(o.last() == o2.last());
        let p = c.groups[o2.last() as int];
        let row = group_row_spec(p.0, p.1, c);
        assert(group_rows_spec(c, o) == group_rows_spec(c, o1 + init) + row);
        assert(group_rows_spec(c, o2) == group_rows_spec(c, init) + row);
        let x = group_rows_spec(c, o1);
        let y = group_rows_spec(c, init);
        assert(x + y + row == x + (y + row));
    }
}

proof fn lemma_regroup(a: Seq<char>, b: Seq<char>, p: Seq<char>, row: Seq<char>, q: Seq<char>, c: Seq<char>, d: Seq<char>)
    ensures
        a + (b + (p + row + q) + c) + d == (a + b + p) + row + (q + c + d),
{
    assert(a + (b + (p + row + q) + c) + d =~= (a + b + p) + row + (q + c + d));
}

proof fn lemma_tail4(x: Seq<char>, d1: Seq<char>, g: Seq<char>, gt: Seq<char>, d2: Seq<char>)
    ensures
        x + d1 + g + gt + d2 == x + (d1 + g + gt + d2),
{
    assert(x + d1 + g + gt + d2 =~= x + (d1 + g + gt + d2));
}

proof fn lemma_split_rows_at(c: ConfigView, o: Seq<usize>, k: int)
    requires
        0 <= k < o.len(),
    ensures
        url_rows_spec(c, o) == url_rows_spec(c, o.take(k)) + url_row_spec(
            c.urls[o[k] as int].0,
            c.urls[o[k] as int].1,
        ) + url_rows_spec(c, o.skip(k + 1)),
        group_rows_spec(c, o) == group_rows_spec(c, o.take(k)) + group_row_spec(
            c.groups[o[k] as int].0,
            c.groups[o[k] as int].1,
            c,
        ) + group_rows_spec(c, o.skip(k + 1)),
{
    let before = o.take(k);
    let after = o.skip(k + 1);
    assert(o == before.push(o[k]) + after);
    assert(before.push(o[k]).drop_last() == before);
    lemma_url_rows_append(c, before.push(o[k]), after);
    lemma_group_rows_append(c, before.push(o[k]), after);
}

/// Every url of the configuration has its row in the content.
pub proof fn law_every_url_is_listed(
    r: Seq<char>,
    c: ConfigView,
    sort: SortField,
    error: Option<Seq<char>>,
    i: int,
)
    requires
        is_content(r, c, sort, error),
        0 <= i < c.urls.len(),
    ensures
        contains_text(r, url_row_spec(c.urls[i].0, c.urls[i].1)),
{
    let (uo, go) = choose|uo: Seq<usize>, go: Seq<usize>|
        #![trigger content_spec(c, uo, go, sort, error)]
        is_sorted_order(uo, url_sort_keys(c, sort)) && is_stable_order(uo, url_sort_keys(c, sort))
            && is_sorted_order(go, group_names(c)) && is_stable_order(go, group_names(c)) && r
            == content_spec(c, uo, go, sort, error);
    lemma_sorted_order_covers(uo, url_sort_keys(c, sort), i);
    let k = choose|k: int| 0 <= k < uo.len() && uo[k] == i;
    let row = url_row_spec(c.urls[i].0, c.urls[i].1);
    lemma_split_rows_at(c, uo, k);
    let p = url_rows_spec(c, uo.take(k));
    let q = url_rows_spec(c, uo.skip(k + 1));
    let h = head_spec(c, error) + URLS_HEAD_0@;
    let b = URL_TABLE_0@ + active_class(sort == SortField::Name) + URL_TABLE_1@ + active_class(
        sort == SortField::Url,
    ) + URL_TABLE_2@;
    let tail = "</div>"@ + GROUPS_HEAD_0@ + groups_table_spec(c, go, sort) + "</div>"@;
    assert(urls_table_spec(c, uo, sort) == b + (p + row + q) + "</table>"@);
    lemma_tail4(
        h + urls_table_spec(c, uo, sort),
        "</div>"@,
        GROUPS_HEAD_0@,
        groups_table_spec(c, go, sort),
        "</div>"@,
    );
    assert(r == h + urls_table_spec(c, uo, sort) + tail);
    lemma_regroup(h, b, p, row, q, "</table>"@, tail);
    assert(r == (h + b + p) + row + (q + "</table>"@ + tail));
}

/// Every group of the configuration has its row in the content.
pub proof fn law_every_group_is_listed(
    r: Seq<char>,
    c: ConfigView,
    sort: SortField,
    error: Option<Seq<char>>,
    i: int,
)
    requires
        is_content(r, c, sort, error),
        0 <= i < c.groups.len(),
    ensures
        contains_text(r, group_row_spec(c.groups[i].0, c.groups[i].1, c)),
{
    let (uo, go) = choose|uo: Seq<usize>, go: Seq<usize>|
        #![trigger content_spec(c, uo, go, sort, error)]
        is_sorted_order(uo, url_sort_keys(c, sort)) && is_stable_order(uo, url_sort_keys(c, sort))
            && is_sorted_order(go, group_names(c)) && is_stable_order(go, group_names(c)) && r
            == content_spec(c, uo, go, sort, error);
    lemma_sorted_order_covers(go, group_names(c), i);
    let k = choose|k: int| 0 <= k < go.len() && go[k] == i;
    let row = group_row_spec(c.groups[i].0, c.groups[i].1, c);
    lemma_split_rows_at(c, go, k);
    let p = group_rows_spec(c, go.take(k));
    let q = group_rows_spec(c, go.skip(k + 1));
    let h = head_spec(c, error) + URLS_HEAD_0@ + urls_table_spec(c, uo, sort) + "</div>"@
        + GROUPS_HEAD_0@;
    let b = GROUP_TABLE_0@ + active_class(sort == SortField::Name) + GROUP_TABLE_1@;
    assert(groups_table_spec(c, go, sort) == b + (p + row + q) + "</table>"@);
    assert(r == h + groups_table_spec(c, go, sort) + "</div>"@);
    lemma_regroup(h, b, p, row, q, "</table>"@, "</div>"@);
    assert(r == (h + b + p) + row + (q + "</table>"@ + "</div>"@));
}

/// A url that was just added or updated is listed with its address.
pub proof fn law_added_url_is_listed(
    r: Seq<char>,
    c: ConfigView,
    name: Seq<char>,
    url: Seq<char>,
    sort: SortField,
    error: Option<Seq<char>>,
)
    requires
        is_content(r, upsert_url_spec(c, name, url), sort, error),
    ensures
        exists|e: UrlEntryView| e.url == url && contains_text(r, #[trigger] url_row_spec(name, e)),
{
    let d = upsert_url_spec(c, name, url);
    let i = match index_of(url_names(c), name) {
        Some(i) => i,
        None => c.urls.len() as int,
    };
    if index_of(url_names(c), name) is Some {
        crate::config::lemma_index_of_some(url_names(c), name);
    }
    law_every_url_is_listed(r, d, sort, error, i);
    assert(d.urls[i].0 == name && d.urls[i].1.url == url);
}

/// A group that was just added or updated is listed with its entries.
pub proof fn law_added_group_is_listed(
    r: Seq<char>,
    c: ConfigView,
    name: Seq<char>,
    entries: Seq<Seq<char>>,
    sort: SortField,
    error: Option<Seq<char>>,
)
    requires
        upsert_group_spec(c, name, entries) is Ok,
        is_content(r, upsert_group_spec(c, name, entries)->Ok_0, sort, error),
    ensures
        contains_text(r, group_row_spec(name, entries, upsert_group_spec(c, name, entries)->Ok_0)),
{
    let d = upsert_group_spec(c, name, entries)->Ok_0;
    let i = match index_of(group_names(c), name) {
        Some(i) => i,
        None => c.groups.len() as int,
    };
    if index_of(group_names(c), name) is Some {
        crate::config::lemma_index_of_some(group_names(c), name);
    }
    law_every_group_is_listed(r, d, sort, error, i);
}

} // verus!
