//! What opening a list of names opens: each url name or alias stands for its
//! url, each group for the urls of its entries, in the order given.

use vstd::prelude::*;

use crate::config::{group_names, index_of, resolve_spec, ConfigError, ConfigView, Config, find_key};
use crate::render::resolve_url;
use crate::text::strings_view;

verus! {

/// The urls that the entries of a group stand for, in order, or the first
/// entry that stands for nothing.
pub open spec fn entries_targets(c: ConfigView, entries: Seq<Seq<char>>) -> Result<
    Seq<Seq<char>>,
    Seq<char>,
>
    decreases entries.len(),
{
    if entries.len() == 0 {
        Ok(Seq::empty())
    } else {
        match entries_targets(c, entries.drop_last()) {
            Err(e) => Err(e),
            Ok(prev) => match resolve_spec(c, entries.last()) {
                Some(u) => Ok(prev.push(u)),
                None => Err(entries.last()),
            },
        }
    }
}

/// The urls that one name stands for: its url when it is a url name or an
/// alias, otherwise the urls of the group with that name.
pub open spec fn name_targets(c: ConfigView, name: Seq<char>) -> Result<Seq<Seq<char>>, Seq<char>> {
    match resolve_spec(c, name) {
        Some(u) => Ok(seq![u]),
        None => match index_of(group_names(c), name) {
            Some(g) => entries_targets(c, c.groups[g].1),
            None => Err(name),
        },
    }
}

/// The urls that a list of names stands for, in the order given, or the first
/// name (or group entry) that stands for nothing.
pub open spec fn open_targets_spec(c: ConfigView, names: Seq<Seq<char>>) -> Result<
    Seq<Seq<char>>,
    Seq<char>,
>
    decreases names.len(),
{
    if names.len() == 0 {
        Ok(Seq::empty())
    } else {
        match open_targets_spec(c, names.drop_last()) {
            Err(e) => Err(e),
            Ok(prev) => match name_targets(c, names.last()) {
                Ok(us) => Ok(prev + us),
                Err(e) => Err(e),
            },
        }
    }
}

proof fn lemma_entries_targets_err_prefix(c: ConfigView, es: Seq<Seq<char>>, k: int)
    requires
        0 <= k <= es.len(),
        entries_targets(c, es.take(k)) is Err,
    ensures
        entries_targets(c, es) == entries_targets(c, es.take(k)),
    decreases es.len() - k,
{
    if k < es.len() {
        assert(es.take(k + 1).drop_last() == es.take(k));
        lemma_entries_targets_err_prefix(c, es, k + 1);
    } else {
        assert(es.take(k) == es);
    }
}

proof fn lemma_open_targets_err_prefix(c: ConfigView, ns: Seq<Seq<char>>, k: int)
    requires
        0 <= k <= ns.len(),
        open_targets_spec(c, ns.take(k)) is Err,
    ensures
        open_targets_spec(c, ns) == open_targets_spec(c, ns.take(k)),
    decreases ns.len() - k,
{
    if k < ns.len() {
        assert(ns.take(k + 1).drop_last() == ns.take(k));
        lemma_open_targets_err_prefix(c, ns, k + 1);
    } else {
        assert(ns.take(k) == ns);
    }
}

fn push_name_targets(config: &Config, name: &str, out: &mut Vec<String>) -> (r: Result<
    (),
    ConfigError,
>)
    ensures
        match r {
            Ok(_) => name_targets(config@, name@) matches Ok(us) && strings_view(final(out)@)
                == strings_view(old(out)@) + us,
            Err(e) => name_targets(config@, name@) matches Err(n) && (e matches ConfigError::NotFound(
                m,
            ) && m@ == n),
        },
{
    let ghost start = strings_view(out@);
    match resolve_url(name, config) {
        Some(u) => {
            out.push(String::from_str(u));
            assert(strings_view(out@) =~= start + seq![u@]);
            return Ok(());
        },
        None => {},
    }
    assert(config.groups@.map_values(|p: (String, Vec<String>)| p.0@) == group_names(config@));
    match find_key(&config.groups, name) {
        None => Err(ConfigError::NotFound(String::from_str(name))),
        Some(g) => {
            let entries = &config.groups[g].1;
            let ghost es = strings_view(entries@);
            assert(es == config@.groups[g as int].1);
            let mut i: usize = 0;
            while i < entries.len()
                invariant
                    i <= entries.len(),
                    es == strings_view(entries@),
                    resolve_spec(config@, name@) is None,
                    index_of(group_names(config@), name@) == Some(g as int),
                    es == config@.groups[g as int].1,
                    entries_targets(config@, es.take(i as int)) matches Ok(us) && strings_view(
                        out@,
                    ) == start + us,
                decreases entries.len() - i,
            {
                assert(es.take(i + 1).drop_last() == es.take(i as int));
                assert(es.take(i + 1).last() == es[i as int]);
                let ghost before = strings_view(out@);
                match resolve_url(entries[i].as_str(), config) {
                    Some(u) => {
                        out.push(String::from_str(u));
                        assert(strings_view(out@) =~= before.push(u@));
                    },
                    None => {
                        proof {
                            lemma_entries_targets_err_prefix(config@, es, i + 1);
                        }
                        let missing = entries[i].clone();
                        assert(missing@ == es[i as int]);
                        assert(name_targets(config@, name@) == entries_targets(config@, es));
                        assert(entries_targets(config@, es) == Err::<Seq<Seq<char>>, Seq<char>>(
                            es[i as int],
                        ));
                        return Err(ConfigError::NotFound(missing));
                    },
                }
                i = i + 1;
            }
            assert(es.take(entries.len() as int) == es);
            Ok(())
        },
    }
}

/// The urls that a list of url names, aliases and groups stands for, in the
/// order given.
pub fn open_targets(names: &[String], config: &Config) -> (r: Result<Vec<String>, ConfigError>)
    ensures
        match r {
            Ok(v) => open_targets_spec(config@, strings_view(names@)) == Ok::<
                Seq<Seq<char>>,
                Seq<char>,
            >(strings_view(v@)),
            Err(e) => open_targets_spec(config@, strings_view(names@)) matches Err(n) && (
            e matches ConfigError::NotFound(m) && m@ == n),
        },
{
    let ghost ns = strings_view(names@);
    let mut out: Vec<String> = Vec::new();
    let mut i: usize = 0;
    assert(strings_view(out@) =~= Seq::<Seq<char>>::empty());
    while i < names.len()
        invariant
            i <= names.len(),
            ns == strings_view(names@),
            open_targets_spec(config@, ns.take(i as int)) == Ok::<Seq<Seq<char>>, Seq<char>>(
                strings_view(out@),
            ),
        decreases names.len() - i,
    {
        assert(ns.take(i + 1).drop_last() == ns.take(i as int));
        assert(ns.take(i + 1).last() == ns[i as int]);
        match push_name_targets(config, names[i].as_str(), &mut out) {
            Ok(()) => {},
            Err(e) => {
                proof {
                    lemma_open_targets_err_prefix(config@, ns, i + 1);
                }
                return Err(e);
            },
        }
        i = i + 1;
    }
    assert(ns.take(names.len() as int) == ns);
    Ok(out)
}

/// Opening two lists one after the other opens what each stands for, in
/// order: names are opened in the order they are given.
pub proof fn law_open_targets_in_order(c: ConfigView, a: Seq<Seq<char>>, b: Seq<Seq<char>>)
    requires
        open_targets_spec(c, a) is Ok,
        open_targets_spec(c, b) is Ok,
    ensures
        open_targets_spec(c, a + b) == Ok::<Seq<Seq<char>>, Seq<char>>(
            open_targets_spec(c, a)->Ok_0 + open_targets_spec(c, b)->Ok_0,
        ),
    decreases b.len(),
{
    if b.len() == 0 {
        assert(a + b == a);
        assert(open_targets_spec(c, b)->Ok_0 == Seq::<Seq<char>>::empty());
        assert(open_targets_spec(c, a)->Ok_0 + Seq::<Seq<char>>::empty() == open_targets_spec(
            c,
            a,
        )->Ok_0);
    } else {
        let b0 = b.drop_last();
        assert(open_targets_spec(c, b0) is Ok);
        law_open_targets_in_order(c, a, b0);
        assert((a + b).drop_last() == a + b0);
        assert((a + b).last() == b.last());
        let x = open_targets_spec(c, a)->Ok_0;
        let y0 = open_targets_spec(c, b0)->Ok_0;
        let us = name_targets(c, b.last())->Ok_0;
        assert(x + y0 + us == x + (y0 + us));
    }
}

} // verus!
