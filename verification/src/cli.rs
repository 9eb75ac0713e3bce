//! The command line: its arguments, which bookmarks file to use, and what to do.

use vstd::prelude::*;

use crate::config::{Config, ConfigView, UrlEntryView};
use crate::text::{join_spec, join_strings, strings_view};

verus! {

/// The command-line arguments.
#[derive(Clone, Debug)]
pub struct Args {
    /// Path to bookmarks file (overrides cwd and global).
    pub bookmarks_file: Option<String>,
    /// Use the global config, ignore a local one.
    pub global: bool,
    /// Use the local config (./bookmarks.toml), create it if missing.
    pub local: bool,
    /// Open the active bookmarks file in $EDITOR.
    pub config: bool,
    /// Open the desktop app.
    pub app: bool,
    /// Open the webapp.
    pub webapp: bool,
    /// Things to open (url names, aliases, or groups).
    pub urls: Vec<String>,
}

/// Which bookmarks file to use, and whether to create it when it is missing.
#[derive(Clone, Debug)]
pub enum StorageChoice {
    /// The file given with `--bookmarks-file`; it exists.
    Explicit(String),
    /// `bookmarks.toml` in the current directory, created if missing.
    Local(String),
    /// `bookmarks.toml` in the current directory, which exists.
    Cwd(String),
    /// The global file in the user's configuration directory, created if missing.
    Global,
}

/// Why no bookmarks file could be chosen.
#[derive(Clone, Debug)]
pub enum ResolveError {
    /// The file given with `--bookmarks-file` does not exist.
    FileNotFound(String),
    /// `--local` was given but the current directory is unknown.
    NoCurrentDir,
}

impl ResolveError {
    /// The text of the error.
    pub open spec fn message_spec(&self) -> Seq<char> {
        match self {
            ResolveError::FileNotFound(p) => "bookmarks file not found: "@ + p@,
            ResolveError::NoCurrentDir => "failed to get current directory"@,
        }
    }

    /// The text of the error.
    pub fn message(&self) -> (r: String)
        ensures
            r@ == self.message_spec(),
    {
        match self {
            ResolveError::FileNotFound(p) => {
                let mut out = String::from_str("bookmarks file not found: ");
                out.append(p.as_str());
                out
            },
            ResolveError::NoCurrentDir => String::from_str("failed to get current directory"),
        }
    }
}

/// The choice of bookmarks file, in this order: an explicit file (which must
/// exist); with `--local`, the file in the current directory (created if
/// missing); unless `--global`, the file in the current directory if it
/// exists; otherwise the global file (created if missing).
pub open spec fn resolve_storage_spec(
    bookmarks_file: Option<Seq<char>>,
    file_exists: bool,
    global: bool,
    local: bool,
    cwd_path: Option<Seq<char>>,
    cwd_exists: bool,
) -> Result<StorageChoiceView, ResolveErrorView> {
    match bookmarks_file {
        Some(p) => if file_exists {
            Ok(StorageChoiceView::Explicit(p))
        } else {
            Err(ResolveErrorView::FileNotFound(p))
        },
        None => if local {
            match cwd_path {
                Some(c) => Ok(StorageChoiceView::Local(c)),
                None => Err(ResolveErrorView::NoCurrentDir),
            }
        } else if !global && cwd_path is Some && cwd_exists {
            Ok(StorageChoiceView::Cwd(cwd_path->0))
        } else {
            Ok(StorageChoiceView::Global)
        },
    }
}

/// A storage choice, as plain text.
pub enum StorageChoiceView {
    Explicit(Seq<char>),
    Local(Seq<char>),
    Cwd(Seq<char>),
    Global,
}

/// A resolve error, as plain text.
pub enum ResolveErrorView {
    FileNotFound(Seq<char>),
    NoCurrentDir,
}

impl View for StorageChoice {
    type V = StorageChoiceView;

    open spec fn view(&self) -> StorageChoiceView {
        match self {
            StorageChoice::Explicit(p) => StorageChoiceView::Explicit(p@),
            StorageChoice::Local(p) => StorageChoiceView::Local(p@),
            StorageChoice::Cwd(p) => StorageChoiceView::Cwd(p@),
            StorageChoice::Global => StorageChoiceView::Global,
        }
    }
}

impl View for ResolveError {
    type V = ResolveErrorView;

    open spec fn view(&self) -> ResolveErrorView {
        match self {
            ResolveError::FileNotFound(p) => ResolveErrorView::FileNotFound(p@),
            ResolveError::NoCurrentDir => ResolveErrorView::NoCurrentDir,
        }
    }
}

/// The view of an optional owned text.
pub open spec fn opt_text(o: Option<String>) -> Option<Seq<char>> {
    match o {
        Some(s) => Some(s@),
        None => None,
    }
}

/// Chooses the bookmarks file. `file_exists` says whether the explicit file
/// exists; `cwd_path` is the file in the current directory, when the current
/// directory is known, and `cwd_exists` whether that file exists.
pub fn resolve_storage(
    bookmarks_file: Option<String>,
    file_exists: bool,
    global: bool,
    local: bool,
    cwd_path: Option<String>,
    cwd_exists: bool,
) -> (r: Result<StorageChoice, ResolveError>)
    ensures
        match r {
            Ok(c) => resolve_storage_spec(
                opt_text(bookmarks_file),
                file_exists,
                global,
                local,
                opt_text(cwd_path),
                cwd_exists,
            ) == Ok::<StorageChoiceView, ResolveErrorView>(c@),
            Err(e) => resolve_storage_spec(
                opt_text(bookmarks_file),
                file_exists,
                global,
                local,
                opt_text(cwd_path),
                cwd_exists,
            ) == Err::<StorageChoiceView, ResolveErrorView>(e@),
        },
{
    if let Some(path) = bookmarks_file {
        if !file_exists {
            return Err(ResolveError::FileNotFound(path));
        }
        return Ok(StorageChoice::Explicit(path));
    }
    if local {
        return match cwd_path {
            Some(c) => Ok(StorageChoice::Local(c)),
            None => Err(ResolveError::NoCurrentDir),
        };
    }
    if !global && cwd_exists {
        if let Some(c) = cwd_path {
            return Ok(StorageChoice::Cwd(c));
        }
    }
    Ok(StorageChoice::Global)
}

/// What the command line does once the bookmarks file is chosen.
#[derive(Clone, Debug)]
pub enum CliAction {
    /// Open the desktop app.
    App,
    /// Serve the webapp and open it in the browser.
    Webapp,
    /// Open the bookmarks file in the editor.
    EditConfig,
    /// Print the configuration.
    PrintConfig,
    /// Open the given names, aliases and groups.
    OpenLinks,
}

/// What the command line does: the app, else the webapp, else editing the
/// file, else printing the configuration when nothing is to be opened, else
/// opening what was named.
pub open spec fn cli_action_spec(app: bool, webapp: bool, config: bool, n_urls: nat) -> CliAction {
    if app {
        CliAction::App
    } else if webapp {
        CliAction::Webapp
    } else if config {
        CliAction::EditConfig
    } else if n_urls == 0 {
        CliAction::PrintConfig
    } else {
        CliAction::OpenLinks
    }
}

/// What the command line does for these arguments.
pub fn cli_action(args: &Args) -> (r: CliAction)
    ensures
        r == cli_action_spec(args.app, args.webapp, args.config, args.urls@.len()),
{
    if args.app {
        CliAction::App
    } else if args.webapp {
        CliAction::Webapp
    } else if args.config {
        CliAction::EditConfig
    } else if args.urls.len() == 0 {
        CliAction::PrintConfig
    } else {
        CliAction::OpenLinks
    }
}


/// The config flag opens the bookmarks file in the editor whenever neither the
/// app nor the webapp is asked for, however many names are given; without any
/// of the three flags, no names prints the configuration and names open links.
pub proof fn law_cli_action_of_flags(app: bool, webapp: bool, config: bool, n_urls: nat)
    ensures
        app ==> cli_action_spec(app, webapp, config, n_urls) is App,
        !app && webapp ==> cli_action_spec(app, webapp, config, n_urls) is Webapp,
        !app && !webapp && config ==> cli_action_spec(app, webapp, config, n_urls) is EditConfig,
        !app && !webapp && !config && n_urls == 0 ==> cli_action_spec(
            app,
            webapp,
            config,
            n_urls,
        ) is PrintConfig,
        !app && !webapp && !config && n_urls > 0 ==> cli_action_spec(
            app,
            webapp,
            config,
            n_urls,
        ) is OpenLinks,
{
}

/// The printed line of one url: its name, its aliases in brackets when it has
/// any, and the url.
pub open spec fn url_line_spec(name: Seq<char>, e: UrlEntryView) -> Seq<char> {
    if e.aliases.len() == 0 {
        name + ": "@ + e.url
    } else {
        name + " ("@ + join_spec(e.aliases, ", "@) + "): "@ + e.url
    }
}

/// The printed line of one group: its name and its entries in square brackets.
pub open spec fn group_line_spec(name: Seq<char>, entries: Seq<Seq<char>>) -> Seq<char> {
    name + ": ["@ + join_spec(entries, ", "@) + "]"@
}

/// The printed configuration: a line for each url, then one for each group,
/// in the order the configuration holds them.
pub open spec fn config_lines_spec(c: ConfigView) -> Seq<Seq<char>> {
    c.urls.map_values(|p: (Seq<char>, UrlEntryView)| url_line_spec(p.0, p.1)) + c.groups.map_values(
        |p: (Seq<char>, Seq<Seq<char>>)| group_line_spec(p.0, p.1),
    )
}

/// The lines that show the configuration when no url is given to open.
pub fn config_lines(config: &Config) -> (r: Vec<String>)
    ensures
        strings_view(r@) == config_lines_spec(config@),
{
    let ghost c = config@;
    let ghost ul = c.urls.map_values(|p: (Seq<char>, UrlEntryView)| url_line_spec(p.0, p.1));
    let ghost gl = c.groups.map_values(|p: (Seq<char>, Seq<Seq<char>>)| group_line_spec(p.0, p.1));
    let mut out: Vec<String> = Vec::new();
    let mut i: usize = 0;
    while i < config.urls.len()
        invariant
            c == config@,
            ul == c.urls.map_values(|p: (Seq<char>, UrlEntryView)| url_line_spec(p.0, p.1)),
            i <= config.urls.len(),
            strings_view(out@) == ul.take(i as int),
        decreases config.urls.len() - i,
    {
        let name = &config.urls[i].0;
        let entry = &config.urls[i].1;
        let mut line = String::from_str(name.as_str());
        if entry.aliases.len() == 0 {
            line.append(": ");
        } else {
            line.append(" (");
            let joined = join_strings(entry.aliases.as_slice(), ", ");
            line.append(joined.as_str());
            line.append("): ");
        }
        line.append(entry.url.as_str());
        proof {
            reveal_strlit(": ");
            reveal_strlit(" (");
            reveal_strlit(", ");
            reveal_strlit("): ");
            assert(c.urls[i as int] == (name@, entry@));
            assert(line@ == ul[i as int]);
        }
        let ghost before = out@;
        out.push(line);
        assert(strings_view(out@) =~= strings_view(before).push(ul[i as int]));
        assert(ul.take(i + 1) =~= ul.take(i as int).push(ul[i as int]));
        i = i + 1;
    }
    assert(ul.take(i as int) == ul);
    let mut k: usize = 0;
    while k < config.groups.len()
        invariant
            c == config@,
            ul == c.urls.map_values(|p: (Seq<char>, UrlEntryView)| url_line_spec(p.0, p.1)),
            gl == c.groups.map_values(|p: (Seq<char>, Seq<Seq<char>>)| group_line_spec(p.0, p.1)),
            k <= config.groups.len(),
            strings_view(out@) == ul + gl.take(k as int),
        decreases config.groups.len() - k,
    {
        let name = &config.groups[k].0;
        let entries = &config.groups[k].1;
        let mut line = String::from_str(name.as_str());
        line.append(": [");
        let joined = join_strings(entries.as_slice(), ", ");
        line.append(joined.as_str());
        line.append("]");
        proof {
            reveal_strlit(": [");
            reveal_strlit("]");
            reveal_strlit(", ");
            assert(c.groups[k as int] == (name@, strings_view(entries@)));
            assert(line@ == gl[k as int]);
        }
        let ghost before = out@;
        out.push(line);
        assert(strings_view(out@) =~= strings_view(before).push(gl[k as int]));
        assert(ul + gl.take(k + 1) =~= (ul + gl.take(k as int)).push(gl[k as int]));
        k = k + 1;
    }
    assert(gl.take(k as int) == gl);
    out
}

} // verus!
