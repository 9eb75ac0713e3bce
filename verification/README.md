# bookmarks

Bookmarks in your filesystem: named urls with aliases, and groups of them,
opened from the command line or managed in a small web page.

`src/` is the verified library, checked with Verus:

- `config` — the configuration model (urls with aliases, groups), lookup of a
  name or alias, and every edit with its exact effect; laws that edits keep
  names unique, that an added url is what its name stands for, that renames
  move and deletes remove.
- `open` — which urls a list of names, aliases and groups stands for, in order.
- `text`, `order` — HTML escaping (with the laws that unescaping undoes it
  and that it is injective), joining, trimming, comma-separated lists (with
  the law that a joined list parses back), substring search, decimal numbers,
  and a stable sort of rows by text key.
- `json` — the JSON string literal of a text as `serde_json` writes it, how
  such a literal reads back, and the law that it reads back as the text.
- `html`, `render` — the page, the url and group rows and the whole content,
  each stated exactly over the configuration; script string literals in
  attributes, with the law that they give back their text.
- `webapp` — content for a request, the edits that the forms ask for, what
  happens when the configuration cannot be loaded, and each step of the wait
  for the server to come up.
- `cli`, `desktop` — which bookmarks file to use, what the command line does,
  the printed configuration, and where the desktop shell sends a navigation.

`app/` holds the programs around it: the axum server, the clap command line,
the storage trait and the `bookmarks.toml` file that backs it.
