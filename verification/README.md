# PaperDock

Ask questions about the papers in a Zotero library and get answers with citations that open the
source. PaperDock is a window, an app behind it, and a query engine (a Python worker) that the app
talks to in lines of JSON.

- `src/` is the library: every decision that the app and the window make, with contracts that
  Verus proves. It reads and writes nothing itself; all that it asks the machine is where the
  home directory is.
- `app/` is the rest: the window's markup, the commands of the desktop app, HTTP, files and
  processes. It asks the library what to do and does it.
- `tests/` runs the library on concrete values, with the outside crates linked.

## The library

| module | what it is about |
|---|---|
| `config` | the settings, what of them a lab shares, and how they are loaded and changed |
| `zotero` | libraries, collections, papers and their PDFs, as Zotero's local API tells of them |
| `ask` | which papers a job goes by, what the user is told of them, and the request |
| `sidecar` | the lines that are exchanged with the query engine |
| `reference` | how well a reference matches the closest work that CrossRef knows |
| `setup` | the steps of the first-run setup |
| `lookup`, `paths`, `links` | files to look for, names of files, addresses to open |
| `session`, `thread`, `picker`, `progress`, `show` | the window: what it knows, does and shows |
| `json`, `text` | JSON values, and texts as sequences of characters |

Contracts speak of models: a text is a `Seq<char>`, a JSON value a `JsonView`, a struct the struct
of the same name with `View` behind it. What a function states is a spec function of those models,
and the laws at the end of a module relate them.

What is believed rather than proved is marked in the source and listed here: `serde_json` (reading a
document, taking a value apart, putting one together, writing it), `dirs::home_dir`, and from the
standard library `String::push`, `str::to_lowercase` and `char::is_alphanumeric`.
